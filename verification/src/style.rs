use vstd::prelude::*;

verus! {

/// The annotation tool that canvas drags create.
#[derive(Clone, Copy, PartialEq, Eq, Debug, Structural)]
pub enum Tool {
    NoTool,
    Rectangle,
    Ellipse,
    Arrow,
    Brush,
    Text,
    Mosaic,
}

/// Line thickness of shapes, arrows and brush strokes.
#[derive(Clone, Copy, PartialEq, Eq, Debug, Structural)]
pub enum StrokeWidth {
    Thin,
    Medium,
    Thick,
}

impl StrokeWidth {
    /// The thickness in pixels: 2, 4 or 6.
    pub fn value(self) -> (r: u32)
        ensures
            r == self.spec_value(),
    {
        match self {
            StrokeWidth::Thin => 2,
            StrokeWidth::Medium => 4,
            StrokeWidth::Thick => 6,
        }
    }

    pub open spec fn spec_value(self) -> u32 {
        match self {
            StrokeWidth::Thin => 2,
            StrokeWidth::Medium => 4,
            StrokeWidth::Thick => 6,
        }
    }
}

/// Text size of text annotations.
#[derive(Clone, Copy, PartialEq, Eq, Debug, Structural)]
pub enum FontSize {
    Small,
    Medium,
    Large,
}

impl FontSize {
    /// The size in pixels: 16, 24 or 36.
    pub fn value(self) -> (r: u32)
        ensures
            r == self.spec_value(),
    {
        match self {
            FontSize::Small => 16,
            FontSize::Medium => 24,
            FontSize::Large => 36,
        }
    }

    pub open spec fn spec_value(self) -> u32 {
        match self {
            FontSize::Small => 16,
            FontSize::Medium => 24,
            FontSize::Large => 36,
        }
    }
}

/// An opaque colour: red, green and blue channels.
#[derive(Clone, Copy, PartialEq, Eq, Debug, Structural)]
pub struct Rgb {
    pub r: u8,
    pub g: u8,
    pub b: u8,
}

/// The colour of new annotations: one of five presets or a colour picked on
/// the colour wheel.
#[derive(Clone, Copy, PartialEq, Eq, Debug, Structural)]
pub enum LineColor {
    Red,
    Yellow,
    Green,
    Blue,
    White,
    Custom(Rgb),
}

/// The number of preset colours on the toolbar and in the colour picker.
pub const PRESET_COUNT: usize = 5;

/// The preset colours in toolbar order.
pub open spec fn spec_preset(i: int) -> LineColor {
    if i == 0 {
        LineColor::Red
    } else if i == 1 {
        LineColor::Yellow
    } else if i == 2 {
        LineColor::Green
    } else if i == 3 {
        LineColor::Blue
    } else {
        LineColor::White
    }
}

/// The `i`-th preset colour in toolbar order: red, yellow, green, blue, white.
pub fn preset_color(i: usize) -> (c: LineColor)
    requires
        i < PRESET_COUNT,
    ensures
        c == spec_preset(i as int),
{
    if i == 0 {
        LineColor::Red
    } else if i == 1 {
        LineColor::Yellow
    } else if i == 2 {
        LineColor::Green
    } else if i == 3 {
        LineColor::Blue
    } else {
        LineColor::White
    }
}

impl LineColor {
    pub open spec fn spec_rgb(self) -> Rgb {
        match self {
            LineColor::Red => Rgb { r: 255, g: 59, b: 48 },
            LineColor::Yellow => Rgb { r: 255, g: 204, b: 0 },
            LineColor::Green => Rgb { r: 52, g: 199, b: 89 },
            LineColor::Blue => Rgb { r: 0, g: 122, b: 255 },
            LineColor::White => Rgb { r: 255, g: 255, b: 255 },
            LineColor::Custom(c) => c,
        }
    }

    /// The colour's channels: the preset's fixed value, or the picked colour.
    pub fn to_rgb(self) -> (c: Rgb)
        ensures
            c == self.spec_rgb(),
    {
        match self {
            LineColor::Red => Rgb { r: 255, g: 59, b: 48 },
            LineColor::Yellow => Rgb { r: 255, g: 204, b: 0 },
            LineColor::Green => Rgb { r: 52, g: 199, b: 89 },
            LineColor::Blue => Rgb { r: 0, g: 122, b: 255 },
            LineColor::White => Rgb { r: 255, g: 255, b: 255 },
            LineColor::Custom(c) => c,
        }
    }
}

} // verus!
