use vstd::prelude::*;

use crate::style::{preset_color, spec_preset, FontSize, LineColor, Rgb, StrokeWidth, Tool};
use crate::text_input::{apply_text_events, frame_text_result, TextEv};

verus! {

/// What the tool is doing: choosing a region, adjusting it, or annotating it.
#[derive(Clone, Copy, PartialEq, Eq, Debug, Structural)]
pub enum AppState {
    Selecting,
    Adjusting,
    Canvas,
}

/// What a held-down pointer is dragging.
#[derive(Clone, Copy, PartialEq, Eq, Debug, Structural)]
pub enum DragMode {
    Idle,
    NewSelection,
    ResizeNW,
    ResizeNE,
    ResizeSW,
    ResizeSE,
    CanvasDraw,
}

/// Work requested during a frame and carried out at its end.
#[derive(Clone, Copy, PartialEq, Eq, Debug, Structural)]
pub enum PendingAction {
    SaveToFile,
    CopyToClipboard,
    Close,
}

/// A finished annotation. `P` is the point type and `R` the rectangle type
/// of the surrounding user interface; the editor only stores and returns
/// them.
#[derive(Clone, Debug)]
pub enum Annotation<P, R> {
    Rectangle { rect: R, color: Rgb, width: u32 },
    Ellipse { rect: R, color: Rgb, width: u32 },
    Arrow { start: P, end: P, color: Rgb, width: u32 },
    FreeDraw { points: Vec<P>, color: Rgb, width: u32 },
    Text { text: String, position: P, color: Rgb, size: u32, bold: bool, italic: bool, underline: bool },
    Mosaic { rect: R, block_size: u32 },
}

/// The mathematical value of an [`Annotation`]: point lists and texts as sequences.
pub enum AnnotationView<P, R> {
    Rectangle { rect: R, color: Rgb, width: u32 },
    Ellipse { rect: R, color: Rgb, width: u32 },
    Arrow { start: P, end: P, color: Rgb, width: u32 },
    FreeDraw { points: Seq<P>, color: Rgb, width: u32 },
    Text { text: Seq<char>, position: P, color: Rgb, size: u32, bold: bool, italic: bool, underline: bool },
    Mosaic { rect: R, block_size: u32 },
}

impl<P, R> View for Annotation<P, R> {
    type V = AnnotationView<P, R>;

    open spec fn view(&self) -> AnnotationView<P, R> {
        match self {
            Annotation::Rectangle { rect, color, width } => AnnotationView::Rectangle { rect: *rect, color: *color, width: *width },
            Annotation::Ellipse { rect, color, width } => AnnotationView::Ellipse { rect: *rect, color: *color, width: *width },
            Annotation::Arrow { start, end, color, width } => AnnotationView::Arrow {
                start: *start,
                end: *end,
                color: *color,
                width: *width,
            },
            Annotation::FreeDraw { points, color, width } => AnnotationView::FreeDraw {
                points: points@,
                color: *color,
                width: *width,
            },
            Annotation::Text { text, position, color, size, bold, italic, underline } => AnnotationView::Text {
                text: text@,
                position: *position,
                color: *color,
                size: *size,
                bold: *bold,
                italic: *italic,
                underline: *underline,
            },
            Annotation::Mosaic { rect, block_size } => AnnotationView::Mosaic { rect: *rect, block_size: *block_size },
        }
    }
}

pub open spec fn anns_view<P, R>(s: Seq<Annotation<P, R>>) -> Seq<AnnotationView<P, R>> {
    s.map_values(|a: Annotation<P, R>| a@)
}

/// `Vec::pop` on a sequence: the last element goes, if there is one.
pub open spec fn drop_last_if_any<A>(s: Seq<A>) -> Seq<A> {
    if s.len() > 0 {
        s.drop_last()
    } else {
        s
    }
}

proof fn lemma_anns_view_push<P, R>(s: Seq<Annotation<P, R>>, a: Annotation<P, R>)
    ensures
        anns_view(s.push(a)) == anns_view(s).push(a@),
{
    assert(anns_view(s.push(a)) =~= anns_view(s).push(a@));
}

proof fn lemma_anns_view_pop<P, R>(s: Seq<Annotation<P, R>>)
    ensures
        anns_view(drop_last_if_any(s)) == drop_last_if_any(anns_view(s)),
{
    assert(anns_view(drop_last_if_any(s)) =~= drop_last_if_any(anns_view(s)));
}

/// The editor: region selection, annotation tools and their settings, the
/// annotations made so far, and text entry in progress.
pub struct Editor<P, R> {
    pub selection: Option<R>,
    pub state: AppState,
    pub drag_mode: DragMode,
    pub drag_start: Option<P>,
    pub drag_current: Option<P>,
    pub current_tool: Tool,
    pub stroke_width: StrokeWidth,
    pub line_color: LineColor,
    pub font_size: FontSize,
    pub bold: bool,
    pub italic: bool,
    pub underline: bool,
    pub annotations: Vec<Annotation<P, R>>,
    pub brush_points: Vec<P>,
    pub text_input_active: bool,
    pub text_input_buffer: String,
    pub text_input_pos: Option<P>,
    pub ime_preedit: String,
    pub pending_action: Option<PendingAction>,
    pub exit_countdown: i32,
    pub show_color_picker: bool,
    pub show_size_picker: bool,
    pub ime_was_enabled: bool,
}

/// The mathematical value of an [`Editor`].
#[verifier::ext_equal]
pub struct EditorView<P, R> {
    pub selection: Option<R>,
    pub state: AppState,
    pub drag_mode: DragMode,
    pub drag_start: Option<P>,
    pub drag_current: Option<P>,
    pub current_tool: Tool,
    pub stroke_width: StrokeWidth,
    pub line_color: LineColor,
    pub font_size: FontSize,
    pub bold: bool,
    pub italic: bool,
    pub underline: bool,
    pub annotations: Seq<AnnotationView<P, R>>,
    pub brush_points: Seq<P>,
    pub text_input_active: bool,
    pub text_input_buffer: Seq<char>,
    pub text_input_pos: Option<P>,
    pub ime_preedit: Seq<char>,
    pub pending_action: Option<PendingAction>,
    pub exit_countdown: int,
    pub show_color_picker: bool,
    pub show_size_picker: bool,
    pub ime_was_enabled: bool,
}

impl<P, R> View for Editor<P, R> {
    type V = EditorView<P, R>;

    open spec fn view(&self) -> EditorView<P, R> {
        EditorView {
            selection: self.selection,
            state: self.state,
            drag_mode: self.drag_mode,
            drag_start: self.drag_start,
            drag_current: self.drag_current,
            current_tool: self.current_tool,
            stroke_width: self.stroke_width,
            line_color: self.line_color,
            font_size: self.font_size,
            bold: self.bold,
            italic: self.italic,
            underline: self.underline,
            annotations: anns_view(self.annotations@),
            brush_points: self.brush_points@,
            text_input_active: self.text_input_active,
            text_input_buffer: self.text_input_buffer@,
            text_input_pos: self.text_input_pos,
            ime_preedit: self.ime_preedit@,
            pending_action: self.pending_action,
            exit_countdown: self.exit_countdown as int,
            show_color_picker: self.show_color_picker,
            show_size_picker: self.show_size_picker,
            ime_was_enabled: self.ime_was_enabled,
        }
    }
}

/// The editor right after start-up: choosing a region, no tool, thin red
/// lines, medium text, nothing drawn.
pub open spec fn initial_view<P, R>() -> EditorView<P, R> {
    EditorView {
        selection: None,
        state: AppState::Selecting,
        drag_mode: DragMode::Idle,
        drag_start: None,
        drag_current: None,
        current_tool: Tool::NoTool,
        stroke_width: StrokeWidth::Thin,
        line_color: LineColor::Red,
        font_size: FontSize::Medium,
        bold: false,
        italic: false,
        underline: false,
        annotations: Seq::empty(),
        brush_points: Seq::empty(),
        text_input_active: false,
        text_input_buffer: Seq::empty(),
        text_input_pos: None,
        ime_preedit: Seq::empty(),
        pending_action: None,
        exit_countdown: 0,
        show_color_picker: false,
        show_size_picker: false,
        ime_was_enabled: false,
    }
}

/// The text annotation that text entry in `v` would produce.
pub open spec fn text_annotation<P, R>(v: EditorView<P, R>, position: P) -> AnnotationView<P, R> {
    AnnotationView::Text {
        text: v.text_input_buffer + v.ime_preedit,
        position,
        color: v.line_color.spec_rgb(),
        size: v.font_size.spec_value(),
        bold: v.bold,
        italic: v.italic,
        underline: v.underline,
    }
}

/// Ending text entry: the committed text together with any open composition
/// becomes a text annotation at the entry position (when both exist), and
/// entry is closed with empty buffers. Without active entry nothing changes.
pub open spec fn finish_text_spec<P, R>(v: EditorView<P, R>) -> EditorView<P, R> {
    if !v.text_input_active {
        v
    } else {
        let text = v.text_input_buffer + v.ime_preedit;
        EditorView {
            annotations: if text.len() > 0 && v.text_input_pos is Some {
                v.annotations.push(text_annotation(v, v.text_input_pos.unwrap()))
            } else {
                v.annotations
            },
            text_input_active: false,
            text_input_buffer: Seq::empty(),
            text_input_pos: None,
            ime_preedit: Seq::empty(),
            ..v
        }
    }
}

/// Abandoning text entry: nothing is saved and the buffers are emptied.
pub open spec fn cancel_text_spec<P, R>(v: EditorView<P, R>) -> EditorView<P, R> {
    EditorView {
        text_input_active: false,
        text_input_buffer: Seq::empty(),
        text_input_pos: None,
        ime_preedit: Seq::empty(),
        ..v
    }
}

pub open spec fn with_annotation<P, R>(v: EditorView<P, R>, a: AnnotationView<P, R>) -> EditorView<P, R> {
    EditorView { annotations: v.annotations.push(a), ..v }
}

/// The size tests a finished drag needs, which only the user interface can
/// make, with the rectangle it spans.
pub struct ReleaseGeometry<R> {
    /// The rectangle spanned by the drag's start and current points.
    pub span: R,
    /// The span is more than 2 pixels wide and more than 2 high.
    pub span_exceeds_two: bool,
    /// The span is more than 4 pixels wide and more than 4 high.
    pub span_exceeds_four: bool,
    /// The start and current points are more than 2 pixels apart.
    pub arrow_exceeds_two: bool,
    /// For a corner drag: the resized selection, and whether it is more than
    /// 4 pixels wide and more than 4 high.
    pub resized: Option<(R, bool)>,
}

/// Finishing a canvas drag with the current tool: shapes, arrows, strokes and
/// mosaics become annotations when large enough; the text tool opens text
/// entry at the drag's end. The brush trail is emptied afterwards. Without a
/// recorded drag nothing changes.
pub open spec fn canvas_draw_spec<P, R>(v: EditorView<P, R>, g: ReleaseGeometry<R>) -> EditorView<P, R> {
    match (v.drag_start, v.drag_current) {
        (Some(start), Some(end)) => EditorView { brush_points: Seq::empty(), ..tool_draw_spec(v, start, end, g) },
        _ => v,
    }
}

/// What the current tool makes of a drag from `start` to `end`.
pub open spec fn tool_draw_spec<P, R>(v: EditorView<P, R>, start: P, end: P, g: ReleaseGeometry<R>) -> EditorView<P, R> {
    let color = v.line_color.spec_rgb();
    let width = v.stroke_width.spec_value();
    match v.current_tool {
        Tool::Rectangle => if g.span_exceeds_two {
            with_annotation(v, AnnotationView::Rectangle { rect: g.span, color, width })
        } else {
            v
        },
        Tool::Ellipse => if g.span_exceeds_two {
            with_annotation(v, AnnotationView::Ellipse { rect: g.span, color, width })
        } else {
            v
        },
        Tool::Arrow => if g.arrow_exceeds_two {
            with_annotation(v, AnnotationView::Arrow { start, end, color, width })
        } else {
            v
        },
        Tool::Brush => if v.brush_points.len() >= 2 {
            with_annotation(v, AnnotationView::FreeDraw { points: v.brush_points, color, width })
        } else {
            v
        },
        Tool::Mosaic => if g.span_exceeds_four {
            with_annotation(v, AnnotationView::Mosaic { rect: g.span, block_size: 10 })
        } else {
            v
        },
        Tool::Text => EditorView {
            text_input_pos: Some(end),
            text_input_active: true,
            text_input_buffer: Seq::empty(),
            ime_preedit: Seq::empty(),
            ..v
        },
        Tool::NoTool => v,
    }
}

/// Where a click on the toolbar landed: the column in whole pixels from the
/// toolbar's left edge, and whether it was in the first row.
#[derive(Clone, Copy, PartialEq, Eq, Debug, Structural)]
pub struct ToolbarClick {
    pub col: i32,
    pub first_row: bool,
}

/// Left padding of the toolbar, in pixels.
pub const TB_PAD: i32 = 12;

/// Width of a toolbar button, in pixels.
pub const BTN_W: i32 = 28;

/// Distance from one toolbar button to the next, in pixels.
pub const BTN_PITCH: i32 = 34;

/// Offset of the divider between the tool buttons and the action buttons.
pub const DIVIDER_X: i32 = 250;

/// Offset of the first action button (undo, close, copy).
pub const ACTIONS_X: i32 = 258;

/// Offset of the first colour swatch in the second row.
pub const SWATCH_X: i32 = 122;

/// Distance from one colour swatch to the next, in pixels.
pub const SWATCH_PITCH: i32 = 24;

/// Width of a colour swatch, in pixels.
pub const SWATCH_W: i32 = 20;

/// Offset of toolbar button `i` from the toolbar's left edge.
pub open spec fn button_left(i: int) -> int {
    12 + 34 * i
}

/// Column `col` falls on the button that starts at `left` and is `width` wide.
pub open spec fn hits(col: int, left: int, width: int) -> bool {
    left <= col < left + width
}

/// Which of `n` evenly spaced buttons (the first at `first`, each `width`
/// wide, `pitch` apart) column `col` falls on, if any.
pub open spec fn grid_hit(col: int, first: int, pitch: int, width: int, n: int) -> Option<int> {
    if exists|i: int| 0 <= i < n && #[trigger] hits(col, first + pitch * i, width) {
        Some(choose|i: int| 0 <= i < n && #[trigger] hits(col, first + pitch * i, width))
    } else {
        None
    }
}

/// The tools in toolbar order.
pub open spec fn spec_toolbar_tool(i: int) -> Tool {
    if i == 0 {
        Tool::Rectangle
    } else if i == 1 {
        Tool::Ellipse
    } else if i == 2 {
        Tool::Arrow
    } else if i == 3 {
        Tool::Brush
    } else if i == 4 {
        Tool::Text
    } else {
        Tool::Mosaic
    }
}

/// The line widths in toolbar order.
pub open spec fn spec_toolbar_width(i: int) -> StrokeWidth {
    if i == 0 {
        StrokeWidth::Thin
    } else if i == 1 {
        StrokeWidth::Medium
    } else {
        StrokeWidth::Thick
    }
}

/// Tools whose second toolbar row offers line widths and colours.
pub open spec fn is_draw_tool(t: Tool) -> bool {
    t == Tool::Rectangle || t == Tool::Ellipse || t == Tool::Arrow || t == Tool::Brush
}

/// Choosing a tool: annotation starts (from region adjustment) and any text
/// entry is dropped.
pub open spec fn select_tool_spec<P, R>(v: EditorView<P, R>, t: Tool) -> EditorView<P, R> {
    EditorView {
        current_tool: t,
        state: if v.state == AppState::Adjusting { AppState::Canvas } else { v.state },
        text_input_active: false,
        text_input_buffer: Seq::empty(),
        ime_preedit: Seq::empty(),
        ..v
    }
}

/// A click on the toolbar's first row: tool buttons, save, then (past the
/// divider) undo, close and copy.
pub open spec fn toolbar_row1_spec<P, R>(v: EditorView<P, R>, col: int) -> EditorView<P, R> {
    if col < 250 {
        match grid_hit(col, 12, 34, 28, 6) {
            Some(i) => select_tool_spec(v, spec_toolbar_tool(i)),
            None => if hits(col, button_left(6), 28) {
                EditorView { pending_action: Some(PendingAction::SaveToFile), ..v }
            } else {
                v
            },
        }
    } else {
        match grid_hit(col, 258, 34, 28, 3) {
            Some(i) => if i == 0 {
                EditorView { annotations: drop_last_if_any(v.annotations), ..v }
            } else if i == 1 {
                EditorView { pending_action: Some(PendingAction::Close), ..v }
            } else {
                EditorView { pending_action: Some(PendingAction::CopyToClipboard), ..v }
            },
            None => v,
        }
    }
}

/// A click on the toolbar's second row: line widths and colours for drawing
/// tools; size menu, bold, italic, underline and colour menu for text.
pub open spec fn toolbar_row2_spec<P, R>(v: EditorView<P, R>, col: int) -> EditorView<P, R> {
    if is_draw_tool(v.current_tool) {
        draw_settings_spec(v, col)
    } else if v.current_tool == Tool::Text {
        text_settings_spec(v, col)
    } else {
        v
    }
}

/// The second toolbar row of a drawing tool: three line widths, then five
/// colour swatches.
pub open spec fn draw_settings_spec<P, R>(v: EditorView<P, R>, col: int) -> EditorView<P, R> {
    match grid_hit(col, 12, 34, 28, 3) {
        Some(i) => EditorView { stroke_width: spec_toolbar_width(i), ..v },
        None => match grid_hit(col, 122, 24, 20, 5) {
            Some(i) => EditorView { line_color: spec_preset(i), ..v },
            None => v,
        },
    }
}

/// The second toolbar row of the text tool: size menu, bold, italic,
/// underline, colour menu. Opening one menu closes the other.
pub open spec fn text_settings_spec<P, R>(v: EditorView<P, R>, col: int) -> EditorView<P, R> {
    if hits(col, button_left(0), 28) {
        EditorView { show_size_picker: !v.show_size_picker, show_color_picker: false, ..v }
    } else {
        match grid_hit(col, 46, 34, 28, 3) {
            Some(i) => if i == 0 {
                EditorView { bold: !v.bold, ..v }
            } else if i == 1 {
                EditorView { italic: !v.italic, ..v }
            } else {
                EditorView { underline: !v.underline, ..v }
            },
            None => if hits(col, button_left(4), 28) {
                EditorView { show_color_picker: !v.show_color_picker, show_size_picker: false, ..v }
            } else {
                v
            },
        }
    }
}

/// A click on the toolbar. The second row exists only once a tool is chosen.
pub open spec fn toolbar_spec<P, R>(v: EditorView<P, R>, click: ToolbarClick) -> EditorView<P, R> {
    if click.first_row || v.current_tool == Tool::NoTool {
        toolbar_row1_spec(v, click.col as int)
    } else {
        toolbar_row2_spec(v, click.col as int)
    }
}

/// The keyboard and text input of one frame.
pub struct FrameInput {
    /// Committed text and input-method events, in arrival order.
    pub text_events: Vec<TextEv>,
    /// Backspace was pressed.
    pub backspace: bool,
    /// Escape was pressed.
    pub escape: bool,
    /// Ctrl+Z was pressed.
    pub undo: bool,
    /// Enter was pressed.
    pub enter: bool,
}

/// The input method is wanted exactly while text is being entered on the canvas.
pub open spec fn ime_wanted<P, R>(v: EditorView<P, R>) -> bool {
    v.text_input_active && v.state == AppState::Canvas
}

/// Recording whether the input method is wanted.
pub open spec fn ime_spec<P, R>(v: EditorView<P, R>) -> EditorView<P, R> {
    EditorView { ime_was_enabled: ime_wanted(v), ..v }
}

/// A frame's text events reach the text buffers only while text entry is open.
pub open spec fn text_input_spec<P, R>(v: EditorView<P, R>, evs: Seq<TextEv>, backspace: bool) -> EditorView<P, R> {
    if v.text_input_active {
        let (b, p) = frame_text_result(evs, backspace, v.text_input_buffer, v.ime_preedit);
        EditorView { text_input_buffer: b, ime_preedit: p, ..v }
    } else {
        v
    }
}

/// Escape abandons text entry if it is open, and otherwise asks to close.
pub open spec fn escape_spec<P, R>(v: EditorView<P, R>) -> EditorView<P, R> {
    if v.text_input_active {
        cancel_text_spec(v)
    } else {
        EditorView { pending_action: Some(PendingAction::Close), ..v }
    }
}

/// Ctrl+Z removes the newest annotation while annotating.
pub open spec fn undo_key_spec<P, R>(v: EditorView<P, R>) -> EditorView<P, R> {
    if v.state == AppState::Canvas {
        EditorView { annotations: drop_last_if_any(v.annotations), ..v }
    } else {
        v
    }
}

/// Enter: while adjusting with a tool chosen it starts annotating; then, if
/// text is being entered on the canvas, it saves the text.
pub open spec fn enter_spec<P, R>(v: EditorView<P, R>) -> EditorView<P, R> {
    let v1 = if v.state == AppState::Adjusting && v.current_tool != Tool::NoTool {
        EditorView { state: AppState::Canvas, ..v }
    } else {
        v
    };
    if v1.state == AppState::Canvas && v1.text_input_active {
        finish_text_spec(v1)
    } else {
        v1
    }
}

/// One frame of keyboard and text input, in this order: input-method
/// bookkeeping, text events, Escape, Ctrl+Z, Enter. Text arriving in the
/// same frame as Enter is therefore part of the saved text.
pub open spec fn frame_input_spec<P, R>(v: EditorView<P, R>, input: FrameInput) -> EditorView<P, R> {
    let v1 = ime_spec(v);
    let v2 = text_input_spec(v1, input.text_events@, input.backspace);
    let v3 = if input.escape { escape_spec(v2) } else { v2 };
    let v4 = if input.undo { undo_key_spec(v3) } else { v3 };
    if input.enter { enter_spec(v4) } else { v4 }
}

/// What the user interface found under the pointer when the button went down.
pub struct PressHit {
    /// The pointer is inside the open font-size menu.
    pub in_size_picker: bool,
    /// The pointer is inside the open colour menu.
    pub in_color_picker: bool,
    /// The pointer is on the toolbar, at this column and row.
    pub toolbar: Option<ToolbarClick>,
    /// The selection corner handle under the pointer (`ResizeNW`, `ResizeNE`,
    /// `ResizeSW`, `ResizeSE`), or `Idle`.
    pub handle: DragMode,
    /// The pointer is inside the selection.
    pub in_selection: bool,
}

/// The primary button going down at `p`: an open menu is closed by a click
/// outside it (and swallows the click either way); toolbar clicks go to the
/// toolbar; otherwise a new drag starts according to the state.
pub open spec fn press_spec<P, R>(v: EditorView<P, R>, p: P, hit: PressHit) -> EditorView<P, R> {
    if v.show_size_picker {
        if hit.in_size_picker { v } else { EditorView { show_size_picker: false, ..v } }
    } else if v.show_color_picker {
        if hit.in_color_picker { v } else { EditorView { show_color_picker: false, ..v } }
    } else if hit.toolbar is Some {
        EditorView { drag_mode: DragMode::Idle, ..toolbar_spec(v, hit.toolbar.unwrap()) }
    } else {
        match v.state {
            AppState::Selecting => EditorView {
                drag_start: Some(p),
                drag_current: Some(p),
                drag_mode: DragMode::NewSelection,
                ..v
            },
            AppState::Adjusting => if hit.handle != DragMode::Idle {
                EditorView { drag_start: Some(p), drag_mode: hit.handle, ..v }
            } else if hit.in_selection {
                EditorView { drag_start: Some(p), drag_current: Some(p), drag_mode: DragMode::NewSelection, ..v }
            } else {
                v
            },
            AppState::Canvas => {
                let v1 = if v.current_tool == Tool::Text && v.text_input_active { finish_text_spec(v) } else { v };
                EditorView {
                    drag_start: Some(p),
                    drag_current: Some(p),
                    drag_mode: DragMode::CanvasDraw,
                    brush_points: seq![p],
                    ..v1
                }
            },
        }
    }
}

/// An open menu takes every press (closing itself when the press is outside
/// it), and the toolbar takes the presses on it.
pub open spec fn press_taken<P, R>(v: EditorView<P, R>, hit: PressHit) -> bool {
    v.show_size_picker || v.show_color_picker || hit.toolbar is Some
}

/// The pointer at `p` during a frame: a drag follows it, and a brush drag
/// records it.
pub open spec fn track_spec<P, R>(v: EditorView<P, R>, p: P) -> EditorView<P, R> {
    let v1 = if v.drag_mode != DragMode::Idle { EditorView { drag_current: Some(p), ..v } } else { v };
    if v1.drag_mode == DragMode::CanvasDraw && v1.current_tool == Tool::Brush {
        EditorView { brush_points: v1.brush_points.push(p), ..v1 }
    } else {
        v1
    }
}

pub open spec fn is_resize(m: DragMode) -> bool {
    m == DragMode::ResizeNW || m == DragMode::ResizeNE || m == DragMode::ResizeSW || m == DragMode::ResizeSE
}

/// The primary button coming up: a new selection is kept when more than 4
/// pixels wide and high (and adjustment starts), a corner drag resizes the
/// selection when the result is that large, a canvas drag finishes its
/// annotation. Then no drag is in progress.
pub open spec fn release_spec<P, R>(v: EditorView<P, R>, g: ReleaseGeometry<R>) -> EditorView<P, R> {
    EditorView { drag_start: None, drag_current: None, drag_mode: DragMode::Idle, ..release_effect_spec(v, g) }
}

/// What the finished drag does, before the drag itself is forgotten.
pub open spec fn release_effect_spec<P, R>(v: EditorView<P, R>, g: ReleaseGeometry<R>) -> EditorView<P, R> {
    let has_drag = v.drag_start is Some && v.drag_current is Some;
    if v.drag_mode == DragMode::NewSelection {
        if has_drag && g.span_exceeds_four {
            EditorView { selection: Some(g.span), state: AppState::Adjusting, ..v }
        } else {
            v
        }
    } else if is_resize(v.drag_mode) {
        if has_drag && v.selection is Some && g.resized is Some && g.resized.unwrap().1 {
            EditorView { selection: Some(g.resized.unwrap().0), ..v }
        } else {
            v
        }
    } else if v.drag_mode == DragMode::CanvasDraw {
        canvas_draw_spec(v, g)
    } else {
        v
    }
}

/// What the end of a frame asks of the user interface.
#[derive(Clone, Copy, PartialEq, Eq, Debug, Structural)]
pub struct FrameEffects {
    /// The exit countdown ran out: close the window.
    pub countdown_expired: bool,
    /// The action requested during the frame, now to be carried out.
    pub action: Option<PendingAction>,
}

/// The end of a frame: a running exit countdown goes down by one (and
/// expires at zero); a requested action is handed out, and saving or copying
/// starts a 30-frame countdown to exit.
pub open spec fn end_frame_spec<P, R>(v: EditorView<P, R>) -> (EditorView<P, R>, FrameEffects) {
    let counted = if v.exit_countdown > 0 { v.exit_countdown - 1 } else { v.exit_countdown };
    let expired = v.exit_countdown > 0 && counted == 0;
    let countdown = match v.pending_action {
        Some(PendingAction::SaveToFile) => 30,
        Some(PendingAction::CopyToClipboard) => 30,
        _ => counted,
    };
    (
        EditorView { exit_countdown: countdown, pending_action: None, ..v },
        FrameEffects { countdown_expired: expired, action: v.pending_action },
    )
}

/// The positions, in order, of the first `n` annotations that are mosaics
/// (`mosaic`) or that are not (`!mosaic`).
pub open spec fn indices_where<P, R>(anns: Seq<AnnotationView<P, R>>, mosaic: bool, n: int) -> Seq<usize>
    decreases n,
{
    if n <= 0 {
        Seq::empty()
    } else {
        let s = indices_where(anns, mosaic, n - 1);
        if (anns[n - 1] is Mosaic) == mosaic {
            s.push((n - 1) as usize)
        } else {
            s
        }
    }
}

/// The order in which annotations are painted onto the saved image: every
/// mosaic first, then everything else, each group in creation order.
pub open spec fn paint_order_spec<P, R>(anns: Seq<AnnotationView<P, R>>) -> Seq<usize> {
    indices_where(anns, true, anns.len() as int) + indices_where(anns, false, anns.len() as int)
}

fn collect_indices<P, R>(anns: &Vec<Annotation<P, R>>, mosaic: bool, out: &mut Vec<usize>)
    ensures
        final(out)@ == old(out)@ + indices_where(anns_view(anns@), mosaic, anns@.len() as int),
{
    let n = anns.len();
    let ghost start = out@;
    let mut i: usize = 0;
    while i < n
        invariant
            n == anns@.len(),
            i <= n,
            out@ == start + indices_where(anns_view(anns@), mosaic, i as int),
        decreases n - i,
    {
        let is_mosaic = match &anns[i] {
            Annotation::Mosaic { .. } => true,
            _ => false,
        };
        assert(anns_view(anns@)[i as int] == anns@[i as int]@);
        if is_mosaic == mosaic {
            out.push(i);
        }
        assert(out@ =~= start + indices_where(anns_view(anns@), mosaic, i + 1));
        i = i + 1;
    }
}

/// The positions of the annotations in painting order (see [`paint_order_spec`]).
pub fn paint_order<P, R>(anns: &Vec<Annotation<P, R>>) -> (order: Vec<usize>)
    ensures
        order@ == paint_order_spec(anns_view(anns@)),
{
    let mut order: Vec<usize> = Vec::new();
    collect_indices(anns, true, &mut order);
    collect_indices(anns, false, &mut order);
    assert(order@ =~= paint_order_spec(anns_view(anns@)));
    order
}

/// Offset of toolbar button `i` from the toolbar's left edge, in pixels.
pub fn tb_button_x(i: usize) -> (x: u128)
    ensures
        x == button_left(i as int),
{
    (TB_PAD as u128) + (i as u128) * (BTN_PITCH as u128)
}

pub(crate) proof fn lemma_grid_unique(col: int, first: int, pitch: int, width: int, i: int, j: int)
    requires
        0 < width <= pitch,
        hits(col, first + pitch * i, width),
        hits(col, first + pitch * j, width),
    ensures
        i == j,
{
    if i < j {
        assert(pitch * j >= pitch * i + pitch) by (nonlinear_arith)
            requires
                i < j,
                pitch > 0,
        ;
    } else if j < i {
        assert(pitch * i >= pitch * j + pitch) by (nonlinear_arith)
            requires
                j < i,
                pitch > 0,
        ;
    }
}

/// Which of `n` evenly spaced buttons column `col` falls on (see [`grid_hit`]).
pub fn find_button(col: i32, first: i32, pitch: i32, width: i32, n: i32) -> (r: Option<i32>)
    requires
        0 < width <= pitch,
        0 <= n,
        first as int + pitch as int * n as int <= i32::MAX,
        first >= 0,
    ensures
        r matches Some(i) ==> Some(i as int) == grid_hit(col as int, first as int, pitch as int, width as int, n as int),
        r is None ==> grid_hit(col as int, first as int, pitch as int, width as int, n as int) is None,
{
    let mut i: i32 = 0;
    let mut bx: i32 = first;
    while i < n
        invariant
            0 <= i <= n,
            0 < width <= pitch,
            first >= 0,
            first as int + pitch as int * n as int <= i32::MAX,
            bx == first + pitch * i,
            forall|j: int| 0 <= j < i ==> !#[trigger] hits(col as int, first + pitch * j, width as int),
        decreases n - i,
    {
        assert(first + pitch * (i + 1) <= first + pitch * n) by (nonlinear_arith)
            requires
                i < n,
                pitch > 0,
        ;
        assert(first + pitch * (i + 1) == first + pitch * i + pitch) by (nonlinear_arith);
        if col >= bx && col < bx + width {
            proof {
                let k = choose|k: int| 0 <= k < n && #[trigger] hits(col as int, first + pitch * k, width as int);
                assert(hits(col as int, first + pitch * i, width as int));
                lemma_grid_unique(col as int, first as int, pitch as int, width as int, i as int, k);
            }
            return Some(i);
        }
        bx = bx + pitch;
        i = i + 1;
    }
    None
}

fn toolbar_tool(i: i32) -> (t: Tool)
    ensures
        t == spec_toolbar_tool(i as int),
{
    if i == 0 {
        Tool::Rectangle
    } else if i == 1 {
        Tool::Ellipse
    } else if i == 2 {
        Tool::Arrow
    } else if i == 3 {
        Tool::Brush
    } else if i == 4 {
        Tool::Text
    } else {
        Tool::Mosaic
    }
}

fn toolbar_width(i: i32) -> (w: StrokeWidth)
    ensures
        w == spec_toolbar_width(i as int),
{
    if i == 0 {
        StrokeWidth::Thin
    } else if i == 1 {
        StrokeWidth::Medium
    } else {
        StrokeWidth::Thick
    }
}

impl<P: Copy, R: Copy> Editor<P, R> {
    /// The editor at start-up.
    pub fn new() -> (e: Self)
        ensures
            e@ == initial_view::<P, R>(),
    {
        let e = Editor {
            selection: None,
            state: AppState::Selecting,
            drag_mode: DragMode::Idle,
            drag_start: None,
            drag_current: None,
            current_tool: Tool::NoTool,
            stroke_width: StrokeWidth::Thin,
            line_color: LineColor::Red,
            font_size: FontSize::Medium,
            bold: false,
            italic: false,
            underline: false,
            annotations: Vec::new(),
            brush_points: Vec::new(),
            text_input_active: false,
            text_input_buffer: String::new(),
            text_input_pos: None,
            ime_preedit: String::new(),
            pending_action: None,
            exit_countdown: 0,
            show_color_picker: false,
            show_size_picker: false,
            ime_was_enabled: false,
        };
        assert(e@.annotations =~= Seq::<AnnotationView<P, R>>::empty());
        e
    }

    /// The toolbar has a second row (tool settings) once a tool is chosen.
    pub fn toolbar_has_row2(&self) -> (r: bool)
        ensures
            r == (self.current_tool != Tool::NoTool),
    {
        self.current_tool != Tool::NoTool
    }

    fn push_annotation(&mut self, a: Annotation<P, R>)
        ensures
            final(self)@ == with_annotation(old(self)@, a@),
    {
        proof {
            lemma_anns_view_push(self.annotations@, a);
        }
        self.annotations.push(a);
    }

    /// Removes the newest annotation, if there is one.
    pub fn undo(&mut self)
        ensures
            final(self)@ == (EditorView { annotations: drop_last_if_any(old(self)@.annotations), ..old(self)@ }),
    {
        proof {
            lemma_anns_view_pop(self.annotations@);
        }
        let _ = self.annotations.pop();
    }

    fn clear_text_buffers(&mut self)
        ensures
            final(self)@ == (EditorView {
                text_input_buffer: Seq::empty(),
                ime_preedit: Seq::empty(),
                ..old(self)@
            }),
    {
        self.text_input_buffer = String::new();
        self.ime_preedit = String::new();
    }

    fn absorb_preedit(&mut self)
        ensures
            final(self)@ == (EditorView {
                text_input_buffer: old(self)@.text_input_buffer + old(self)@.ime_preedit,
                ime_preedit: Seq::empty(),
                ..old(self)@
            }),
    {
        if !self.ime_preedit.as_str().is_empty() {
            self.text_input_buffer.append(self.ime_preedit.as_str());
            self.ime_preedit = String::new();
        }
        assert(self.text_input_buffer@ =~= old(self)@.text_input_buffer + old(self)@.ime_preedit);
        assert(self.ime_preedit@ =~= Seq::<char>::empty());
    }

    /// Ends text entry, saving the entered text (see [`finish_text_spec`]).
    pub fn finish_text_input(&mut self)
        ensures
            final(self)@ == finish_text_spec(old(self)@),
    {
        if !self.text_input_active {
            return;
        }
        let ghost v0 = self@;
        self.absorb_preedit();
        let ghost v1 = self@;
        let txt = self.text_input_buffer.clone();
        if !txt.as_str().is_empty() {
            if let Some(pos) = self.text_input_pos {
                let a = Annotation::Text {
                    text: txt,
                    position: pos,
                    color: self.line_color.to_rgb(),
                    size: self.font_size.value(),
                    bold: self.bold,
                    italic: self.italic,
                    underline: self.underline,
                };
                assert(a@ == text_annotation(v0, pos));
                self.push_annotation(a);
            }
        }
        let ghost v2 = self@;
        assert(v2.annotations == finish_text_spec(v0).annotations);
        self.cancel_text_input();
        assert(self@ =~= finish_text_spec(v0));
    }

    /// Abandons text entry without saving anything.
    pub fn cancel_text_input(&mut self)
        ensures
            final(self)@ == cancel_text_spec(old(self)@),
    {
        self.text_input_active = false;
        self.clear_text_buffers();
        self.text_input_pos = None;
    }

    fn copy_trail(&self) -> (r: Vec<P>)
        ensures
            r@ == self.brush_points@,
    {
        let mut copy: Vec<P> = Vec::new();
        let n = self.brush_points.len();
        let mut i: usize = 0;
        while i < n
            invariant
                n == self.brush_points@.len(),
                i <= n,
                copy@ == self.brush_points@.take(i as int),
            decreases n - i,
        {
            copy.push(self.brush_points[i]);
            proof {
                assert(copy@ =~= self.brush_points@.take(i + 1));
            }
            i = i + 1;
        }
        assert(copy@ =~= self.brush_points@);
        copy
    }

    fn draw_with_tool(&mut self, start: P, end: P, g: &ReleaseGeometry<R>)
        ensures
            final(self)@ == tool_draw_spec(old(self)@, start, end, *g),
    {
        let color = self.line_color.to_rgb();
        let width = self.stroke_width.value();
        match self.current_tool {
            Tool::Rectangle => {
                if g.span_exceeds_two {
                    self.push_annotation(Annotation::Rectangle { rect: g.span, color, width });
                }
            },
            Tool::Ellipse => {
                if g.span_exceeds_two {
                    self.push_annotation(Annotation::Ellipse { rect: g.span, color, width });
                }
            },
            Tool::Arrow => {
                if g.arrow_exceeds_two {
                    self.push_annotation(Annotation::Arrow { start, end, color, width });
                }
            },
            Tool::Brush => {
                if self.brush_points.len() >= 2 {
                    let points = self.copy_trail();
                    self.push_annotation(Annotation::FreeDraw { points, color, width });
                }
            },
            Tool::Mosaic => {
                if g.span_exceeds_four {
                    self.push_annotation(Annotation::Mosaic { rect: g.span, block_size: 10 });
                }
            },
            Tool::Text => {
                self.text_input_pos = Some(end);
                self.text_input_active = true;
                self.clear_text_buffers();
            },
            Tool::NoTool => {},
        }
    }

    /// Finishes a canvas drag (see [`canvas_draw_spec`]).
    pub fn finish_canvas_draw(&mut self, g: &ReleaseGeometry<R>)
        ensures
            final(self)@ == canvas_draw_spec(old(self)@, *g),
    {
        let start = match self.drag_start {
            Some(s) => s,
            None => return,
        };
        let end = match self.drag_current {
            Some(e) => e,
            None => return,
        };
        self.draw_with_tool(start, end, g);
        self.brush_points = Vec::new();
        assert(self@ =~= canvas_draw_spec(old(self)@, *g));
    }

    /// Chooses an annotation tool (see [`select_tool_spec`]).
    pub fn select_tool(&mut self, t: Tool)
        ensures
            final(self)@ == select_tool_spec(old(self)@, t),
    {
        self.current_tool = t;
        if self.state == AppState::Adjusting {
            self.state = AppState::Canvas;
        }
        self.text_input_active = false;
        self.clear_text_buffers();
    }

    fn toolbar_row1(&mut self, col: i32)
        ensures
            final(self)@ == toolbar_row1_spec(old(self)@, col as int),
    {
        if col < DIVIDER_X {
            match find_button(col, TB_PAD, BTN_PITCH, BTN_W, 6) {
                Some(i) => {
                    self.select_tool(toolbar_tool(i));
                    return;
                },
                None => {},
            }
            let save_bx = TB_PAD + BTN_PITCH * 6;
            if col >= save_bx && col < save_bx + BTN_W {
                self.pending_action = Some(PendingAction::SaveToFile);
            }
        } else {
            match find_button(col, ACTIONS_X, BTN_PITCH, BTN_W, 3) {
                Some(i) => {
                    if i == 0 {
                        self.undo();
                    } else if i == 1 {
                        self.pending_action = Some(PendingAction::Close);
                    } else {
                        self.pending_action = Some(PendingAction::CopyToClipboard);
                    }
                },
                None => {},
            }
        }
    }

    fn draw_settings(&mut self, col: i32)
        ensures
            final(self)@ == draw_settings_spec(old(self)@, col as int),
    {
        match find_button(col, TB_PAD, BTN_PITCH, BTN_W, 3) {
            Some(i) => {
                self.stroke_width = toolbar_width(i);
                return;
            },
            None => {},
        }
        match find_button(col, SWATCH_X, SWATCH_PITCH, SWATCH_W, 5) {
            Some(i) => {
                self.line_color = preset_color(i as usize);
            },
            None => {},
        }
    }

    fn text_settings(&mut self, col: i32)
        ensures
            final(self)@ == text_settings_spec(old(self)@, col as int),
    {
        if col >= TB_PAD && col < TB_PAD + BTN_W {
            self.show_size_picker = !self.show_size_picker;
            self.show_color_picker = false;
            return;
        }
        match find_button(col, TB_PAD + BTN_PITCH, BTN_PITCH, BTN_W, 3) {
            Some(i) => {
                if i == 0 {
                    self.bold = !self.bold;
                } else if i == 1 {
                    self.italic = !self.italic;
                } else {
                    self.underline = !self.underline;
                }
                return;
            },
            None => {},
        }
        let cp_bx = TB_PAD + BTN_PITCH * 4;
        if col >= cp_bx && col < cp_bx + BTN_W {
            self.show_color_picker = !self.show_color_picker;
            self.show_size_picker = false;
        }
    }

    fn toolbar_row2(&mut self, col: i32)
        ensures
            final(self)@ == toolbar_row2_spec(old(self)@, col as int),
    {
        let t = self.current_tool;
        if t == Tool::Rectangle || t == Tool::Ellipse || t == Tool::Arrow || t == Tool::Brush {
            self.draw_settings(col);
        } else if t == Tool::Text {
            self.text_settings(col);
        }
    }

    /// Handles a click on the toolbar (see [`toolbar_spec`]).
    pub fn handle_toolbar_click(&mut self, click: ToolbarClick)
        ensures
            final(self)@ == toolbar_spec(old(self)@, click),
    {
        if click.first_row || !self.toolbar_has_row2() {
            self.toolbar_row1(click.col);
        } else {
            self.toolbar_row2(click.col);
        }
    }

    /// Records whether the input method is wanted and returns it (see
    /// [`ime_wanted`]).
    pub fn ensure_ime(&mut self) -> (allowed: bool)
        ensures
            allowed == ime_wanted(old(self)@),
            final(self)@ == ime_spec(old(self)@),
    {
        let allowed = self.text_input_active && self.state == AppState::Canvas;
        if allowed {
            if !self.ime_was_enabled {
                self.ime_was_enabled = true;
            }
        } else if self.ime_was_enabled {
            self.ime_was_enabled = false;
        }
        allowed
    }

    /// Feeds a frame's text events to open text entry (see [`text_input_spec`]).
    pub fn handle_text_input(&mut self, events: &Vec<TextEv>, backspace: bool)
        ensures
            final(self)@ == text_input_spec(old(self)@, events@, backspace),
    {
        if !self.text_input_active {
            return;
        }
        apply_text_events(events, backspace, &mut self.text_input_buffer, &mut self.ime_preedit);
    }

    fn press_escape(&mut self)
        ensures
            final(self)@ == escape_spec(old(self)@),
    {
        if self.text_input_active {
            self.cancel_text_input();
        } else {
            self.pending_action = Some(PendingAction::Close);
        }
    }

    fn press_undo(&mut self)
        ensures
            final(self)@ == undo_key_spec(old(self)@),
    {
        if self.state == AppState::Canvas {
            self.undo();
        }
    }

    fn press_enter(&mut self)
        ensures
            final(self)@ == enter_spec(old(self)@),
    {
        if self.state == AppState::Adjusting && self.current_tool != Tool::NoTool {
            self.state = AppState::Canvas;
        }
        if self.state == AppState::Canvas && self.text_input_active {
            self.finish_text_input();
        }
    }

    /// Handles one frame of keyboard and text input (see
    /// [`frame_input_spec`]) and returns whether the input method is wanted.
    pub fn process_frame_input(&mut self, input: &FrameInput) -> (ime_allowed: bool)
        ensures
            ime_allowed == ime_wanted(old(self)@),
            final(self)@ == frame_input_spec(old(self)@, *input),
    {
        let allowed = self.ensure_ime();
        self.handle_text_input(&input.text_events, input.backspace);
        if input.escape {
            self.press_escape();
        }
        if input.undo {
            self.press_undo();
        }
        if input.enter {
            self.press_enter();
        }
        allowed
    }

    /// The primary button went down at `p` (see [`press_spec`]). Returns
    /// whether an open menu or the toolbar took the press (see
    /// [`press_taken`]), in which case nothing else happens to the pointer
    /// this frame.
    pub fn pointer_press(&mut self, p: P, hit: &PressHit) -> (taken: bool)
        ensures
            taken == press_taken(old(self)@, *hit),
            final(self)@ == press_spec(old(self)@, p, *hit),
    {
        if self.show_size_picker {
            if !hit.in_size_picker {
                self.show_size_picker = false;
            }
            return true;
        }
        if self.show_color_picker {
            if !hit.in_color_picker {
                self.show_color_picker = false;
            }
            return true;
        }
        if let Some(click) = hit.toolbar {
            self.handle_toolbar_click(click);
            self.drag_mode = DragMode::Idle;
            return true;
        }
        match self.state {
            AppState::Selecting => {
                self.drag_start = Some(p);
                self.drag_current = Some(p);
                self.drag_mode = DragMode::NewSelection;
            },
            AppState::Adjusting => {
                if hit.handle != DragMode::Idle {
                    self.drag_start = Some(p);
                    self.drag_mode = hit.handle;
                } else if hit.in_selection {
                    self.drag_start = Some(p);
                    self.drag_current = Some(p);
                    self.drag_mode = DragMode::NewSelection;
                }
            },
            AppState::Canvas => {
                if self.current_tool == Tool::Text && self.text_input_active {
                    self.finish_text_input();
                }
                self.drag_start = Some(p);
                self.drag_current = Some(p);
                self.drag_mode = DragMode::CanvasDraw;
                self.brush_points = Vec::new();
                self.brush_points.push(p);
                assert(self.brush_points@ =~= seq![p]);
            },
        }
        false
    }

    /// The pointer is at `p` this frame (see [`track_spec`]).
    pub fn pointer_track(&mut self, p: P)
        ensures
            final(self)@ == track_spec(old(self)@, p),
    {
        if self.drag_mode != DragMode::Idle {
            self.drag_current = Some(p);
        }
        if self.drag_mode == DragMode::CanvasDraw && self.current_tool == Tool::Brush {
            self.brush_points.push(p);
        }
    }

    fn release_effect(&mut self, g: &ReleaseGeometry<R>)
        ensures
            final(self)@ == release_effect_spec(old(self)@, *g),
    {
        let has_drag = self.drag_start.is_some() && self.drag_current.is_some();
        match self.drag_mode {
            DragMode::NewSelection => {
                if has_drag && g.span_exceeds_four {
                    self.selection = Some(g.span);
                    self.state = AppState::Adjusting;
                }
            },
            DragMode::ResizeNW | DragMode::ResizeNE | DragMode::ResizeSW | DragMode::ResizeSE => {
                if has_drag && self.selection.is_some() {
                    if let Some((r, big_enough)) = g.resized {
                        if big_enough {
                            self.selection = Some(r);
                        }
                    }
                }
            },
            DragMode::CanvasDraw => {
                self.finish_canvas_draw(g);
            },
            _ => {},
        }
    }

    /// The primary button came up (see [`release_spec`]).
    pub fn pointer_release(&mut self, g: &ReleaseGeometry<R>)
        ensures
            final(self)@ == release_spec(old(self)@, *g),
    {
        self.release_effect(g);
        self.drag_start = None;
        self.drag_current = None;
        self.drag_mode = DragMode::Idle;
    }

    /// Ends a frame (see [`end_frame_spec`]).
    pub fn end_frame(&mut self) -> (fx: FrameEffects)
        ensures
            (final(self)@, fx) == end_frame_spec(old(self)@),
    {
        let mut expired = false;
        if self.exit_countdown > 0 {
            self.exit_countdown = self.exit_countdown - 1;
            if self.exit_countdown == 0 {
                expired = true;
            }
        }
        let action = self.pending_action.take();
        match action {
            Some(PendingAction::SaveToFile) => {
                self.exit_countdown = 30;
            },
            Some(PendingAction::CopyToClipboard) => {
                self.exit_countdown = 30;
            },
            _ => {},
        }
        FrameEffects { countdown_expired: expired, action }
    }

    /// Picks a text size from the size menu, which then closes.
    pub fn choose_font_size(&mut self, fs: FontSize)
        ensures
            final(self)@ == (EditorView { font_size: fs, show_size_picker: false, ..old(self)@ }),
    {
        self.font_size = fs;
        self.show_size_picker = false;
    }

    /// Picks a colour in the colour menu, which stays open.
    pub fn choose_color(&mut self, c: LineColor)
        ensures
            final(self)@ == (EditorView { line_color: c, ..old(self)@ }),
    {
        self.line_color = c;
    }

    /// Closes the colour menu.
    pub fn close_color_picker(&mut self)
        ensures
            final(self)@ == (EditorView { show_color_picker: false, ..old(self)@ }),
    {
        self.show_color_picker = false;
    }
}

} // verus!
