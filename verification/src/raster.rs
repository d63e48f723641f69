use vstd::prelude::*;

use crate::style::Rgb;

verus! {

/// An RGBA raster held in an `image::RgbaImage`; its pixels are reached only
/// through the trusted wrappers below.
#[verifier::external_body]
pub struct Image {
    img: image::RgbaImage,
}

/// An RGBA pixel as four channel values: red, green, blue, alpha.
pub type Px = (u8, u8, u8, u8);

/// The pixels an `image::RgbaImage` holds, keyed by `(x, y)`.
pub uninterp spec fn image_pixels(img: Image) -> Map<(u32, u32), Px>;

/// The width and height an `image::RgbaImage` was made with.
pub uninterp spec fn image_dims(img: Image) -> (u32, u32);

/// Every pixel position of a `w` by `h` image.
pub open spec fn pixel_grid(w: u32, h: u32) -> Set<(u32, u32)> {
    Set::new(|p: (u32, u32)| p.0 < w && p.1 < h)
}

/// The byte offset of pixel `(x, y)` in a row-major RGBA buffer of width `w`.
pub open spec fn raw_offset(w: int, x: int, y: int) -> int {
    (y * w + x) * 4
}

/// Pixel `(x, y)` of a row-major RGBA byte buffer of width `w`.
pub open spec fn raw_px(data: Seq<u8>, w: int, x: int, y: int) -> Px {
    let i = raw_offset(w, x, y);
    (data[i], data[i + 1], data[i + 2], data[i + 3])
}

/// `ImageBuffer::from_raw`: wraps a row-major RGBA buffer as a `w` by `h`
/// image when the buffer holds at least `4 * w * h` bytes, and returns `None`
/// otherwise. Pixel `(x, y)` is the four bytes at offset `(y * w + x) * 4`.
#[verifier::external_body]
fn image_from_raw(w: u32, h: u32, buf: Vec<u8>) -> (r: Option<Image>)
    ensures
        r is Some <==> 4 * (w as int) * (h as int) <= buf@.len(),
        r matches Some(img) ==> image_dims(img) == (w, h),
        r matches Some(img) ==> image_pixels(img).dom() == pixel_grid(w, h),
        r matches Some(img) ==> forall|x: u32, y: u32|
            x < w && y < h ==> #[trigger] image_pixels(img)[(x, y)] == raw_px(buf@, w as int, x as int, y as int),
{
    image::RgbaImage::from_raw(w, h, buf).map(|img| Image { img })
}

/// `ImageBuffer::width`: the width the image was made with.
#[verifier::external_body]
fn image_width(img: &Image) -> (r: u32)
    ensures
        r == image_dims(*img).0,
{
    img.img.width()
}

/// `ImageBuffer::height`: the height the image was made with.
#[verifier::external_body]
fn image_height(img: &Image) -> (r: u32)
    ensures
        r == image_dims(*img).1,
{
    img.img.height()
}

/// `ImageBuffer::get_pixel`: the pixel at `(x, y)`; it panics outside the
/// image, which `requires` rules out.
#[verifier::external_body]
fn image_get_pixel(img: &Image, x: u32, y: u32) -> (r: Px)
    requires
        x < image_dims(*img).0,
        y < image_dims(*img).1,
    ensures
        r == image_pixels(*img)[(x, y)],
{
    let p = img.img.get_pixel(x, y);
    (p.0[0], p.0[1], p.0[2], p.0[3])
}

/// `ImageBuffer::put_pixel`: overwrites the pixel at `(x, y)` and nothing
/// else; it panics outside the image, which `requires` rules out.
#[verifier::external_body]
fn image_put_pixel(img: &mut Image, x: u32, y: u32, p: Px)
    requires
        x < image_dims(*old(img)).0,
        y < image_dims(*old(img)).1,
    ensures
        image_dims(*final(img)) == image_dims(*old(img)),
        image_pixels(*final(img)) == image_pixels(*old(img)).insert((x, y), p),
{
    img.img.put_pixel(x, y, image::Rgba([p.0, p.1, p.2, p.3]))
}

/// `ImageBuffer::into_raw`: the row-major RGBA buffer the image holds; it
/// is at least `4 * width * height` bytes long and pixel `(x, y)` is the four
/// bytes at offset `(y * width + x) * 4`.
#[verifier::external_body]
fn image_into_raw(img: Image) -> (r: Vec<u8>)
    ensures
        r@.len() >= 4 * (image_dims(img).0 as int) * (image_dims(img).1 as int),
        forall|x: u32, y: u32|
            x < image_dims(img).0 && y < image_dims(img).1 ==> raw_px(r@, image_dims(img).0 as int, x as int, y as int)
                == #[trigger] image_pixels(img)[(x, y)],
{
    img.img.into_raw()
}

/// A fully opaque pixel of colour `c`.
pub open spec fn opaque(c: Rgb) -> Px {
    (c.r, c.g, c.b, 255u8)
}

/// Pixel `(x, y)` of a `w` by `h` grid lies before byte `4 * w * h` of a
/// row-major RGBA buffer.
pub proof fn lemma_offset_in_grid(w: int, h: int, x: int, y: int)
    requires
        0 <= x < w,
        0 <= y < h,
    ensures
        0 <= raw_offset(w, x, y),
        raw_offset(w, x, y) + 4 <= 4 * w * h,
{
    assert(0 <= y * w) by (nonlinear_arith)
        requires
            0 <= y,
            0 <= w,
    ;
    assert(y * w + x + 1 <= w * h) by (nonlinear_arith)
        requires
            0 <= x < w,
            0 <= y < h,
    ;
    assert((y * w + x) * 4 + 4 <= 4 * w * h) by (nonlinear_arith)
        requires
            y * w + x + 1 <= w * h,
    ;
}

impl Image {
    pub open spec fn width_spec(&self) -> u32 {
        image_dims(*self).0
    }

    pub open spec fn height_spec(&self) -> u32 {
        image_dims(*self).1
    }

    pub open spec fn px(&self, x: int, y: int) -> Px {
        image_pixels(*self)[(x as u32, y as u32)]
    }

    /// The image width in pixels.
    pub fn width(&self) -> (r: u32)
        ensures
            r == self.width_spec(),
    {
        image_width(self)
    }

    /// The image height in pixels.
    pub fn height(&self) -> (r: u32)
        ensures
            r == self.height_spec(),
    {
        image_height(self)
    }

    /// The pixel at `(x, y)`.
    pub fn pixel(&self, x: u32, y: u32) -> (p: Px)
        requires
            x < self.width_spec(),
            y < self.height_spec(),
        ensures
            p == self.px(x as int, y as int),
    {
        image_get_pixel(self, x, y)
    }

    /// Overwrites the pixel at `(x, y)`; every other pixel and the size stay.
    pub fn set_pixel(&mut self, x: u32, y: u32, p: Px)
        requires
            x < old(self).width_spec(),
            y < old(self).height_spec(),
        ensures
            image_dims(*final(self)) == image_dims(*old(self)),
            image_pixels(*final(self)) == image_pixels(*old(self)).insert((x, y), p),
    {
        image_put_pixel(self, x, y, p)
    }

    /// The image as a row-major RGBA byte buffer.
    pub fn into_raw(self) -> (r: Vec<u8>)
        ensures
            r@.len() >= 4 * (self.width_spec() as int) * (self.height_spec() as int),
            forall|x: u32, y: u32|
                x < self.width_spec() && y < self.height_spec() ==> raw_px(r@, self.width_spec() as int, x as int, y as int)
                    == #[trigger] image_pixels(self)[(x, y)],
    {
        image_into_raw(self)
    }
}

/// A fully transparent black `w` by `h` image; `4 * w * h` must fit `u32`,
/// the type the size is computed in.
pub fn blank_image(w: u32, h: u32) -> (img: Image)
    requires
        4 * (w as int) * (h as int) <= u32::MAX,
    ensures
        image_dims(img) == (w, h),
        forall|x: u32, y: u32| x < w && y < h ==> #[trigger] image_pixels(img)[(x, y)] == (0u8, 0u8, 0u8, 0u8),
{
    assert(w as int * h as int * 4 == 4 * (w as int) * (h as int)) by (nonlinear_arith);
    let n: u32 = w * h * 4;
    let buf: Vec<u8> = vec![0u8; n as usize];
    assert(forall|i: int| 0 <= i < buf@.len() ==> buf@[i] == 0u8);
    let ghost data = buf@;
    let img = image_from_raw(w, h, buf).unwrap();
    assert forall|x: u32, y: u32| x < w && y < h implies #[trigger] image_pixels(img)[(x, y)] == (0u8, 0u8, 0u8, 0u8) by {
        lemma_offset_in_grid(w as int, h as int, x as int, y as int);
    }
    img
}

/// Byte `k` of row `rr` of a crop equals the matching byte of the source
/// buffer.
pub open spec fn crop_byte_matches(
    out: Seq<u8>,
    src: Seq<u8>,
    src_w: int,
    sx: int,
    sy: int,
    sw: int,
    rr: int,
    k: int,
) -> bool {
    out[rr * sw * 4 + k] == src[((sy + rr) * src_w + sx) * 4 + k]
}

/// The byte offset just past the last row of a crop, in the source buffer.
pub open spec fn crop_source_end(src_w: int, sx: int, sy: int, sw: int, sh: int) -> int {
    ((sy + sh - 1) * src_w + sx) * 4 + 4 * sw
}

/// Copies the `sw` by `sh` rectangle whose top-left pixel is `(sx, sy)` out
/// of a row-major RGBA screenshot `src_w` pixels wide.
pub fn crop_screenshot(screenshot: &Vec<u8>, src_w: u32, sx: u32, sy: u32, sw: u32, sh: u32) -> (img: Image)
    requires
        4 * (sw as int) * (sh as int) <= u32::MAX,
        sy as int + sh as int <= u32::MAX,
        sh > 0 ==> (sy as int + sh as int - 1) * src_w as int + sx as int <= u32::MAX,
        sh > 0 ==> crop_source_end(src_w as int, sx as int, sy as int, sw as int, sh as int) <= screenshot@.len(),
    ensures
        image_dims(img) == (sw, sh),
        forall|x: u32, y: u32|
            x < sw && y < sh ==> #[trigger] image_pixels(img)[(x, y)] == raw_px(
                screenshot@,
                src_w as int,
                sx as int + x as int,
                sy as int + y as int,
            ),
{
    assert(sw as int * sh as int * 4 == 4 * (sw as int) * (sh as int)) by (nonlinear_arith);
    let cap: u32 = sw * sh * 4;
    let mut pixels: Vec<u8> = Vec::with_capacity(cap as usize);
    let total: usize = screenshot.len();
    let mut r: u32 = 0;
    while r < sh
        invariant
            r <= sh,
            total == screenshot@.len(),
            4 * (sw as int) * (sh as int) <= u32::MAX,
            sy as int + sh as int <= u32::MAX,
            sh > 0 ==> (sy as int + sh as int - 1) * src_w as int + sx as int <= u32::MAX,
            sh > 0 ==> crop_source_end(src_w as int, sx as int, sy as int, sw as int, sh as int) <= screenshot@.len(),
            pixels@.len() == r * sw * 4,
            forall|rr: int, k: int|
                0 <= rr < r && 0 <= k < 4 * sw ==> #[trigger] crop_byte_matches(
                    pixels@,
                    screenshot@,
                    src_w as int,
                    sx as int,
                    sy as int,
                    sw as int,
                    rr,
                    k,
                ),
        decreases sh - r,
    {
        assert(4 * (sw as int) <= 4 * (sw as int) * (sh as int)) by (nonlinear_arith)
            requires
                sh >= 1,
        ;
        let row_bytes: usize = (sw * 4) as usize;
        let row: u32 = sy + r;
        assert(row as int * src_w as int + sx as int <= (sy as int + sh as int - 1) * src_w as int + sx as int)
            by (nonlinear_arith)
            requires
                row <= sy + sh - 1,
        ;
        let base: u32 = row * src_w + sx;
        assert((base as int) * 4 + 4 * sw <= crop_source_end(src_w as int, sx as int, sy as int, sw as int, sh as int));
        assert(base as int * 4 + row_bytes as int <= total);
        let start: usize = base as usize * 4;
        let ghost before = pixels@;
        let mut k: usize = 0;
        while k < row_bytes
            invariant
                k <= row_bytes,
                row_bytes == 4 * sw,
                start as int == (base as int) * 4,
                base as int == (sy as int + r as int) * src_w as int + sx as int,
                start as int + row_bytes as int <= total,
                total == screenshot@.len(),
                pixels@.len() == before.len() + k,
                before.len() == r * sw * 4,
                forall|i: int| 0 <= i < before.len() ==> pixels@[i] == before[i],
                forall|j: int| before.len() <= j < before.len() + k ==> #[trigger] pixels@[j] == screenshot@[start + (j - before.len())],
            decreases row_bytes - k,
        {
            pixels.push(screenshot[start + k]);
            k = k + 1;
        }
        assert forall|rr: int, kk: int|
            0 <= rr < r + 1 && 0 <= kk < 4 * sw implies #[trigger] crop_byte_matches(
                pixels@,
                screenshot@,
                src_w as int,
                sx as int,
                sy as int,
                sw as int,
                rr,
                kk,
            ) by {
            if rr < r {
                assert(crop_byte_matches(before, screenshot@, src_w as int, sx as int, sy as int, sw as int, rr, kk));
                assert(rr * sw * 4 + kk < r * sw * 4) by (nonlinear_arith)
                    requires
                        0 <= rr < r,
                        0 <= kk < 4 * sw,
                ;
            } else {
                assert(rr * sw * 4 == before.len());
            }
        }
        assert(pixels@.len() == (r + 1) * sw * 4) by (nonlinear_arith)
            requires
                pixels@.len() == r * sw * 4 + 4 * sw,
        ;
        r = r + 1;
    }
    assert(pixels@.len() == 4 * (sw as int) * (sh as int)) by (nonlinear_arith)
        requires
            pixels@.len() == sh * sw * 4,
    ;
    let ghost data = pixels@;
    let img = image_from_raw(sw, sh, pixels).unwrap();
    assert forall|x: u32, y: u32| x < sw && y < sh implies #[trigger] image_pixels(img)[(x, y)] == raw_px(
        screenshot@,
        src_w as int,
        sx as int + x as int,
        sy as int + y as int,
    ) by {
        lemma_offset_in_grid(sw as int, sh as int, x as int, y as int);
        let o = raw_offset(sw as int, x as int, y as int);
        assert(o == y * sw * 4 + x * 4) by (nonlinear_arith)
            requires
                o == (y * sw + x) * 4,
        ;
        assert(raw_offset(src_w as int, sx + x, sy + y) == ((sy + y) * src_w + sx) * 4 + x * 4) by (nonlinear_arith);
        assert(crop_byte_matches(data, screenshot@, src_w as int, sx as int, sy as int, sw as int, y as int, x * 4));
        assert(crop_byte_matches(data, screenshot@, src_w as int, sx as int, sy as int, sw as int, y as int, x * 4 + 1));
        assert(crop_byte_matches(data, screenshot@, src_w as int, sx as int, sy as int, sw as int, y as int, x * 4 + 2));
        assert(crop_byte_matches(data, screenshot@, src_w as int, sx as int, sy as int, sw as int, y as int, x * 4 + 3));
    }
    img
}

/// A rectangle edge coordinate as drawn: negatives become 0 and values past
/// the last pixel become the last pixel.
pub open spec fn edge_coord(v: i32, size: u32) -> int {
    let v0: int = if v < 0 { 0 } else { v as int };
    if v0 < size as int - 1 { v0 } else { size as int - 1 }
}

/// `v` lies within `hw` of `c`.
pub open spec fn near(v: int, c: int, hw: int) -> bool {
    c - hw <= v <= c + hw
}

/// `v - c` lies in `[-hw, d)`: the band around `c` covered once the offsets
/// below `d` are drawn.
pub open spec fn near_upto(v: int, c: int, hw: int, d: int) -> bool {
    -hw <= v - c < d
}

/// Point `(x, y)` is covered by the outline of the rectangle `(x0, y0)`-`(x1, y1)`
/// drawn with half-width `hw`, once the offsets below `d` are drawn.
pub open spec fn outline_upto(x: int, y: int, x0: int, y0: int, x1: int, y1: int, hw: int, d: int) -> bool {
    ||| (x0 - hw <= x <= x1 + hw && (near_upto(y, y0, hw, d) || near_upto(y, y1, hw, d)))
    ||| (y0 - hw <= y <= y1 + hw && (near_upto(x, x0, hw, d) || near_upto(x, x1, hw, d)))
}

/// Point `(x, y)` is covered by the outline of the rectangle `(x0, y0)`-`(x1, y1)`
/// drawn with half-width `hw`.
pub open spec fn in_outline(x: int, y: int, x0: int, y0: int, x1: int, y1: int, hw: int) -> bool {
    ||| (x0 - hw <= x <= x1 + hw && (near(y, y0, hw) || near(y, y1, hw)))
    ||| (y0 - hw <= y <= y1 + hw && (near(x, x0, hw) || near(x, x1, hw)))
}

/// Draws the outline of a rectangle: bands `hw` pixels either side of each
/// edge, clipped to the image. The edges are first clamped into the image.
pub fn outline_rect(img: &mut Image, rx0: i32, ry0: i32, rx1: i32, ry1: i32, hw: i32, color: Rgb)
    requires
        0 <= hw,
        old(img).width_spec() as int + hw < i32::MAX,
        old(img).height_spec() as int + hw < i32::MAX,
    ensures
        image_dims(*final(img)) == image_dims(*old(img)),
        forall|x: u32, y: u32|
            x < old(img).width_spec() && y < old(img).height_spec() ==> #[trigger] image_pixels(*final(img))[(x, y)] == if in_outline(
                x as int,
                y as int,
                edge_coord(rx0, old(img).width_spec()),
                edge_coord(ry0, old(img).height_spec()),
                edge_coord(rx1, old(img).width_spec()),
                edge_coord(ry1, old(img).height_spec()),
                hw as int,
            ) {
                opaque(color)
            } else {
                image_pixels(*old(img))[(x, y)]
            },
{
    let ghost m0 = image_pixels(*img);
    let w = img.width();
    let h = img.height();
    let wi = w as i32;
    let hi = h as i32;
    let x0 = (if rx0 < 0 { 0 } else { rx0 }).min(wi - 1);
    let y0 = (if ry0 < 0 { 0 } else { ry0 }).min(hi - 1);
    let x1 = (if rx1 < 0 { 0 } else { rx1 }).min(wi - 1);
    let y1 = (if ry1 < 0 { 0 } else { ry1 }).min(hi - 1);
    assert(x0 == edge_coord(rx0, w) && x1 == edge_coord(rx1, w));
    assert(y0 == edge_coord(ry0, h) && y1 == edge_coord(ry1, h));
    let c = (color.r, color.g, color.b, 255u8);
    let mut dy: i32 = -hw;
    while dy <= hw
        invariant
            -hw <= dy <= hw + 1,
            0 <= hw,
            w as int + hw < i32::MAX,
            h as int + hw < i32::MAX,
            wi == w,
            hi == h,
            -1 <= x0 < w,
            -1 <= x1 < w,
            -1 <= y0 < h,
            -1 <= y1 < h,
            c == opaque(color),
            image_dims(*img) == (w, h),
            forall|x: u32, y: u32|
                x < w && y < h ==> (#[trigger] image_pixels(*img)[(x, y)] == m0[(x, y)] || (image_pixels(*img)[(x, y)]
                    == c && in_outline(x as int, y as int, x0 as int, y0 as int, x1 as int, y1 as int, hw as int))),
            forall|x: u32, y: u32|
                x < w && y < h && outline_upto(x as int, y as int, x0 as int, y0 as int, x1 as int, y1 as int, hw as int, dy as int)
                    ==> #[trigger] image_pixels(*img)[(x, y)] == c,
        decreases hw + 1 - dy,
    {
        let mut x: i32 = x0 - hw;
        while x <= x1 + hw
            invariant
                -hw <= dy <= hw,
                0 <= hw,
                w as int + hw < i32::MAX,
                h as int + hw < i32::MAX,
                wi == w,
                hi == h,
                -1 <= x0 < w,
                -1 <= x1 < w,
                -1 <= y0 < h,
                -1 <= y1 < h,
                x0 - hw <= x <= x1 + hw + 1 || (x == x0 - hw),
                c == opaque(color),
                image_dims(*img) == (w, h),
                forall|xx: u32, yy: u32|
                    xx < w && yy < h ==> (#[trigger] image_pixels(*img)[(xx, yy)] == m0[(xx, yy)] || (image_pixels(*img)[(xx, yy)]
                        == c && in_outline(xx as int, yy as int, x0 as int, y0 as int, x1 as int, y1 as int, hw as int))),
                forall|xx: u32, yy: u32|
                    xx < w && yy < h && outline_upto(xx as int, yy as int, x0 as int, y0 as int, x1 as int, y1 as int, hw as int, dy as int)
                        ==> #[trigger] image_pixels(*img)[(xx, yy)] == c,
                forall|xx: u32, yy: u32|
                    xx < w && yy < h && x0 - hw <= xx < x && (yy == y0 + dy || yy == y1 + dy)
                        ==> #[trigger] image_pixels(*img)[(xx, yy)] == c,
            decreases x1 + hw + 1 - x,
        {
            if x >= 0 && x < wi {
                let top = y0 + dy;
                let bot = y1 + dy;
                if top >= 0 && top < hi {
                    img.set_pixel(x as u32, top as u32, c);
                }
                if bot >= 0 && bot < hi {
                    img.set_pixel(x as u32, bot as u32, c);
                }
            }
            x = x + 1;
        }
        let mut y: i32 = y0 - hw;
        while y <= y1 + hw
            invariant
                -hw <= dy <= hw,
                0 <= hw,
                w as int + hw < i32::MAX,
                h as int + hw < i32::MAX,
                wi == w,
                hi == h,
                -1 <= x0 < w,
                -1 <= x1 < w,
                -1 <= y0 < h,
                -1 <= y1 < h,
                y0 - hw <= y <= y1 + hw + 1 || (y == y0 - hw),
                c == opaque(color),
                image_dims(*img) == (w, h),
                forall|xx: u32, yy: u32|
                    xx < w && yy < h ==> (#[trigger] image_pixels(*img)[(xx, yy)] == m0[(xx, yy)] || (image_pixels(*img)[(xx, yy)]
                        == c && in_outline(xx as int, yy as int, x0 as int, y0 as int, x1 as int, y1 as int, hw as int))),
                forall|xx: u32, yy: u32|
                    xx < w && yy < h && outline_upto(xx as int, yy as int, x0 as int, y0 as int, x1 as int, y1 as int, hw as int, dy as int)
                        ==> #[trigger] image_pixels(*img)[(xx, yy)] == c,
                forall|xx: u32, yy: u32|
                    xx < w && yy < h && x0 - hw <= xx <= x1 + hw && (yy == y0 + dy || yy == y1 + dy)
                        ==> #[trigger] image_pixels(*img)[(xx, yy)] == c,
                forall|xx: u32, yy: u32|
                    xx < w && yy < h && y0 - hw <= yy < y && (xx == x0 + dy || xx == x1 + dy)
                        ==> #[trigger] image_pixels(*img)[(xx, yy)] == c,
            decreases y1 + hw + 1 - y,
        {
            if y >= 0 && y < hi {
                let left = x0 + dy;
                let right = x1 + dy;
                if left >= 0 && left < wi {
                    img.set_pixel(left as u32, y as u32, c);
                }
                if right >= 0 && right < wi {
                    img.set_pixel(right as u32, y as u32, c);
                }
            }
            y = y + 1;
        }
        dy = dy + 1;
    }
}

/// Covered by a span of half-width `hw` centred on `(cx, cy)`: vertical
/// spans cover `cy - hw ..= cy + hw` in column `cx`, horizontal spans cover
/// `cx - hw ..= cx + hw` in row `cy`.
pub open spec fn in_span(x: int, y: int, cx: int, cy: int, hw: int, vertical: bool) -> bool {
    if vertical {
        x == cx && near(y, cy, hw)
    } else {
        y == cy && near(x, cx, hw)
    }
}

/// Paints one cross-section of a thick line: `2 * hw + 1` pixels centred on
/// `(cx, cy)`, vertical or horizontal, clipped to the image.
pub fn stamp_span(img: &mut Image, cx: i32, cy: i32, hw: i32, vertical: bool, color: Rgb)
    requires
        0 <= hw < i32::MAX,
        i32::MIN <= cx - hw,
        cx + hw < i32::MAX,
        i32::MIN <= cy - hw,
        cy + hw < i32::MAX,
        old(img).width_spec() <= i32::MAX,
        old(img).height_spec() <= i32::MAX,
    ensures
        image_dims(*final(img)) == image_dims(*old(img)),
        forall|x: u32, y: u32|
            x < old(img).width_spec() && y < old(img).height_spec() ==> #[trigger] image_pixels(*final(img))[(x, y)] == if in_span(
                x as int,
                y as int,
                cx as int,
                cy as int,
                hw as int,
                vertical,
            ) {
                opaque(color)
            } else {
                image_pixels(*old(img))[(x, y)]
            },
{
    let ghost m0 = image_pixels(*img);
    let w = img.width();
    let h = img.height();
    let wi = w as i32;
    let hi = h as i32;
    let c = (color.r, color.g, color.b, 255u8);
    let mut d: i32 = -hw;
    while d <= hw
        invariant
            -hw <= d <= hw + 1,
            0 <= hw < i32::MAX,
            i32::MIN <= cx - hw,
            cx + hw < i32::MAX,
            i32::MIN <= cy - hw,
            cy + hw < i32::MAX,
            wi == w,
            hi == h,
            c == opaque(color),
            image_dims(*img) == (w, h),
            forall|x: u32, y: u32|
                x < w && y < h ==> #[trigger] image_pixels(*img)[(x, y)] == if in_span(
                    x as int,
                    y as int,
                    cx as int,
                    cy as int,
                    hw as int,
                    vertical,
                ) && (if vertical { y - cy < d } else { x - cx < d }) {
                    c
                } else {
                    m0[(x, y)]
                },
        decreases hw + 1 - d,
    {
        let (px, py) = if vertical { (cx, cy + d) } else { (cx + d, cy) };
        if px >= 0 && px < wi && py >= 0 && py < hi {
            img.set_pixel(px as u32, py as u32, c);
        }
        d = d + 1;
    }
}

/// Channel `c` (0 red, 1 green, 2 blue) of a pixel.
pub open spec fn channel(p: Px, c: int) -> int {
    if c == 0 {
        p.0 as int
    } else if c == 1 {
        p.1 as int
    } else {
        p.2 as int
    }
}

/// The sum of channel `c` over pixels `xa ..< xb` of row `y`.
pub open spec fn row_sum(m: Map<(u32, u32), Px>, c: int, y: int, xa: int, xb: int) -> int
    decreases xb - xa,
{
    if xb <= xa {
        0
    } else {
        row_sum(m, c, y, xa, xb - 1) + channel(m[((xb - 1) as u32, y as u32)], c)
    }
}

/// The sum of channel `c` over the rectangle `xa ..< xb` by `ya ..< yb`.
pub open spec fn rect_sum(m: Map<(u32, u32), Px>, c: int, xa: int, xb: int, ya: int, yb: int) -> int
    decreases yb - ya,
{
    if yb <= ya {
        0
    } else {
        rect_sum(m, c, xa, xb, ya, yb - 1) + row_sum(m, c, yb - 1, xa, xb)
    }
}

/// The start of the mosaic block holding coordinate `v`, blocks being `bs`
/// wide and laid from `origin`.
pub open spec fn block_start(v: int, origin: int, bs: int) -> int {
    origin + ((v - origin) / bs) * bs
}

/// The end (exclusive) of the mosaic block holding `v`: one block on, or the
/// region's end `limit` if that comes first.
pub open spec fn block_end(v: int, origin: int, bs: int, limit: int) -> int {
    let e = block_start(v, origin, bs) + bs;
    if e < limit {
        e
    } else {
        limit
    }
}

/// The pixel at `(x, y)` after pixelating the region `x0 ..< x1` by
/// `y0 ..< y1` of `m` with `bs`-pixel blocks: inside the region, the
/// channel-wise integer mean of the original block, fully opaque; outside it,
/// the original pixel.
pub open spec fn mosaic_px(m: Map<(u32, u32), Px>, x0: int, y0: int, x1: int, y1: int, bs: int, x: int, y: int) -> Px {
    if x0 <= x < x1 && y0 <= y < y1 {
        let bx = block_start(x, x0, bs);
        let ex = block_end(x, x0, bs, x1);
        let by = block_start(y, y0, bs);
        let ey = block_end(y, y0, bs, y1);
        let n = (ey - by) * (ex - bx);
        (
            (rect_sum(m, 0, bx, ex, by, ey) / n) as u8,
            (rect_sum(m, 1, bx, ex, by, ey) / n) as u8,
            (rect_sum(m, 2, bx, ex, by, ey) / n) as u8,
            255u8,
        )
    } else {
        m[(x as u32, y as u32)]
    }
}

proof fn lemma_block_start(v: int, origin: int, bs: int, k: int)
    requires
        bs > 0,
        k >= 0,
        origin + k * bs <= v < origin + k * bs + bs,
    ensures
        block_start(v, origin, bs) == origin + k * bs,
{
    vstd::arithmetic::div_mod::lemma_fundamental_div_mod_converse(v - origin, bs, k, v - origin - k * bs);
}

/// Pixelates (mosaics) a region: the region `rx0 ..< rx1` by `ry0 ..< ry1`,
/// clamped to the image, is cut into `bs`-pixel blocks from its top-left
/// corner (`bs` is `block_size`, at least 2) and every pixel of a block
/// becomes the block's mean colour, fully opaque.
pub fn pixelate(img: &mut Image, rx0: u32, ry0: u32, rx1: u32, ry1: u32, block_size: u32)
    requires
        old(img).width_spec() as int + (if block_size < 2 { 2 } else { block_size as int }) <= u32::MAX + 1,
        old(img).height_spec() as int + (if block_size < 2 { 2 } else { block_size as int }) <= u32::MAX + 1,
        255 * (old(img).width_spec() as int) * (old(img).height_spec() as int) <= u64::MAX,
    ensures
        image_dims(*final(img)) == image_dims(*old(img)),
        forall|x: u32, y: u32|
            x < old(img).width_spec() && y < old(img).height_spec() ==> #[trigger] image_pixels(*final(img))[(x, y)]
                == mosaic_px(
                image_pixels(*old(img)),
                if rx0 < old(img).width_spec() { rx0 as int } else { old(img).width_spec() as int },
                if ry0 < old(img).height_spec() { ry0 as int } else { old(img).height_spec() as int },
                if rx1 < old(img).width_spec() { rx1 as int } else { old(img).width_spec() as int },
                if ry1 < old(img).height_spec() { ry1 as int } else { old(img).height_spec() as int },
                if block_size < 2 { 2 } else { block_size as int },
                x as int,
                y as int,
            ),
{
    let ghost m0 = image_pixels(*img);
    let w = img.width();
    let h = img.height();
    let x0 = rx0.min(w);
    let y0 = ry0.min(h);
    let x1 = rx1.min(w);
    let y1 = ry1.min(h);
    let bs = block_size.max(2);
    let mut by: u32 = y0;
    let ghost mut ky: int = 0;
    while by < y1
        invariant
            x0 <= w,
            y0 <= h,
            x1 <= w,
            y1 <= h,
            bs >= 2,
            w as int + bs as int <= u32::MAX + 1,
            h as int + bs as int <= u32::MAX + 1,
            255 * (w as int) * (h as int) <= u64::MAX,
            image_dims(*img) == (w, h),
            y0 <= by,
            by >= y1 || (ky >= 0 && by == y0 + ky * bs),
            forall|x: u32, y: u32|
                x < w && y < h ==> #[trigger] image_pixels(*img)[(x, y)] == if y < by {
                    mosaic_px(m0, x0 as int, y0 as int, x1 as int, y1 as int, bs as int, x as int, y as int)
                } else {
                    m0[(x, y)]
                },
        decreases y1 - by,
    {
        let ey = (by + bs).min(y1);
        let mut bx: u32 = x0;
        let ghost mut kx: int = 0;
        while bx < x1
            invariant
                x0 <= w,
                y0 <= h,
                x1 <= w,
                y1 <= h,
                bs >= 2,
                w as int + bs as int <= u32::MAX + 1,
                h as int + bs as int <= u32::MAX + 1,
                255 * (w as int) * (h as int) <= u64::MAX,
                image_dims(*img) == (w, h),
                y0 <= by < ey <= y1,
                ey == (if by + bs < y1 { by + bs } else { y1 as int }),
                ky >= 0 && by == y0 + ky * bs,
                x0 <= bx,
                bx >= x1 || (kx >= 0 && bx == x0 + kx * bs),
                forall|x: u32, y: u32|
                    x < w && y < h ==> #[trigger] image_pixels(*img)[(x, y)] == if y < by || (y < ey && x < bx) {
                        mosaic_px(m0, x0 as int, y0 as int, x1 as int, y1 as int, bs as int, x as int, y as int)
                    } else {
                        m0[(x, y)]
                    },
            decreases x1 - bx,
        {
            let ex = (bx + bs).min(x1);
            let mut sr: u64 = 0;
            let mut sg: u64 = 0;
            let mut sb: u64 = 0;
            let mut count: u64 = 0;
            let mut py: u32 = by;
            while py < ey
                invariant
                    by <= py <= ey,
                    bx < ex <= x1,
                    ey <= y1,
                    x1 <= w,
                    y1 <= h,
                    255 * (w as int) * (h as int) <= u64::MAX,
                    image_dims(*img) == (w, h),
                    forall|x: u32, y: u32|
                        x < w && y < h && by <= y < ey && bx <= x < ex ==> #[trigger] image_pixels(*img)[(x, y)] == m0[(x, y)],
                    count == (py - by) * (ex - bx),
                    sr == rect_sum(m0, 0, bx as int, ex as int, by as int, py as int),
                    sg == rect_sum(m0, 1, bx as int, ex as int, by as int, py as int),
                    sb == rect_sum(m0, 2, bx as int, ex as int, by as int, py as int),
                    sr <= 255 * count,
                    sg <= 255 * count,
                    sb <= 255 * count,
                decreases ey - py,
            {
                let mut px: u32 = bx;
                while px < ex
                    invariant
                        by <= py < ey,
                        bx <= px <= ex,
                        ex <= x1,
                        ey <= y1,
                        x1 <= w,
                        y1 <= h,
                        255 * (w as int) * (h as int) <= u64::MAX,
                        image_dims(*img) == (w, h),
                        forall|x: u32, y: u32|
                            x < w && y < h && by <= y < ey && bx <= x < ex ==> #[trigger] image_pixels(*img)[(x, y)] == m0[(x, y)],
                        count == (py - by) * (ex - bx) + (px - bx),
                        sr == rect_sum(m0, 0, bx as int, ex as int, by as int, py as int) + row_sum(m0, 0, py as int, bx as int, px as int),
                        sg == rect_sum(m0, 1, bx as int, ex as int, by as int, py as int) + row_sum(m0, 1, py as int, bx as int, px as int),
                        sb == rect_sum(m0, 2, bx as int, ex as int, by as int, py as int) + row_sum(m0, 2, py as int, bx as int, px as int),
                        sr <= 255 * count,
                        sg <= 255 * count,
                        sb <= 255 * count,
                    decreases ex - px,
                {
                    assert(count + 1 <= (w as int) * (h as int)) by (nonlinear_arith)
                        requires
                            count == (py - by) * (ex - bx) + (px - bx),
                            by <= py < ey <= h,
                            bx <= px < ex <= w,
                    ;
                    assert(255 * (count + 1) <= 255 * (w as int) * (h as int)) by (nonlinear_arith)
                        requires
                            count + 1 <= (w as int) * (h as int),
                    ;
                    let p = img.pixel(px, py);
                    sr = sr + p.0 as u64;
                    sg = sg + p.1 as u64;
                    sb = sb + p.2 as u64;
                    count = count + 1;
                    px = px + 1;
                }
                assert(count == (py + 1 - by) * (ex - bx)) by (nonlinear_arith)
                    requires
                        count == (py - by) * (ex - bx) + (ex - bx),
                ;
                py = py + 1;
            }
            assert(count > 0) by (nonlinear_arith)
                requires
                    count == (ey - by) * (ex - bx),
                    by < ey,
                    bx < ex,
            ;
            let ghost before_fill = image_pixels(*img);
            if count > 0 {
                let avg = ((sr / count) as u8, (sg / count) as u8, (sb / count) as u8, 255u8);
                let ghost mid = image_pixels(*img);
                let mut fy: u32 = by;
                while fy < ey
                    invariant
                        by <= fy <= ey,
                        bx < ex <= x1,
                        ey <= y1,
                        x1 <= w,
                        y1 <= h,
                        image_dims(*img) == (w, h),
                        forall|x: u32, y: u32|
                            x < w && y < h ==> #[trigger] image_pixels(*img)[(x, y)] == if by <= y < fy && bx <= x < ex {
                                avg
                            } else {
                                mid[(x, y)]
                            },
                    decreases ey - fy,
                {
                    let mut fx: u32 = bx;
                    while fx < ex
                        invariant
                            by <= fy < ey,
                            bx <= fx <= ex,
                            ex <= x1,
                            ey <= y1,
                            x1 <= w,
                            y1 <= h,
                            image_dims(*img) == (w, h),
                            forall|x: u32, y: u32|
                                x < w && y < h ==> #[trigger] image_pixels(*img)[(x, y)] == if (by <= y < fy && bx <= x < ex) || (
                                y == fy && bx <= x < fx) {
                                    avg
                                } else {
                                    mid[(x, y)]
                                },
                        decreases ex - fx,
                    {
                        img.set_pixel(fx, fy, avg);
                        fx = fx + 1;
                    }
                    fy = fy + 1;
                }
                assert forall|x: u32, y: u32| x < w && y < h && by <= y < ey && bx <= x < ex implies mosaic_px(
                    m0,
                    x0 as int,
                    y0 as int,
                    x1 as int,
                    y1 as int,
                    bs as int,
                    x as int,
                    y as int,
                ) == avg by {
                    lemma_block_start(x as int, x0 as int, bs as int, kx);
                    lemma_block_start(y as int, y0 as int, bs as int, ky);
                }
                assert forall|x: u32, y: u32| x < w && y < h implies #[trigger] image_pixels(*img)[(x, y)] == if y < by || (y
                    < ey && x < ex) {
                    mosaic_px(m0, x0 as int, y0 as int, x1 as int, y1 as int, bs as int, x as int, y as int)
                } else {
                    m0[(x, y)]
                } by {
                    assert(mid[(x, y)] == before_fill[(x, y)]);
                }
            }
            proof {
                if ex < x1 {
                    assert(x0 + (kx + 1) * bs == x0 + kx * bs + bs) by (nonlinear_arith);
                    kx = kx + 1;
                }
            }
            bx = ex;
        }
        proof {
            if ey < y1 {
                assert(y0 + (ky + 1) * bs == y0 + ky * bs + bs) by (nonlinear_arith);
                ky = ky + 1;
            }
        }
        by = ey;
    }
}

} // verus!
