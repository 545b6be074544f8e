//! A software framebuffer in BGRA byte order.
//!
//! The buffer holds `height` rows of `stride` bytes each; the first
//! `4 * width` bytes of a row are the pixels of that row, four bytes per
//! pixel (blue, green, red, alpha).  Every drawing operation is specified as
//! a per-pixel rewrite of the old buffer: bytes that belong to no pixel of
//! the screen (row padding) are never touched.
use vstd::prelude::*;
use vstd::arithmetic::div_mod::{lemma_fundamental_div_mod, lemma_fundamental_div_mod_converse};

verus! {

/// An RGBA color.
#[derive(Clone, Copy, Debug, PartialEq, Eq, Structural)]
pub struct Color {
    pub r: u8,
    pub g: u8,
    pub b: u8,
    pub a: u8,
}

impl Color {
    pub fn white() -> (c: Color)
        ensures
            c == (Color { r: 255, g: 255, b: 255, a: 255 }),
    {
        Color { r: 255, g: 255, b: 255, a: 255 }
    }

    pub fn black() -> (c: Color)
        ensures
            c == (Color { r: 0, g: 0, b: 0, a: 255 }),
    {
        Color { r: 0, g: 0, b: 0, a: 255 }
    }

    /// The border color of the selected tile.
    pub fn highlight() -> (c: Color)
        ensures
            c == (Color { r: 80, g: 160, b: 255, a: 255 }),
    {
        Color { r: 80, g: 160, b: 255, a: 255 }
    }

    /// The screen background.
    pub fn dark_bg() -> (c: Color)
        ensures
            c == (Color { r: 20, g: 20, b: 30, a: 255 }),
    {
        Color { r: 20, g: 20, b: 30, a: 255 }
    }
}

/// The byte that a pixel of color `c` holds in channel slot `k` (B, G, R, A).
pub open spec fn channel_byte(c: Color, k: int) -> u8 {
    if k == 0 {
        c.b
    } else if k == 1 {
        c.g
    } else if k == 2 {
        c.r
    } else {
        c.a
    }
}

/// Whether byte `i` of a buffer with the given geometry belongs to a pixel.
pub open spec fn byte_is_pixel(i: int, stride: int, width: int, height: int) -> bool {
    &&& stride > 0
    &&& 0 <= i
    &&& i % stride < 4 * width
    &&& i / stride < height
}

/// Rewrites every pixel byte `i` of `buf` with `f(px, py, k, buf[i])`, where
/// `(px, py)` is the pixel the byte belongs to and `k` its channel slot.
pub open spec fn remap(
    buf: Seq<u8>,
    stride: int,
    width: int,
    height: int,
    f: spec_fn(int, int, int, u8) -> u8,
) -> Seq<u8> {
    Seq::new(
        buf.len(),
        |i: int|
            if byte_is_pixel(i, stride, width, height) {
                f((i % stride) / 4, i / stride, (i % stride) % 4, buf[i])
            } else {
                buf[i]
            },
    )
}

/// The byte offset of the first channel of pixel `(x, y)`.
pub open spec fn pixel_offset(stride: int, x: int, y: int) -> int {
    y * stride + 4 * x
}

/// Position and coordinates of a byte agree: a byte belongs to pixel
/// `(x, y)` exactly when it lies in the four bytes at that pixel's offset.
proof fn lemma_pixel_byte(stride: int, width: int, height: int, x: int, y: int, i: int)
    requires
        0 <= x < width,
        0 <= y < height,
        4 * width <= stride,
        0 <= i,
    ensures
        (byte_is_pixel(i, stride, width, height) && (i % stride) / 4 == x && i / stride == y) <==> (
        pixel_offset(stride, x, y) <= i < pixel_offset(stride, x, y) + 4),
        pixel_offset(stride, x, y) <= i < pixel_offset(stride, x, y) + 4 ==> (i % stride) % 4 == i
            - pixel_offset(stride, x, y),
{
    lemma_fundamental_div_mod(i, stride);
    let off = pixel_offset(stride, x, y);
    let q = i / stride;
    let r = i % stride;
    assert(i == q * stride + r) by (nonlinear_arith)
        requires
            i == stride * q + r,
    ;
    if q == y {
        assert(i == y * stride + r);
    }
    if off <= i < off + 4 {
        lemma_fundamental_div_mod_converse(i, stride, y, i - y * stride);
    }
}

/// Applying two rewrites in turn is one rewrite by their composition.
pub proof fn lemma_remap_compose(
    buf: Seq<u8>,
    stride: int,
    width: int,
    height: int,
    f: spec_fn(int, int, int, u8) -> u8,
    g: spec_fn(int, int, int, u8) -> u8,
)
    ensures
        remap(remap(buf, stride, width, height, f), stride, width, height, g) == remap(
            buf,
            stride,
            width,
            height,
            |px: int, py: int, k: int, b: u8| g(px, py, k, f(px, py, k, b)),
        ),
{
    assert(remap(remap(buf, stride, width, height, f), stride, width, height, g) =~= remap(
        buf,
        stride,
        width,
        height,
        |px: int, py: int, k: int, b: u8| g(px, py, k, f(px, py, k, b)),
    ));
}

/// Two rewrites that agree on every on-screen pixel give the same buffer.
pub proof fn lemma_remap_ext(
    buf: Seq<u8>,
    stride: int,
    width: int,
    height: int,
    f: spec_fn(int, int, int, u8) -> u8,
    g: spec_fn(int, int, int, u8) -> u8,
)
    requires
        forall|px: int, py: int, k: int, b: u8|
            0 <= px < width && 0 <= py < height && 0 <= k < 4 ==> #[trigger] f(px, py, k, b) == g(
                px,
                py,
                k,
                b,
            ),
    ensures
        remap(buf, stride, width, height, f) == remap(buf, stride, width, height, g),
{
    assert forall|i: int| 0 <= i < buf.len() implies remap(buf, stride, width, height, f)[i]
        == remap(buf, stride, width, height, g)[i] by {
        if byte_is_pixel(i, stride, width, height) {
            let px = (i % stride) / 4;
            let py = i / stride;
            let k = (i % stride) % 4;
            assert(f(px, py, k, buf[i]) == g(px, py, k, buf[i]));
        }
    }
    assert(remap(buf, stride, width, height, f) =~= remap(buf, stride, width, height, g));
}

/// The rewrite that sets the single pixel `(x, y)` to `color`.
pub open spec fn paint_pixel(x: int, y: int, color: Color) -> spec_fn(int, int, int, u8) -> u8 {
    |px: int, py: int, k: int, b: u8|
        if px == x && py == y {
            channel_byte(color, k)
        } else {
            b
        }
}

/// The rewrite that sets every pixel of the rectangle `[x, x + w) x [y, y + h)` to `color`.
pub open spec fn paint_rect(x: int, y: int, w: int, h: int, color: Color) -> spec_fn(
    int,
    int,
    int,
    u8,
) -> u8 {
    |px: int, py: int, k: int, b: u8|
        if x <= px < x + w && y <= py < y + h {
            channel_byte(color, k)
        } else {
            b
        }
}

/// The rewrite that draws a border of thickness `t` inside the rectangle
/// `[x, x + w) x [y, y + h)` in `color`: the top and bottom bands of height
/// `t` and the left and right bands of width `t`.
pub open spec fn paint_frame(x: int, y: int, w: int, h: int, t: int, color: Color) -> spec_fn(
    int,
    int,
    int,
    u8,
) -> u8 {
    |px: int, py: int, k: int, b: u8|
        if (x <= px < x + w && y <= py < y + t) || (x <= px < x + w && y + h - t <= py < y + h)
            || (x <= px < x + t && y <= py < y + h) || (x + w - t <= px < x + w && y <= py < y
            + h) {
            channel_byte(color, k)
        } else {
            b
        }
}

/// A byte scaled by `factor / 255`, rounded down.
pub open spec fn dim_byte(b: u8, factor: int) -> u8 {
    ((b * factor) / 255) as u8
}

/// The rewrite that darkens the color channels (not alpha) of the
/// rectangle `[x, x + w) x [y, y + h)` by `factor / 255`.
pub open spec fn dim_region(x: int, y: int, w: int, h: int, factor: int) -> spec_fn(
    int,
    int,
    int,
    u8,
) -> u8 {
    |px: int, py: int, k: int, b: u8|
        if x <= px < x + w && y <= py < y + h && k < 3 {
            dim_byte(b, factor)
        } else {
            b
        }
}

/// Byte offset in an RGBA image of `iw` pixels per row of source pixel `(ix, iy)`.
pub open spec fn rgba_offset(iw: int, ix: int, iy: int) -> int {
    (iy * iw + ix) * 4
}

/// Whether source pixel `(ix, iy)` of an RGBA image is drawn by a blit:
/// its four bytes are present and its alpha is not zero.
pub open spec fn rgba_drawn(rgba: Seq<u8>, iw: int, ix: int, iy: int) -> bool {
    rgba_offset(iw, ix, iy) + 3 < rgba.len() && rgba[rgba_offset(iw, ix, iy) + 3] > 0
}

/// The color of source pixel `(ix, iy)` of an RGBA image.
pub open spec fn rgba_color(rgba: Seq<u8>, iw: int, ix: int, iy: int) -> Color {
    let s = rgba_offset(iw, ix, iy);
    Color { r: rgba[s], g: rgba[s + 1], b: rgba[s + 2], a: rgba[s + 3] }
}

/// The rewrite that draws the drawn pixels of an `iw x ih` RGBA image at `(x, y)`.
pub open spec fn paint_image(x: int, y: int, iw: int, ih: int, rgba: Seq<u8>) -> spec_fn(
    int,
    int,
    int,
    u8,
) -> u8 {
    |px: int, py: int, k: int, b: u8|
        if x <= px < x + iw && y <= py < y + ih && rgba_drawn(rgba, iw, px - x, py - y) {
            channel_byte(rgba_color(rgba, iw, px - x, py - y), k)
        } else {
            b
        }
}

/// Whether pixel `(gx, gy)` of a glyph's coverage bitmap (`gw` pixels per
/// row) is drawn: its coverage is above one half.
pub open spec fn glyph_covers(bitmap: Seq<u8>, gw: int, gx: int, gy: int) -> bool {
    bitmap[gy * gw + gx] > 128
}

/// The rewrite that plots the covered pixels of a `gw x gh` glyph bitmap
/// with its top left corner at `(x, y)` in `color`.
pub open spec fn paint_glyph(x: int, y: int, gw: int, gh: int, bitmap: Seq<u8>, color: Color) -> spec_fn(
    int,
    int,
    int,
    u8,
) -> u8 {
    |px: int, py: int, k: int, b: u8|
        if x <= px < x + gw && y <= py < y + gh && glyph_covers(bitmap, gw, px - x, py - y) {
            channel_byte(color, k)
        } else {
            b
        }
}

/// Whether every covered pixel of a glyph placed at `(x + ox, y + oy)`
/// has coordinates that fit in a `u32`.
pub open spec fn glyph_fits(
    x: u32,
    y: u32,
    ox: u32,
    oy: u32,
    gw: usize,
    gh: usize,
    bitmap: Seq<u8>,
) -> bool {
    forall|gx: int, gy: int|
        0 <= gx < gw && 0 <= gy < gh && #[trigger] glyph_covers(bitmap, gw as int, gx, gy) ==> x
            + ox + gx <= u32::MAX && y + oy + gy <= u32::MAX
}

/// Check that every covered pixel of a glyph placed at `(x + ox, y + oy)`
/// has coordinates that fit in a `u32` (where one does not, plotting it
/// would overflow).
pub fn glyph_in_range(
    x: u32,
    y: u32,
    ox: u32,
    oy: u32,
    gw: usize,
    gh: usize,
    bitmap: &[u8],
) -> (r: bool)
    requires
        gw * gh <= bitmap@.len(),
    ensures
        r == glyph_fits(x, y, ox, oy, gw, gh, bitmap@),
{
    let bx = x as u128 + ox as u128;
    let by = y as u128 + oy as u128;
    let n = bitmap.len();
    let mut gy: usize = 0;
    while gy < gh
        invariant
            gw * gh <= bitmap@.len(),
            n == bitmap@.len(),
            gy <= gh,
            bx == x + ox,
            by == y + oy,
            forall|gx: int, gy2: int|
                0 <= gx < gw && 0 <= gy2 < gy && #[trigger] glyph_covers(bitmap@, gw as int, gx, gy2)
                    ==> x + ox + gx <= u32::MAX && y + oy + gy2 <= u32::MAX,
        decreases gh - gy,
    {
        let mut gx: usize = 0;
        while gx < gw
            invariant
                gw * gh <= bitmap@.len(),
                n == bitmap@.len(),
                gy < gh,
                gx <= gw,
                bx == x + ox,
                by == y + oy,
                forall|gx2: int, gy2: int|
                    0 <= gx2 < gw && 0 <= gy2 < gy && #[trigger] glyph_covers(
                        bitmap@,
                        gw as int,
                        gx2,
                        gy2,
                    ) ==> x + ox + gx2 <= u32::MAX && y + oy + gy2 <= u32::MAX,
                forall|gx2: int|
                    0 <= gx2 < gx && #[trigger] glyph_covers(bitmap@, gw as int, gx2, gy as int)
                        ==> x + ox + gx2 <= u32::MAX && y + oy + gy <= u32::MAX,
            decreases gw - gx,
        {
            assert(gy * gw <= gy * gw + gx < gw * gh) by (nonlinear_arith)
                requires
                    gy < gh,
                    gx < gw,
            ;
            if bitmap[gy * gw + gx] > 128 {
                if bx + (gx as u128) > u32::MAX as u128 || by + (gy as u128) > u32::MAX as u128 {
                    assert(glyph_covers(bitmap@, gw as int, gx as int, gy as int));
                    return false;
                }
            }
            gx += 1;
        }
        gy += 1;
    }
    true
}

/// Whether a framebuffer device's mode can be drawn on: it has memory, four
/// bytes per pixel, rows that hold a full line of pixels, and a size whose
/// byte count fits in a `u32`.  Otherwise the launcher falls back to a mock
/// framebuffer.
///
/// A mode whose rows are shorter than a line of pixels (`line_length` under
/// `4 * xres`) is refused: in it the pixels at the end of one row share
/// their bytes with those at the start of the next, so what a drawing step
/// leaves behind depends on the order of every single pixel write, and no
/// drawing operation here could be stated as the rewrite of each pixel
/// that the rest of the library (the frame plan included) is built on.
pub open spec fn device_mode_usable(
    xres: u32,
    yres: u32,
    bits_per_pixel: u32,
    line_length: u32,
    smem_len: u32,
) -> bool {
    &&& smem_len != 0
    &&& bits_per_pixel / 8 == 4
    &&& 4 * xres <= line_length
    &&& line_length * yres <= u32::MAX
}

/// Decide whether a framebuffer device's reported mode can be used.
pub fn device_mode_ok(xres: u32, yres: u32, bits_per_pixel: u32, line_length: u32, smem_len: u32) -> (r: bool)
    ensures
        r == device_mode_usable(xres, yres, bits_per_pixel, line_length, smem_len),
{
    assert((line_length as u64) * (yres as u64) <= 0xffff_ffff_ffff_ffff) by (nonlinear_arith)
        requires
            line_length <= 0xffff_ffff,
            yres <= 0xffff_ffff,
    ;
    smem_len != 0 && bits_per_pixel / 8 == 4 && (xres as u64) * 4 <= line_length as u64
        && (line_length as u64) * (yres as u64) <= u32::MAX as u64
}

/// A software framebuffer: `height` rows of `stride` bytes, BGRA pixels.
pub struct Framebuffer {
    width: u32,
    height: u32,
    stride: u32,
    bpp: u32,
    pub buffer: Vec<u8>,
}

impl Framebuffer {
    /// Width in pixels.
    pub closed spec fn spec_width(&self) -> int {
        self.width as int
    }

    /// Height in pixels.
    pub closed spec fn spec_height(&self) -> int {
        self.height as int
    }

    /// Bytes per row.
    pub closed spec fn spec_stride(&self) -> int {
        self.stride as int
    }

    /// The contents of the buffer.
    pub closed spec fn bytes(&self) -> Seq<u8> {
        self.buffer@
    }

    /// The public `buffer`, whose contents are the `bytes` that the drawing
    /// contracts speak of.
    pub fn contents(&self) -> (b: &Vec<u8>)
        ensures
            b@ == self.bytes(),
    {
        &self.buffer
    }

    /// Bytes per pixel.
    pub closed spec fn spec_bpp(&self) -> int {
        self.bpp as int
    }

    /// Well-formedness: four bytes per pixel, every row holds its pixels,
    /// the buffer holds every row, and every offset fits in a `u32`.
    pub open spec fn wf(&self) -> bool {
        &&& self.spec_bpp() == 4
        &&& 4 * self.spec_width() <= self.spec_stride()
        &&& self.bytes().len() == self.spec_stride() * self.spec_height()
        &&& self.spec_stride() * self.spec_height() <= u32::MAX
    }

    /// Same width, height, stride and bytes per pixel.
    pub open spec fn same_geometry(&self, other: &Framebuffer) -> bool {
        &&& self.spec_width() == other.spec_width()
        &&& self.spec_height() == other.spec_height()
        &&& self.spec_stride() == other.spec_stride()
        &&& self.spec_bpp() == other.spec_bpp()
    }

    /// `buf` rewritten pixel by pixel with `f`, in this framebuffer's geometry.
    pub open spec fn remapped(&self, buf: Seq<u8>, f: spec_fn(int, int, int, u8) -> u8) -> Seq<
        u8,
    > {
        remap(buf, self.spec_stride(), self.spec_width(), self.spec_height(), f)
    }

    /// A framebuffer of the given geometry with every byte zero.
    pub fn with_geometry(width: u32, height: u32, stride: u32) -> (fb: Framebuffer)
        requires
            4 * width <= stride,
            stride * height <= u32::MAX,
        ensures
            fb.wf(),
            fb.spec_width() == width,
            fb.spec_height() == height,
            fb.spec_stride() == stride,
            forall|i: int| 0 <= i < fb.bytes().len() ==> fb.bytes()[i] == 0,
    {
        let len = (stride * height) as usize;
        let mut buffer: Vec<u8> = Vec::new();
        let mut i: usize = 0;
        while i < len
            invariant
                i <= len,
                buffer@.len() == i,
                forall|j: int| 0 <= j < i ==> buffer@[j] == 0,
            decreases len - i,
        {
            buffer.push(0u8);
            i += 1;
        }
        Framebuffer { width, height, stride, bpp: 4, buffer }
    }

    /// Create a mock framebuffer for testing: rows are exactly `4 * width` bytes.
    pub fn mock(width: u32, height: u32) -> (fb: Framebuffer)
        requires
            4 * width <= u32::MAX,
            4 * width * height <= u32::MAX,
        ensures
            fb.wf(),
            fb.spec_width() == width,
            fb.spec_height() == height,
            fb.spec_stride() == 4 * width,
            fb.bytes().len() == 4 * width * height,
            forall|i: int| 0 <= i < fb.bytes().len() ==> fb.bytes()[i] == 0,
    {
        let bpp: u32 = 4;
        let stride = width * bpp;
        Self::with_geometry(width, height, stride)
    }

    pub fn width(&self) -> (w: u32)
        ensures
            w == self.spec_width(),
    {
        self.width
    }

    pub fn height(&self) -> (h: u32)
        ensures
            h == self.spec_height(),
    {
        self.height
    }

    /// Set pixel `(x, y)` to `color`; a pixel off the screen leaves the buffer unchanged.
    pub fn set_pixel(&mut self, x: u32, y: u32, color: Color)
        requires
            old(self).wf(),
        ensures
            final(self).wf(),
            final(self).same_geometry(old(self)),
            final(self).bytes() == old(self).remapped(
                old(self).bytes(),
                paint_pixel(x as int, y as int, color),
            ),
    {
        let ghost stride = self.stride as int;
        let ghost width = self.width as int;
        let ghost height = self.height as int;
        let ghost old_buf = self.buffer@;
        if x >= self.width || y >= self.height {
            assert forall|i: int| 0 <= i < old_buf.len() implies old_buf[i] == self.remapped(
                old_buf,
                paint_pixel(x as int, y as int, color),
            )[i] by {
                if byte_is_pixel(i, stride, width, height) {
                    assert((i % stride) / 4 < width);
                }
            }
            assert(old_buf =~= self.remapped(old_buf, paint_pixel(x as int, y as int, color)));
            return ;
        }
        assert(y * stride + 4 * x + 3 < stride * height) by (nonlinear_arith)
            requires
                y < height,
                x < width,
                4 * width <= stride,
        ;
        let offset = (y * self.stride + x * self.bpp) as usize;
        if offset + 3 < self.buffer.len() {
            self.buffer.set(offset, color.b);
            self.buffer.set(offset + 1, color.g);
            self.buffer.set(offset + 2, color.r);
            self.buffer.set(offset + 3, color.a);
        }
        let ghost target = remap(
            old_buf,
            stride,
            width,
            height,
            paint_pixel(x as int, y as int, color),
        );
        assert forall|i: int| 0 <= i < old_buf.len() implies self.buffer@[i] == target[i] by {
            lemma_pixel_byte(stride, width, height, x as int, y as int, i);
        }
        assert(self.buffer@ =~= target);
    }

    /// Darken the color channels of pixel `(x, y)` by `factor / 255`.
    fn dim_pixel(&mut self, x: u32, y: u32, factor: u16)
        requires
            old(self).wf(),
            x < old(self).spec_width(),
            y < old(self).spec_height(),
            factor <= 255,
        ensures
            final(self).wf(),
            final(self).same_geometry(old(self)),
            final(self).bytes() == old(self).remapped(
                old(self).bytes(),
                dim_region(x as int, y as int, 1, 1, factor as int),
            ),
    {
        let ghost stride = self.stride as int;
        let ghost width = self.width as int;
        let ghost height = self.height as int;
        let ghost old_buf = self.buffer@;
        assert(y * stride + 4 * x + 3 < stride * height) by (nonlinear_arith)
            requires
                y < height,
                x < width,
                4 * width <= stride,
        ;
        let offset = (y * self.stride + x * self.bpp) as usize;
        if offset + 3 < self.buffer.len() {
            let b0 = self.buffer[offset];
            let b1 = self.buffer[offset + 1];
            let b2 = self.buffer[offset + 2];
            assert(b0 * factor <= 255 * 255 && b1 * factor <= 255 * 255 && b2 * factor <= 255
                * 255) by (nonlinear_arith)
                requires
                    b0 <= 255,
                    b1 <= 255,
                    b2 <= 255,
                    factor <= 255,
            ;
            self.buffer.set(offset, ((b0 as u16 * factor) / 255) as u8);
            self.buffer.set(offset + 1, ((b1 as u16 * factor) / 255) as u8);
            self.buffer.set(offset + 2, ((b2 as u16 * factor) / 255) as u8);
        }
        let ghost target = remap(
            old_buf,
            stride,
            width,
            height,
            dim_region(x as int, y as int, 1, 1, factor as int),
        );
        assert forall|i: int| 0 <= i < old_buf.len() implies self.buffer@[i] == target[i] by {
            lemma_pixel_byte(stride, width, height, x as int, y as int, i);
        }
        assert(self.buffer@ =~= target);
    }

    /// Fill the whole screen with `color`.
    pub fn clear(&mut self, color: Color)
        requires
            old(self).wf(),
        ensures
            final(self).wf(),
            final(self).same_geometry(old(self)),
            final(self).bytes() == old(self).remapped(
                old(self).bytes(),
                paint_rect(0, 0, old(self).spec_width(), old(self).spec_height(), color),
            ),
    {
        let w = self.width;
        let h = self.height;
        self.fill_rect(0, 0, w, h, color);
    }

    /// Fill the rectangle `[x, x + w) x [y, y + h)`, clipped to the screen, with `color`.
    pub fn fill_rect(&mut self, x: u32, y: u32, w: u32, h: u32, color: Color)
        requires
            old(self).wf(),
        ensures
            final(self).wf(),
            final(self).same_geometry(old(self)),
            final(self).bytes() == old(self).remapped(
                old(self).bytes(),
                paint_rect(x as int, y as int, w as int, h as int, color),
            ),
    {
        let ghost stride = self.stride as int;
        let ghost width = self.width as int;
        let ghost height = self.height as int;
        let ghost old_buf = self.buffer@;
        let ghost start = *self;
        let y_sat = y.saturating_add(h);
        let y_end = if y_sat < self.height {
            y_sat
        } else {
            self.height
        };
        let x_sat = x.saturating_add(w);
        let x_end = if x_sat < self.width {
            x_sat
        } else {
            self.width
        };
        let mut iy = y;
        assert(self.buffer@ == remap(
            old_buf,
            stride,
            width,
            height,
            paint_rect(x as int, y as int, x_end - x, 0, color),
        )) by {
            lemma_remap_ext(
                old_buf,
                stride,
                width,
                height,
                paint_rect(x as int, y as int, x_end - x, 0, color),
                |px: int, py: int, k: int, b: u8| b,
            );
            assert(old_buf =~= remap(
                old_buf,
                stride,
                width,
                height,
                |px: int, py: int, k: int, b: u8| b,
            ));
        }
        while iy < y_end
            invariant
                self.wf(),
                self.same_geometry(&start),
                stride == self.spec_stride(),
                width == self.spec_width(),
                height == self.spec_height(),
                y <= iy,
                iy <= y_end || iy == y,
                x_end <= width,
                y_end <= height,
                self.buffer@ == remap(
                    old_buf,
                    stride,
                    width,
                    height,
                    paint_rect(x as int, y as int, x_end - x, iy - y, color),
                ),
            decreases y_end - iy,
        {
            let mut ix = x;
            while ix < x_end
                invariant
                    self.wf(),
                    self.same_geometry(&start),
                    stride == self.spec_stride(),
                    width == self.spec_width(),
                    height == self.spec_height(),
                    y <= iy < y_end,
                    x <= ix,
                    ix <= x_end || ix == x,
                    x_end <= width,
                    y_end <= height,
                    self.buffer@ == remap(
                        old_buf,
                        stride,
                        width,
                        height,
                        |px: int, py: int, k: int, b: u8|
                            if (x <= px < x_end && y <= py < iy) || (py == iy && x <= px < ix) {
                                channel_byte(color, k)
                            } else {
                                b
                            },
                    ),
                decreases x_end - ix,
            {
                let ghost before = self.buffer@;
                self.set_pixel(ix, iy, color);
                proof {
                    let f = |px: int, py: int, k: int, b: u8|
                        if (x <= px < x_end && y <= py < iy) || (py == iy && x <= px < ix) {
                            channel_byte(color, k)
                        } else {
                            b
                        };
                    lemma_remap_compose(
                        old_buf,
                        stride,
                        width,
                        height,
                        f,
                        paint_pixel(ix as int, iy as int, color),
                    );
                    lemma_remap_ext(
                        old_buf,
                        stride,
                        width,
                        height,
                        |px: int, py: int, k: int, b: u8|
                            paint_pixel(ix as int, iy as int, color)(px, py, k, f(px, py, k, b)),
                        |px: int, py: int, k: int, b: u8|
                            if (x <= px < x_end && y <= py < iy) || (py == iy && x <= px < ix
                                + 1) {
                                channel_byte(color, k)
                            } else {
                                b
                            },
                    );
                }
                ix += 1;
            }
            proof {
                lemma_remap_ext(
                    old_buf,
                    stride,
                    width,
                    height,
                    |px: int, py: int, k: int, b: u8|
                        if (x <= px < x_end && y <= py < iy) || (py == iy && x <= px < ix) {
                            channel_byte(color, k)
                        } else {
                            b
                        },
                    paint_rect(x as int, y as int, x_end - x, iy + 1 - y, color),
                );
            }
            iy += 1;
        }
        proof {
            lemma_remap_ext(
                old_buf,
                stride,
                width,
                height,
                paint_rect(x as int, y as int, x_end - x, iy - y, color),
                paint_rect(x as int, y as int, w as int, h as int, color),
            );
        }
    }

    /// Dim the rectangle `[x, x + w) x [y, y + h)`, clipped to the screen,
    /// by blending its color channels toward black: each becomes
    /// `value * (255 - amount) / 255`; alpha is kept.
    pub fn dim_rect(&mut self, x: u32, y: u32, w: u32, h: u32, amount: u8)
        requires
            old(self).wf(),
        ensures
            final(self).wf(),
            final(self).same_geometry(old(self)),
            final(self).bytes() == old(self).remapped(
                old(self).bytes(),
                dim_region(x as int, y as int, w as int, h as int, 255 - amount),
            ),
    {
        let factor = (255 - amount) as u16;
        let ghost stride = self.stride as int;
        let ghost width = self.width as int;
        let ghost height = self.height as int;
        let ghost old_buf = self.buffer@;
        let ghost start = *self;
        let ghost fct = factor as int;
        let y_sat = y.saturating_add(h);
        let y_end = if y_sat < self.height {
            y_sat
        } else {
            self.height
        };
        let x_sat = x.saturating_add(w);
        let x_end = if x_sat < self.width {
            x_sat
        } else {
            self.width
        };
        let mut iy = y;
        assert(self.buffer@ == remap(
            old_buf,
            stride,
            width,
            height,
            dim_region(x as int, y as int, x_end - x, 0, fct),
        )) by {
            lemma_remap_ext(
                old_buf,
                stride,
                width,
                height,
                dim_region(x as int, y as int, x_end - x, 0, fct),
                |px: int, py: int, k: int, b: u8| b,
            );
            assert(old_buf =~= remap(
                old_buf,
                stride,
                width,
                height,
                |px: int, py: int, k: int, b: u8| b,
            ));
        }
        while iy < y_end
            invariant
                self.wf(),
                self.same_geometry(&start),
                stride == self.spec_stride(),
                width == self.spec_width(),
                height == self.spec_height(),
                y <= iy,
                iy <= y_end || iy == y,
                x_end <= width,
                y_end <= height,
                factor <= 255,
                fct == factor,
                self.buffer@ == remap(
                    old_buf,
                    stride,
                    width,
                    height,
                    dim_region(x as int, y as int, x_end - x, iy - y, fct),
                ),
            decreases y_end - iy,
        {
            let mut ix = x;
            while ix < x_end
                invariant
                    self.wf(),
                    self.same_geometry(&start),
                    stride == self.spec_stride(),
                    width == self.spec_width(),
                    height == self.spec_height(),
                    y <= iy < y_end,
                    x <= ix,
                    ix <= x_end || ix == x,
                    x_end <= width,
                    y_end <= height,
                    factor <= 255,
                    fct == factor,
                    self.buffer@ == remap(
                        old_buf,
                        stride,
                        width,
                        height,
                        |px: int, py: int, k: int, b: u8|
                            if ((x <= px < x_end && y <= py < iy) || (py == iy && x <= px < ix))
                                && k < 3 {
                                dim_byte(b, fct)
                            } else {
                                b
                            },
                    ),
                decreases x_end - ix,
            {
                self.dim_pixel(ix, iy, factor);
                proof {
                    let f = |px: int, py: int, k: int, b: u8|
                        if ((x <= px < x_end && y <= py < iy) || (py == iy && x <= px < ix)) && k
                            < 3 {
                            dim_byte(b, fct)
                        } else {
                            b
                        };
                    lemma_remap_compose(
                        old_buf,
                        stride,
                        width,
                        height,
                        f,
                        dim_region(ix as int, iy as int, 1, 1, fct),
                    );
                    lemma_remap_ext(
                        old_buf,
                        stride,
                        width,
                        height,
                        |px: int, py: int, k: int, b: u8|
                            dim_region(ix as int, iy as int, 1, 1, fct)(px, py, k, f(px, py, k, b)),
                        |px: int, py: int, k: int, b: u8|
                            if ((x <= px < x_end && y <= py < iy) || (py == iy && x <= px < ix
                                + 1)) && k < 3 {
                                dim_byte(b, fct)
                            } else {
                                b
                            },
                    );
                }
                ix += 1;
            }
            proof {
                lemma_remap_ext(
                    old_buf,
                    stride,
                    width,
                    height,
                    |px: int, py: int, k: int, b: u8|
                        if ((x <= px < x_end && y <= py < iy) || (py == iy && x <= px < ix)) && k
                            < 3 {
                            dim_byte(b, fct)
                        } else {
                            b
                        },
                    dim_region(x as int, y as int, x_end - x, iy + 1 - y, fct),
                );
            }
            iy += 1;
        }
        proof {
            lemma_remap_ext(
                old_buf,
                stride,
                width,
                height,
                dim_region(x as int, y as int, x_end - x, iy - y, fct),
                dim_region(x as int, y as int, w as int, h as int, 255 - amount),
            );
        }
    }

    /// Blit a pre-decoded `img_width x img_height` RGBA image (four bytes
    /// per pixel, rows without padding) with its top left corner at `(x, y)`.
    /// Source pixels whose four bytes are not all present, and fully
    /// transparent ones, are skipped; the others overwrite the screen pixel
    /// they land on, alpha included.
    pub fn blit_rgba(&mut self, x: u32, y: u32, img_width: u32, img_height: u32, rgba: &[u8])
        requires
            old(self).wf(),
            4 * img_width * img_height <= 0x1_0000_0000,
            forall|ix: int, iy: int|
                0 <= ix < img_width && 0 <= iy < img_height && #[trigger] rgba_drawn(
                    rgba@,
                    img_width as int,
                    ix,
                    iy,
                ) ==> x + ix <= u32::MAX && y + iy <= u32::MAX,
        ensures
            final(self).wf(),
            final(self).same_geometry(old(self)),
            final(self).bytes() == old(self).remapped(
                old(self).bytes(),
                paint_image(x as int, y as int, img_width as int, img_height as int, rgba@),
            ),
    {
        let ghost stride = self.stride as int;
        let ghost width = self.width as int;
        let ghost height = self.height as int;
        let ghost old_buf = self.buffer@;
        let ghost start = *self;
        let ghost iw = img_width as int;
        let ghost ih = img_height as int;
        let ghost src = rgba@;
        let mut iy: u32 = 0;
        assert(self.buffer@ == remap(
            old_buf,
            stride,
            width,
            height,
            paint_image(x as int, y as int, iw, 0, src),
        )) by {
            lemma_remap_ext(
                old_buf,
                stride,
                width,
                height,
                paint_image(x as int, y as int, iw, 0, src),
                |px: int, py: int, k: int, b: u8| b,
            );
            assert(old_buf =~= remap(
                old_buf,
                stride,
                width,
                height,
                |px: int, py: int, k: int, b: u8| b,
            ));
        }
        while iy < img_height
            invariant
                self.wf(),
                self.same_geometry(&start),
                stride == self.spec_stride(),
                width == self.spec_width(),
                height == self.spec_height(),
                iw == img_width,
                ih == img_height,
                src == rgba@,
                iy <= img_height,
                4 * img_width * img_height <= 0x1_0000_0000,
                forall|ix: int, iy: int|
                    0 <= ix < img_width && 0 <= iy < img_height && #[trigger] rgba_drawn(
                        rgba@,
                        img_width as int,
                        ix,
                        iy,
                    ) ==> x + ix <= u32::MAX && y + iy <= u32::MAX,
                self.bytes() == remap(
                    old_buf,
                    stride,
                    width,
                    height,
                    paint_image(x as int, y as int, iw, iy as int, src),
                ),
            decreases img_height - iy,
        {
            let mut ix: u32 = 0;
            while ix < img_width
                invariant
                    self.wf(),
                    self.same_geometry(&start),
                    stride == self.spec_stride(),
                    width == self.spec_width(),
                    height == self.spec_height(),
                    iw == img_width,
                    ih == img_height,
                    src == rgba@,
                    iy < img_height,
                    ix <= img_width,
                    4 * img_width * img_height <= 0x1_0000_0000,
                    forall|ix: int, iy: int|
                        0 <= ix < img_width && 0 <= iy < img_height && #[trigger] rgba_drawn(
                            rgba@,
                            img_width as int,
                            ix,
                            iy,
                        ) ==> x + ix <= u32::MAX && y + iy <= u32::MAX,
                    self.bytes() == remap(
                        old_buf,
                        stride,
                        width,
                        height,
                        |px: int, py: int, k: int, b: u8|
                            if ((y <= py < y + iy && x <= px < x + iw) || (py == y + iy && x <= px
                                < x + ix)) && rgba_drawn(src, iw, px - x, py - y) {
                                channel_byte(rgba_color(src, iw, px - x, py - y), k)
                            } else {
                                b
                            },
                    ),
                decreases img_width - ix,
            {
                let ghost f = |px: int, py: int, k: int, b: u8|
                    if ((y <= py < y + iy && x <= px < x + iw) || (py == y + iy && x <= px < x
                        + ix)) && rgba_drawn(src, iw, px - x, py - y) {
                        channel_byte(rgba_color(src, iw, px - x, py - y), k)
                    } else {
                        b
                    };
                let ghost f_next = |px: int, py: int, k: int, b: u8|
                    if ((y <= py < y + iy && x <= px < x + iw) || (py == y + iy && x <= px < x
                        + ix + 1)) && rgba_drawn(src, iw, px - x, py - y) {
                        channel_byte(rgba_color(src, iw, px - x, py - y), k)
                    } else {
                        b
                    };
                assert((iy * img_width + ix) * 4 + 3 < 0x1_0000_0000) by (nonlinear_arith)
                    requires
                        iy < img_height,
                        ix < img_width,
                        4 * img_width * img_height <= 0x1_0000_0000,
                ;
                let src_offset = ((iy * img_width + ix) * 4) as usize;
                if src_offset + 3 < rgba.len() && rgba[src_offset + 3] > 0 {
                    let color = Color {
                        r: rgba[src_offset],
                        g: rgba[src_offset + 1],
                        b: rgba[src_offset + 2],
                        a: rgba[src_offset + 3],
                    };
                    assert(rgba_drawn(src, iw, ix as int, iy as int));
                    assert(color == rgba_color(src, iw, ix as int, iy as int));
                    self.set_pixel(x + ix, y + iy, color);
                    proof {
                        lemma_remap_compose(
                            old_buf,
                            stride,
                            width,
                            height,
                            f,
                            paint_pixel(x + ix, y + iy, color),
                        );
                        lemma_remap_ext(
                            old_buf,
                            stride,
                            width,
                            height,
                            |px: int, py: int, k: int, b: u8|
                                paint_pixel(x + ix, y + iy, color)(px, py, k, f(px, py, k, b)),
                            f_next,
                        );
                    }
                } else {
                    assert(!rgba_drawn(src, iw, ix as int, iy as int));
                    proof {
                        lemma_remap_ext(old_buf, stride, width, height, f, f_next);
                    }
                }
                ix += 1;
            }
            proof {
                lemma_remap_ext(
                    old_buf,
                    stride,
                    width,
                    height,
                    |px: int, py: int, k: int, b: u8|
                        if ((y <= py < y + iy && x <= px < x + iw) || (py == y + iy && x <= px
                            < x + ix)) && rgba_drawn(src, iw, px - x, py - y) {
                            channel_byte(rgba_color(src, iw, px - x, py - y), k)
                        } else {
                            b
                        },
                    paint_image(x as int, y as int, iw, iy + 1, src),
                );
            }
            iy += 1;
        }
    }

    /// Plot a rasterized glyph: its coverage bitmap is `gw x gh` pixels,
    /// row by row, and its top left corner lands at `(x + ox, y + oy)`.
    /// Every pixel whose coverage is above one half is set to `color`; the
    /// others, and everything else, keep their value.
    pub fn plot_glyph(
        &mut self,
        x: u32,
        y: u32,
        ox: u32,
        oy: u32,
        gw: usize,
        gh: usize,
        bitmap: &[u8],
        color: Color,
    )
        requires
            old(self).wf(),
            gw * gh <= bitmap@.len(),
            glyph_fits(x, y, ox, oy, gw, gh, bitmap@),
        ensures
            final(self).wf(),
            final(self).same_geometry(old(self)),
            final(self).bytes() == old(self).remapped(
                old(self).bytes(),
                paint_glyph(x + ox, y + oy, gw as int, gh as int, bitmap@, color),
            ),
    {
        let ghost stride = self.stride as int;
        let ghost width = self.width as int;
        let ghost height = self.height as int;
        let ghost old_buf = self.buffer@;
        let ghost start = *self;
        let ghost bx = x + ox;
        let ghost by = y + oy;
        let ghost w = gw as int;
        let ghost src = bitmap@;
        let n = bitmap.len();
        let mut gy: usize = 0;
        assert(self.buffer@ == remap(old_buf, stride, width, height, paint_glyph(bx, by, w, 0, src, color)))
            by {
            lemma_remap_ext(
                old_buf,
                stride,
                width,
                height,
                paint_glyph(bx, by, w, 0, src, color),
                |px: int, py: int, k: int, b: u8| b,
            );
            assert(old_buf =~= remap(old_buf, stride, width, height, |px: int, py: int, k: int, b: u8| b));
        }
        while gy < gh
            invariant
                self.wf(),
                self.same_geometry(&start),
                stride == self.spec_stride(),
                width == self.spec_width(),
                height == self.spec_height(),
                bx == x + ox,
                by == y + oy,
                w == gw,
                src == bitmap@,
                gy <= gh,
                n == bitmap@.len(),
                gw * gh <= bitmap@.len(),
                glyph_fits(x, y, ox, oy, gw, gh, bitmap@),
                self.bytes() == remap(
                    old_buf,
                    stride,
                    width,
                    height,
                    paint_glyph(bx, by, w, gy as int, src, color),
                ),
            decreases gh - gy,
        {
            let mut gx: usize = 0;
            while gx < gw
                invariant
                    self.wf(),
                    self.same_geometry(&start),
                    stride == self.spec_stride(),
                    width == self.spec_width(),
                    height == self.spec_height(),
                    bx == x + ox,
                    by == y + oy,
                    w == gw,
                    src == bitmap@,
                    gy < gh,
                    gx <= gw,
                    n == bitmap@.len(),
                    gw * gh <= bitmap@.len(),
                    glyph_fits(x, y, ox, oy, gw, gh, bitmap@),
                    self.bytes() == remap(
                        old_buf,
                        stride,
                        width,
                        height,
                        |px: int, py: int, k: int, b: u8|
                            if ((by <= py < by + gy && bx <= px < bx + w) || (py == by + gy && bx
                                <= px < bx + gx)) && glyph_covers(src, w, px - bx, py - by) {
                                channel_byte(color, k)
                            } else {
                                b
                            },
                    ),
                decreases gw - gx,
            {
                let ghost f = |px: int, py: int, k: int, b: u8|
                    if ((by <= py < by + gy && bx <= px < bx + w) || (py == by + gy && bx <= px < bx
                        + gx)) && glyph_covers(src, w, px - bx, py - by) {
                        channel_byte(color, k)
                    } else {
                        b
                    };
                let ghost f_next = |px: int, py: int, k: int, b: u8|
                    if ((by <= py < by + gy && bx <= px < bx + w) || (py == by + gy && bx <= px < bx
                        + gx + 1)) && glyph_covers(src, w, px - bx, py - by) {
                        channel_byte(color, k)
                    } else {
                        b
                    };
                assert(gy * gw <= gy * gw + gx < gw * gh) by (nonlinear_arith)
                    requires
                        gy < gh,
                        gx < gw,
                ;
                if bitmap[gy * gw + gx] > 128 {
                    assert(glyph_covers(src, w, gx as int, gy as int));
                    let px = x + ox + gx as u32;
                    let py = y + oy + gy as u32;
                    self.set_pixel(px, py, color);
                    proof {
                        lemma_remap_compose(old_buf, stride, width, height, f, paint_pixel(px as int, py as int, color));
                        lemma_remap_ext(
                            old_buf,
                            stride,
                            width,
                            height,
                            |px2: int, py2: int, k: int, b: u8|
                                paint_pixel(px as int, py as int, color)(px2, py2, k, f(px2, py2, k, b)),
                            f_next,
                        );
                    }
                } else {
                    assert(!glyph_covers(src, w, gx as int, gy as int));
                    proof {
                        lemma_remap_ext(old_buf, stride, width, height, f, f_next);
                    }
                }
                gx += 1;
            }
            proof {
                lemma_remap_ext(
                    old_buf,
                    stride,
                    width,
                    height,
                    |px: int, py: int, k: int, b: u8|
                        if ((by <= py < by + gy && bx <= px < bx + w) || (py == by + gy && bx <= px
                            < bx + gw)) && glyph_covers(src, w, px - bx, py - by) {
                            channel_byte(color, k)
                        } else {
                            b
                        },
                    paint_glyph(bx, by, w, gy + 1, src, color),
                );
            }
            gy += 1;
        }
    }

    /// Draw the border of the rectangle `[x, x + w) x [y, y + h)` with the
    /// given `thickness`: its top, bottom, left and right bands, clipped to
    /// the screen.
    pub fn draw_rect(&mut self, x: u32, y: u32, w: u32, h: u32, thickness: u32, color: Color)
        requires
            old(self).wf(),
            x + w <= u32::MAX,
            y + h <= u32::MAX,
            thickness <= x + w,
            thickness <= y + h,
        ensures
            final(self).wf(),
            final(self).same_geometry(old(self)),
            final(self).bytes() == old(self).remapped(
                old(self).bytes(),
                paint_frame(x as int, y as int, w as int, h as int, thickness as int, color),
            ),
    {
        let ghost stride = self.stride as int;
        let ghost width = self.width as int;
        let ghost height = self.height as int;
        let ghost b0 = self.buffer@;
        let ghost t = thickness as int;
        self.fill_rect(x, y, w, thickness, color);
        let ghost f1 = paint_rect(x as int, y as int, w as int, t, color);
        self.fill_rect(x, y + h - thickness, w, thickness, color);
        let ghost f2 = paint_rect(x as int, y + h - t, w as int, t, color);
        self.fill_rect(x, y, thickness, h, color);
        let ghost f3 = paint_rect(x as int, y as int, t, h as int, color);
        self.fill_rect(x + w - thickness, y, thickness, h, color);
        let ghost f4 = paint_rect(x + w - t, y as int, t, h as int, color);
        proof {
            lemma_remap_compose(b0, stride, width, height, f1, f2);
            let f12 = |px: int, py: int, k: int, b: u8| f2(px, py, k, f1(px, py, k, b));
            lemma_remap_compose(b0, stride, width, height, f12, f3);
            let f123 = |px: int, py: int, k: int, b: u8| f3(px, py, k, f12(px, py, k, b));
            lemma_remap_compose(b0, stride, width, height, f123, f4);
            lemma_remap_ext(
                b0,
                stride,
                width,
                height,
                |px: int, py: int, k: int, b: u8| f4(px, py, k, f123(px, py, k, b)),
                paint_frame(x as int, y as int, w as int, h as int, t, color),
            );
        }
    }
}


/// Reading a pixel back after setting it gives the color written, in
/// BGRA byte order.
pub proof fn lemma_set_then_read(
    buf: Seq<u8>,
    stride: int,
    width: int,
    height: int,
    x: int,
    y: int,
    color: Color,
    k: int,
)
    requires
        0 <= x < width,
        0 <= y < height,
        0 <= k < 4,
        4 * width <= stride,
        buf.len() == stride * height,
    ensures
        remap(buf, stride, width, height, paint_pixel(x, y, color))[pixel_offset(stride, x, y) + k]
            == channel_byte(color, k),
{
    let i = pixel_offset(stride, x, y) + k;
    lemma_pixel_byte(stride, width, height, x, y, i);
    assert(y * stride + stride <= height * stride) by (nonlinear_arith)
        requires
            y + 1 <= height,
            stride >= 0,
    ;
    assert(i < stride * height) by (nonlinear_arith)
        requires
            i == y * stride + 4 * x + k,
            y * stride + stride <= height * stride,
            x < width,
            y < height,
            k < 4,
            4 * width <= stride,
    ;
}

/// Setting a pixel off the screen changes nothing.
pub proof fn lemma_offscreen_pixel_keeps(
    buf: Seq<u8>,
    stride: int,
    width: int,
    height: int,
    x: int,
    y: int,
    color: Color,
)
    requires
        x < 0 || x >= width || y < 0 || y >= height,
    ensures
        remap(buf, stride, width, height, paint_pixel(x, y, color)) == buf,
{
    assert forall|i: int| 0 <= i < buf.len() implies remap(
        buf,
        stride,
        width,
        height,
        paint_pixel(x, y, color),
    )[i] == buf[i] by {
        if byte_is_pixel(i, stride, width, height) {
            assert((i % stride) / 4 < width);
            assert(i / stride < height);
        }
    }
    assert(remap(buf, stride, width, height, paint_pixel(x, y, color)) =~= buf);
}

/// Dimming by nothing changes nothing.
pub proof fn lemma_dim_by_zero_keeps(
    buf: Seq<u8>,
    stride: int,
    width: int,
    height: int,
    x: int,
    y: int,
    w: int,
    h: int,
)
    ensures
        remap(buf, stride, width, height, dim_region(x, y, w, h, 255)) == buf,
{
    assert forall|i: int| 0 <= i < buf.len() implies remap(
        buf,
        stride,
        width,
        height,
        dim_region(x, y, w, h, 255),
    )[i] == buf[i] by {
        let b = buf[i];
        assert((b * 255) / 255 == b) by (nonlinear_arith);
    }
    assert(remap(buf, stride, width, height, dim_region(x, y, w, h, 255)) =~= buf);
}

/// Filling the same rectangle twice with one color is filling it once.
pub proof fn lemma_fill_idempotent(
    buf: Seq<u8>,
    stride: int,
    width: int,
    height: int,
    x: int,
    y: int,
    w: int,
    h: int,
    color: Color,
)
    ensures
        remap(
            remap(buf, stride, width, height, paint_rect(x, y, w, h, color)),
            stride,
            width,
            height,
            paint_rect(x, y, w, h, color),
        ) == remap(buf, stride, width, height, paint_rect(x, y, w, h, color)),
{
    lemma_remap_compose(
        buf,
        stride,
        width,
        height,
        paint_rect(x, y, w, h, color),
        paint_rect(x, y, w, h, color),
    );
    lemma_remap_ext(
        buf,
        stride,
        width,
        height,
        |px: int, py: int, k: int, b: u8|
            paint_rect(x, y, w, h, color)(px, py, k, paint_rect(x, y, w, h, color)(px, py, k, b)),
        paint_rect(x, y, w, h, color),
    );
}

/// Drawing never touches a byte of row padding: bytes that belong to no
/// pixel keep their value under every rewrite.
pub proof fn lemma_padding_untouched(
    buf: Seq<u8>,
    stride: int,
    width: int,
    height: int,
    f: spec_fn(int, int, int, u8) -> u8,
    i: int,
)
    requires
        0 <= i < buf.len(),
        !byte_is_pixel(i, stride, width, height),
    ensures
        remap(buf, stride, width, height, f)[i] == buf[i],
{
}


/// Dimming blends toward black: no byte of the buffer gets brighter, and
/// alpha and everything outside the rectangle keep their value.
pub proof fn lemma_dim_never_brightens(
    buf: Seq<u8>,
    stride: int,
    width: int,
    height: int,
    x: int,
    y: int,
    w: int,
    h: int,
    amount: u8,
    i: int,
)
    requires
        0 <= i < buf.len(),
    ensures
        remap(buf, stride, width, height, dim_region(x, y, w, h, 255 - amount))[i] <= buf[i],
        !(byte_is_pixel(i, stride, width, height) && x <= (i % stride) / 4 < x + w && y <= i
            / stride < y + h && (i % stride) % 4 < 3) ==> remap(
            buf,
            stride,
            width,
            height,
            dim_region(x, y, w, h, 255 - amount),
        )[i] == buf[i],
{
    let b = buf[i];
    let f = 255 - amount;
    assert((b * f) / 255 <= b) by (nonlinear_arith)
        requires
            0 <= f <= 255,
            0 <= b,
    ;
}

} // verus!
