//! Low-level CPU drawing primitives shared by the native chrome and the
//! terminal-pane renderer.
//!
//! A [`Canvas`] owns a softbuffer-style `0x00RRGGBB` pixel buffer, row-major
//! with `width` pixels per row, and offers clipped fills, outlines, alpha
//! blending, dots, and glyph drawing on top of whatever is already in the
//! buffer. Pixel `i` of the buffer is the point `(i % width, i / width)`.

use vstd::prelude::*;
use vstd::arithmetic::div_mod::{lemma_fundamental_div_mod, lemma_fundamental_div_mod_converse};
use crate::color::{self, Rgb, spec_blend, spec_pack_rgb, spec_unpack_rgb};
use crate::font::Glyph;
use crate::layout::fits_i32;

verus! {

/// A mutable RGB pixel buffer with clipped drawing helpers.
pub struct Canvas {
    buf: Vec<u32>,
    width: usize,
    height: usize,
}

/// Pixel `i` lies on a `width` x `height` surface.
pub open spec fn on_surface(width: int, height: int, i: int) -> bool {
    width > 0 && 0 <= i && i / width < height
}

/// Pixel `i` of a `width` x `height` surface lies in the rect `(x, y, w, h)`.
pub open spec fn in_rect(width: int, height: int, i: int, x: int, y: int, w: int, h: int) -> bool {
    on_surface(width, height, i) && x <= i % width < x + w && y <= i / width < y + h
}

/// `pixels` with the part of the rect `(x, y, w, h)` that lies on the
/// surface set to `packed`.
pub open spec fn spec_fill(
    pixels: Seq<u32>,
    width: int,
    height: int,
    x: int,
    y: int,
    w: int,
    h: int,
    packed: u32,
) -> Seq<u32> {
    Seq::new(
        pixels.len(),
        |i: int| if in_rect(width, height, i, x, y, w, h) { packed } else { pixels[i] },
    )
}

/// The overflow-free arguments of `stroke_rect`: a non-empty rect whose
/// right and bottom edges are valid coordinates.
pub open spec fn stroke_fits(x: int, y: int, w: int, h: int) -> bool {
    (w > 0 && h > 0) ==> x + w <= i32::MAX && y + h <= i32::MAX
}

/// Pixel `i` is on the surface and on the one-pixel border of the rect
/// `(x, y, w, h)`: inside it, in its first or last column or row.
pub open spec fn on_outline(width: int, height: int, i: int, x: int, y: int, w: int, h: int) -> bool {
    &&& in_rect(width, height, i, x, y, w, h)
    &&& (i % width == x || i % width == x + w - 1 || i / width == y || i / width == y + h - 1)
}

/// `pixels` with the one-pixel outline of the rect `(x, y, w, h)` set to
/// `packed` where it lies on the surface.
pub open spec fn spec_stroke(
    pixels: Seq<u32>,
    width: int,
    height: int,
    x: int,
    y: int,
    w: int,
    h: int,
    packed: u32,
) -> Seq<u32> {
    Seq::new(pixels.len(), |i: int| if on_outline(width, height, i, x, y, w, h) { packed } else { pixels[i] })
}

/// `pixels` with `rgb` blended at coverage `cov` over the pixel `(x, y)`,
/// when the coverage is non-zero and the point lies on the surface.
pub open spec fn spec_blend_at(
    pixels: Seq<u32>,
    width: int,
    height: int,
    x: int,
    y: int,
    rgb: Rgb,
    cov: u8,
) -> Seq<u32> {
    Seq::new(
        pixels.len(),
        |i: int|
            if cov != 0 && in_rect(width, height, i, x, y, 1, 1) {
                spec_pack_rgb(spec_blend(spec_unpack_rgb(pixels[i]), rgb, cov))
            } else {
                pixels[i]
            },
    )
}

/// `(dx, dy)` lies in the disc of radius `r` around the origin.
pub open spec fn in_disc(dx: int, dy: int, r: int) -> bool {
    -r <= dx <= r && -r <= dy <= r && dx * dx + dy * dy <= r * r
}

/// `pixels` with every on-surface pixel within `radius` of `(cx, cy)` set
/// to `packed`.
pub open spec fn spec_dot(
    pixels: Seq<u32>,
    width: int,
    height: int,
    cx: int,
    cy: int,
    radius: int,
    packed: u32,
) -> Seq<u32> {
    Seq::new(
        pixels.len(),
        |i: int|
            if on_surface(width, height, i) && in_disc(i % width - cx, i / width - cy, radius) {
                packed
            } else {
                pixels[i]
            },
    )
}

/// The overflow-free arguments of `dot`.
pub open spec fn dot_fits(cx: int, cy: int, radius: int) -> bool {
    &&& radius * radius <= i32::MAX
    &&& radius >= 0 ==> {
        &&& 2 * (radius * radius) <= i32::MAX
        &&& i32::MIN <= cx - radius
        &&& cx + radius <= i32::MAX
        &&& i32::MIN <= cy - radius
        &&& cy + radius <= i32::MAX
    }
}

/// Glyph pixel `(gx, gy)` of a `gw` x `gh` coverage bitmap has ink.
pub open spec fn glyph_ink(coverage: Seq<u8>, gw: int, gh: int, gx: int, gy: int) -> bool {
    0 <= gx < gw && 0 <= gy < gh && coverage[gy * gw + gx] != 0
}

/// `pixels` with `fg` blended over every on-surface pixel that a glyph
/// bitmap placed with its top-left corner at `(left, top)` covers, at that
/// bitmap pixel's coverage.
pub open spec fn spec_glyph(
    pixels: Seq<u32>,
    width: int,
    height: int,
    left: int,
    top: int,
    gw: int,
    gh: int,
    coverage: Seq<u8>,
    fg: Rgb,
) -> Seq<u32> {
    Seq::new(
        pixels.len(),
        |i: int|
            if on_surface(width, height, i) && glyph_ink(coverage, gw, gh, i % width - left, i / width - top) {
                spec_pack_rgb(
                    spec_blend(
                        spec_unpack_rgb(pixels[i]),
                        fg,
                        coverage[(i / width - top) * gw + (i % width - left)],
                    ),
                )
            } else {
                pixels[i]
            },
    )
}

/// Where a glyph's bitmap goes in a cell: its left and top edges.
pub open spec fn glyph_origin(glyph: Glyph, cell_x: int, cell_y: int, ascent: int) -> (int, int) {
    (cell_x + glyph.xmin, cell_y + ascent - glyph.ymin - glyph.height)
}

/// The glyph and placement `draw_glyph` handles without overflowing `i32`.
pub open spec fn glyph_fits(glyph: Glyph, cell_x: int, cell_y: int, ascent: int) -> bool {
    let (left, top) = glyph_origin(glyph, cell_x, cell_y, ascent);
    &&& glyph.coverage@.len() >= glyph.width * glyph.height
    &&& glyph.height <= i32::MAX
    &&& glyph.width <= i32::MAX
    &&& fits_i32(cell_y + ascent)
    &&& fits_i32(cell_y + ascent - glyph.ymin)
    &&& fits_i32(top)
    &&& fits_i32(left)
    &&& fits_i32(left + glyph.width)
    &&& fits_i32(top + glyph.height)
}

/// The index of the on-surface pixel `(x, y)`.
pub(crate) proof fn lemma_pixel_index(width: int, height: int, x: int, y: int)
    requires
        0 <= x < width,
        0 <= y < height,
    ensures
        0 <= y * width + x < width * height,
        (y * width + x) % width == x,
        (y * width + x) / width == y,
{
    assert(0 <= y * width + x < width * height) by (nonlinear_arith)
        requires
            0 <= x < width,
            0 <= y < height,
    ;
    lemma_fundamental_div_mod_converse(y * width + x, width, y, x);
}

/// A pixel index is determined by its column and row.
proof fn lemma_index_of(width: int, i: int)
    requires
        width > 0,
    ensures
        i == (i / width) * width + i % width,
{
    lemma_fundamental_div_mod(i, width);
    assert(width * (i / width) == (i / width) * width) by (nonlinear_arith);
}

impl Canvas {
    /// The buffer holds at least `width * height` pixels.
    pub closed spec fn wf(&self) -> bool {
        self.buf@.len() >= self.width * self.height
    }

    /// The pixel words, row-major.
    pub closed spec fn pixels(&self) -> Seq<u32> {
        self.buf@
    }

    pub closed spec fn spec_width(&self) -> int {
        self.width as int
    }

    pub closed spec fn spec_height(&self) -> int {
        self.height as int
    }

    /// Wraps `buf` as a `width` x `height` surface; the buffer must hold at
    /// least `width * height` pixels.
    pub fn new(buf: Vec<u32>, width: usize, height: usize) -> (c: Self)
        requires
            buf@.len() >= width * height,
        ensures
            c.wf(),
            c.pixels() == buf@,
            c.spec_width() == width,
            c.spec_height() == height,
    {
        Canvas { buf, width, height }
    }

    pub fn width(&self) -> (w: usize)
        ensures
            w == self.spec_width(),
    {
        self.width
    }

    pub fn height(&self) -> (h: usize)
        ensures
            h == self.spec_height(),
    {
        self.height
    }

    /// The pixel words, row-major.
    pub fn buffer(&self) -> (b: &Vec<u32>)
        ensures
            b@ == self.pixels(),
    {
        &self.buf
    }

    /// Gives the pixel buffer back.
    pub fn into_buffer(self) -> (b: Vec<u32>)
        ensures
            b@ == self.pixels(),
    {
        self.buf
    }

    /// Sets every pixel of the buffer to `rgb`.
    pub fn clear(&mut self, rgb: Rgb)
        requires
            old(self).wf(),
        ensures
            final(self).wf(),
            final(self).pixels() == Seq::new(old(self).pixels().len(), |i: int| spec_pack_rgb(rgb)),
            final(self).spec_width() == old(self).spec_width(),
            final(self).spec_height() == old(self).spec_height(),
    {
        let packed = color::pack_rgb(rgb);
        let n: usize = self.buf.len();
        let mut i: usize = 0;
        while i < n
            invariant
                n == self.buf@.len(),
                n == old(self).buf@.len(),
                self.width == old(self).width,
                self.height == old(self).height,
                i <= n,
                forall|k: int| 0 <= k < i ==> self.buf@[k] == packed,
            decreases n - i,
        {
            self.buf.set(i, packed);
            i += 1;
        }
        proof {
            assert(self.buf@ =~= Seq::new(old(self).pixels().len(), |i: int| spec_pack_rgb(rgb)));
        }
    }

    /// Writes `packed` at `(x, y)` when that point lies on the surface.
    pub fn put(&mut self, x: i32, y: i32, packed: u32)
        requires
            old(self).wf(),
        ensures
            final(self).wf(),
            final(self).pixels() == spec_fill(
                old(self).pixels(),
                old(self).spec_width(),
                old(self).spec_height(),
                x as int,
                y as int,
                1,
                1,
                packed,
            ),
            final(self).spec_width() == old(self).spec_width(),
            final(self).spec_height() == old(self).spec_height(),
    {
        let ghost old_pixels = self.buf@;
        let ghost fill = spec_fill(
            old_pixels,
            self.width as int,
            self.height as int,
            x as int,
            y as int,
            1,
            1,
            packed,
        );
        if x < 0 || y < 0 {
            assert(self.buf@ =~= fill);
            return;
        }
        let xu: usize = x as usize;
        let yu: usize = y as usize;
        if xu >= self.width || yu >= self.height {
            proof {
                assert forall|i: int| 0 <= i < old_pixels.len() implies fill[i] == old_pixels[i] by {
                    if in_rect(self.width as int, self.height as int, i, x as int, y as int, 1, 1) {
                        if xu >= self.width {
                            assert(i % (self.width as int) < self.width);
                        }
                    }
                }
                assert(self.buf@ =~= fill);
            }
            return;
        }
        let blen: usize = self.buf.len();
        proof {
            lemma_pixel_index(self.width as int, self.height as int, xu as int, yu as int);
        }
        let idx: usize = yu * self.width + xu;
        self.buf.set(idx, packed);
        proof {
            assert forall|i: int| 0 <= i < old_pixels.len() implies self.buf@[i] == fill[i] by {
                if i != idx {
                    if in_rect(self.width as int, self.height as int, i, x as int, y as int, 1, 1) {
                        lemma_index_of(self.width as int, i);
                    }
                }
            }
            assert(self.buf@ =~= fill);
        }
    }

    /// Fills the part of the rect `(x, y, w, h)` that lies on the surface.
    pub fn fill_rect(&mut self, x: i32, y: i32, w: i32, h: i32, rgb: Rgb)
        requires
            old(self).wf(),
            w > 0 ==> x + w <= i32::MAX,
            h > 0 ==> y + h <= i32::MAX,
        ensures
            final(self).pixels() == spec_fill(
                old(self).pixels(),
                old(self).spec_width(),
                old(self).spec_height(),
                x as int,
                y as int,
                w as int,
                h as int,
                spec_pack_rgb(rgb),
            ),
            final(self).wf(),
            final(self).spec_width() == old(self).spec_width(),
            final(self).spec_height() == old(self).spec_height(),
    {
        let ghost old_pixels = self.buf@;
        let ghost wd = self.width as int;
        let ghost ht = self.height as int;
        let packed = color::pack_rgb(rgb);
        let ghost fill = spec_fill(old_pixels, wd, ht, x as int, y as int, w as int, h as int, packed);
        if w <= 0 || h <= 0 {
            assert(self.buf@ =~= fill);
            return;
        }
        let x0: usize = if x > 0 { x as usize } else { 0 };
        let y0: usize = if y > 0 { y as usize } else { 0 };
        let xe: i32 = x + w;
        let ye: i32 = y + h;
        let x1: usize = if xe > 0 { if (xe as usize) < self.width { xe as usize } else { self.width } } else { 0 };
        let y1: usize = if ye > 0 { if (ye as usize) < self.height { ye as usize } else { self.height } } else { 0 };
        let blen: usize = self.buf.len();
        let mut py: usize = y0;
        while py < y1
            invariant
                blen == old_pixels.len(),
                self.buf@.len() == old_pixels.len(),
                old_pixels.len() >= wd * ht,
                self.width == wd,
                self.height == ht,
                x0 as int == (if x > 0 { x as int } else { 0 }),
                y0 as int == (if y > 0 { y as int } else { 0 }),
                x1 as int == (if x + w > 0 { if x + w < wd { x + w } else { wd } } else { 0 }),
                y1 as int == (if y + h > 0 { if y + h < ht { y + h } else { ht } } else { 0 }),
                y0 <= py,
                py <= y1 || y1 < y0,
                fill == spec_fill(old_pixels, wd, ht, x as int, y as int, w as int, h as int, packed),
                forall|i: int| 0 <= i < old_pixels.len() ==> #[trigger] self.buf@[i] == if in_rect(
                    wd,
                    ht,
                    i,
                    x as int,
                    y as int,
                    w as int,
                    h as int,
                ) && i / wd < py {
                    packed
                } else {
                    old_pixels[i]
                },
            decreases y1 - py,
        {
            let mut px: usize = x0;
            while px < x1
                invariant
                    blen == old_pixels.len(),
                    self.buf@.len() == old_pixels.len(),
                    old_pixels.len() >= wd * ht,
                    self.width == wd,
                    self.height == ht,
                    x0 as int == (if x > 0 { x as int } else { 0 }),
                    x1 as int == (if x + w > 0 { if x + w < wd { x + w } else { wd } } else { 0 }),
                    y1 as int == (if y + h > 0 { if y + h < ht { y + h } else { ht } } else { 0 }),
                    y0 as int == (if y > 0 { y as int } else { 0 }),
                    y0 <= py < y1,
                    x0 <= px,
                    px <= x1 || x1 < x0,
                    forall|i: int| 0 <= i < old_pixels.len() ==> #[trigger] self.buf@[i] == if in_rect(
                        wd,
                        ht,
                        i,
                        x as int,
                        y as int,
                        w as int,
                        h as int,
                    ) && (i / wd < py || (i / wd == py && i % wd < px)) {
                        packed
                    } else {
                        old_pixels[i]
                    },
                decreases x1 - px,
            {
                proof {
                    lemma_pixel_index(wd, ht, px as int, py as int);
                }
                let idx: usize = py * self.width + px;
                self.buf.set(idx, packed);
                proof {
                    assert forall|i: int| 0 <= i < old_pixels.len() implies #[trigger] self.buf@[i] == if in_rect(
                        wd,
                        ht,
                        i,
                        x as int,
                        y as int,
                        w as int,
                        h as int,
                    ) && (i / wd < py || (i / wd == py && i % wd < px + 1)) {
                        packed
                    } else {
                        old_pixels[i]
                    } by {
                        if i != idx && i / wd == py && i % wd == px {
                            lemma_index_of(wd, i);
                        }
                    }
                }
                px += 1;
            }
            proof {
                assert forall|i: int| 0 <= i < old_pixels.len() implies #[trigger] self.buf@[i] == if in_rect(
                    wd,
                    ht,
                    i,
                    x as int,
                    y as int,
                    w as int,
                    h as int,
                ) && i / wd < py + 1 {
                    packed
                } else {
                    old_pixels[i]
                } by {
                    if in_rect(wd, ht, i, x as int, y as int, w as int, h as int) && i / wd == py {
                        assert(0 <= i % wd < wd);
                    }
                }
            }
            py += 1;
        }
        proof {
            assert forall|i: int| 0 <= i < old_pixels.len() implies self.buf@[i] == fill[i] by {
                if in_rect(wd, ht, i, x as int, y as int, w as int, h as int) {
                    assert(i / wd < py);
                }
            }
            assert(self.buf@ =~= fill);
        }
    }

    /// Draws a 1px-thick rectangle outline, as four clipped one-pixel
    /// fills: top, bottom, left, right. The thickness argument does not
    /// widen it.
    pub fn stroke_rect(&mut self, x: i32, y: i32, w: i32, h: i32, _thickness: i32, rgb: Rgb)
        requires
            old(self).wf(),
            stroke_fits(x as int, y as int, w as int, h as int),
        ensures
            final(self).wf(),
            final(self).pixels() == spec_stroke(
                old(self).pixels(),
                old(self).spec_width(),
                old(self).spec_height(),
                x as int,
                y as int,
                w as int,
                h as int,
                spec_pack_rgb(rgb),
            ),
            final(self).spec_width() == old(self).spec_width(),
            final(self).spec_height() == old(self).spec_height(),
    {
        let ghost before = self.pixels();
        if w <= 0 || h <= 0 {
            assert(self.pixels() =~= spec_stroke(before, self.spec_width(), self.spec_height(), x as int, y as int, w as int, h as int, spec_pack_rgb(rgb)));
            return;
        }
        self.fill_rect(x, y, w, 1, rgb);
        self.fill_rect(x, y + h - 1, w, 1, rgb);
        self.fill_rect(x, y, 1, h, rgb);
        self.fill_rect(x + w - 1, y, 1, h, rgb);
        assert(self.pixels() =~= spec_stroke(before, self.spec_width(), self.spec_height(), x as int, y as int, w as int, h as int, spec_pack_rgb(rgb)));
    }

    /// Blends `rgb` over the existing pixel at `(x, y)` with coverage `cov`.
    pub fn blend(&mut self, x: i32, y: i32, rgb: Rgb, cov: u8)
        requires
            old(self).wf(),
        ensures
            final(self).wf(),
            final(self).pixels() == spec_blend_at(
                old(self).pixels(),
                old(self).spec_width(),
                old(self).spec_height(),
                x as int,
                y as int,
                rgb,
                cov,
            ),
            final(self).spec_width() == old(self).spec_width(),
            final(self).spec_height() == old(self).spec_height(),
    {
        let ghost old_pixels = self.buf@;
        let ghost target = spec_blend_at(
            old_pixels,
            self.width as int,
            self.height as int,
            x as int,
            y as int,
            rgb,
            cov,
        );
        if cov == 0 || x < 0 || y < 0 {
            assert(self.buf@ =~= target);
            return;
        }
        let xu: usize = x as usize;
        let yu: usize = y as usize;
        if xu >= self.width || yu >= self.height {
            proof {
                assert forall|i: int| 0 <= i < old_pixels.len() implies target[i] == old_pixels[i] by {
                    if in_rect(self.width as int, self.height as int, i, x as int, y as int, 1, 1) {
                        assert(i % (self.width as int) < self.width);
                    }
                }
                assert(self.buf@ =~= target);
            }
            return;
        }
        let blen: usize = self.buf.len();
        proof {
            lemma_pixel_index(self.width as int, self.height as int, xu as int, yu as int);
        }
        let idx: usize = yu * self.width + xu;
        let existing: u32 = self.buf[idx];
        let bg = color::unpack_rgb(existing);
        let mixed = color::blend(bg, rgb, cov);
        let packed = color::pack_rgb(mixed);
        self.buf.set(idx, packed);
        proof {
            assert forall|i: int| 0 <= i < old_pixels.len() implies self.buf@[i] == target[i] by {
                if i != idx {
                    if in_rect(self.width as int, self.height as int, i, x as int, y as int, 1, 1) {
                        lemma_index_of(self.width as int, i);
                    }
                }
            }
            assert(self.buf@ =~= target);
        }
    }

    /// Draws a small filled disc (used for agent state in the sidebar).
    pub fn dot(&mut self, cx: i32, cy: i32, radius: i32, rgb: Rgb)
        requires
            old(self).wf(),
            dot_fits(cx as int, cy as int, radius as int),
        ensures
            final(self).wf(),
            final(self).pixels() == spec_dot(
                old(self).pixels(),
                old(self).spec_width(),
                old(self).spec_height(),
                cx as int,
                cy as int,
                radius as int,
                spec_pack_rgb(rgb),
            ),
            final(self).spec_width() == old(self).spec_width(),
            final(self).spec_height() == old(self).spec_height(),
    {
        let ghost old_pixels = self.buf@;
        let ghost wd = self.width as int;
        let ghost ht = self.height as int;
        let ghost r = radius as int;
        let packed = color::pack_rgb(rgb);
        proof {
            assert(radius * radius >= 0) by (nonlinear_arith);
            if radius >= 0 {
                assert(radius < 46341) by (nonlinear_arith)
                    requires
                        radius >= 0,
                        radius * radius <= i32::MAX,
                ;
            }
        }
        let r2: i32 = radius * radius;
        if radius < 0 {
            proof {
                assert forall|i: int| 0 <= i < old_pixels.len() implies self.buf@[i] == spec_dot(
                    old_pixels,
                    wd,
                    ht,
                    cx as int,
                    cy as int,
                    r,
                    packed,
                )[i] by {}
                assert(self.buf@ =~= spec_dot(old_pixels, wd, ht, cx as int, cy as int, r, packed));
            }
            return;
        }
        let mut dy: i32 = -radius;
        while dy <= radius
            invariant
                self.wf(),
                self.buf@.len() == old_pixels.len(),
                self.width == wd,
                self.height == ht,
                r == radius,
                r >= 0,
                r < 46341,
                r2 == r * r,
                dot_fits(cx as int, cy as int, r),
                -r <= dy <= r + 1,
                packed == spec_pack_rgb(rgb),
                forall|i: int| 0 <= i < old_pixels.len() ==> #[trigger] self.buf@[i] == if on_surface(wd, ht, i)
                    && in_disc(i % wd - cx, i / wd - cy, r) && i / wd - cy < dy {
                    packed
                } else {
                    old_pixels[i]
                },
            decreases r + 1 - dy,
        {
            let mut dx: i32 = -radius;
            while dx <= radius
                invariant
                    self.wf(),
                    self.buf@.len() == old_pixels.len(),
                    self.width == wd,
                    self.height == ht,
                    r == radius,
                    r >= 0,
                    r < 46341,
                    r2 == r * r,
                    dot_fits(cx as int, cy as int, r),
                    -r <= dy <= r,
                    -r <= dx <= r + 1,
                    packed == spec_pack_rgb(rgb),
                    forall|i: int| 0 <= i < old_pixels.len() ==> #[trigger] self.buf@[i] == if on_surface(wd, ht, i)
                        && in_disc(i % wd - cx, i / wd - cy, r) && (i / wd - cy < dy || (i / wd - cy == dy
                        && i % wd - cx < dx)) {
                        packed
                    } else {
                        old_pixels[i]
                    },
                decreases r + 1 - dx,
            {
                proof {
                    assert(dx * dx <= r * r && dy * dy <= r * r) by (nonlinear_arith)
                        requires
                            -r <= dx <= r,
                            -r <= dy <= r,
                    ;
                    assert(dx * dx >= 0 && dy * dy >= 0) by (nonlinear_arith);
                }
                let ghost before = self.buf@;
                let inside: bool = dx * dx + dy * dy <= r2;
                if inside {
                    self.put(cx + dx, cy + dy, packed);
                }
                proof {
                    assert forall|i: int| 0 <= i < old_pixels.len() implies #[trigger] self.buf@[i] == if on_surface(wd, ht, i)
                        && in_disc(i % wd - cx, i / wd - cy, r) && (i / wd - cy < dy || (i / wd - cy == dy
                        && i % wd - cx < dx + 1)) {
                        packed
                    } else {
                        old_pixels[i]
                    } by {
                        if on_surface(wd, ht, i) && i / wd - cy == dy && i % wd - cx == dx {
                            assert(in_disc(i % wd - cx, i / wd - cy, r) == inside);
                        }
                    }
                }
                dx += 1;
            }
            dy += 1;
        }
        proof {
            assert(self.buf@ =~= spec_dot(old_pixels, wd, ht, cx as int, cy as int, r, packed));
        }
    }

    /// Draws a left-aligned text run starting at pixel `(x, y_top)`,
    /// advancing one cell width per character, character `j` drawn with
    /// `glyphs[j]`. Stops before a character would pass `max_x`, and
    /// returns the pen position after the last character drawn.
    pub fn text(
        &mut self,
        glyphs: &Vec<Glyph>,
        x: i32,
        y_top: i32,
        text: &str,
        cell_w: i32,
        ascent: i32,
        fg: Rgb,
        max_x: i32,
    ) -> (pen: i32)
        requires
            old(self).wf(),
            text_fits(glyphs@, text@, x as int, y_top as int, cell_w as int, ascent as int, max_x as int),
        ensures
            final(self).wf(),
            pen == x + text_fit_count(x as int, text@.len() as int, cell_w as int, max_x as int) * cell_w,
            final(self).pixels() == spec_text(
                old(self).pixels(),
                old(self).spec_width(),
                old(self).spec_height(),
                glyphs@,
                text@,
                x as int,
                y_top as int,
                cell_w as int,
                ascent as int,
                fg,
                text_fit_count(x as int, text@.len() as int, cell_w as int, max_x as int) as nat,
            ),
            final(self).spec_width() == old(self).spec_width(),
            final(self).spec_height() == old(self).spec_height(),
    {
        let ghost old_pixels = self.buf@;
        let ghost wd = self.width as int;
        let ghost ht = self.height as int;
        let n: usize = text.unicode_len();
        let room: i64 = max_x as i64 - x as i64;
        let k: usize = if room < 0 {
            0
        } else {
            let q: i64 = room / (cell_w as i64);
            if (q as u64) < (n as u64) { q as usize } else { n }
        };
        let ghost count = text_fit_count(x as int, text@.len() as int, cell_w as int, max_x as int);
        proof {
            assert(n == text@.len());
            if room >= 0 {
                assert(room as int == max_x - x);
                assert((room / (cell_w as i64)) as int == (max_x - x) / (cell_w as int));
            }
        }
        assert(k as int == count);
        let mut pen: i32 = x;
        let mut j: usize = 0;
        while j < k
            invariant
                self.wf(),
                self.width == wd,
                self.height == ht,
                n == text@.len(),
                k as int == count,
                count == text_fit_count(x as int, text@.len() as int, cell_w as int, max_x as int),
                k <= n,
                text_fits(glyphs@, text@, x as int, y_top as int, cell_w as int, ascent as int, max_x as int),
                j <= k,
                pen == x + j * cell_w,
                self.buf@ == spec_text(old_pixels, wd, ht, glyphs@, text@, x as int, y_top as int, cell_w as int, ascent as int, fg, j as nat),
            decreases k - j,
        {
            proof {
                let (jj, cw, r) = (j as int, cell_w as int, max_x - x);
                assert(jj * cw + cw <= r) by (nonlinear_arith)
                    requires
                        0 <= jj < r / cw,
                        cw >= 1,
                        r >= 0,
                ;
                assert(glyph_fits(glyphs@[jj], x + jj * cw, y_top as int, ascent as int));
            }
            let ch = text.get_char(j);
            self.draw_glyph(&glyphs[j], ch, pen, y_top, ascent, fg);
            proof {
                assert((j + 1) * cell_w == j * cell_w + cell_w) by (nonlinear_arith);
            }
            pen = pen + cell_w;
            j += 1;
        }
        pen
    }

    /// Blends `rgb` at coverage `alpha` over the part of the rect
    /// `(x, y, w, h)` that lies on the surface.
    pub fn fill_rect_alpha(&mut self, x: i32, y: i32, w: i32, h: i32, rgb: Rgb, alpha: u8)
        requires
            old(self).wf(),
            w > 0 ==> x + w <= i32::MAX,
            h > 0 ==> y + h <= i32::MAX,
        ensures
            final(self).wf(),
            final(self).pixels() == spec_fill_alpha(
                old(self).pixels(),
                old(self).spec_width(),
                old(self).spec_height(),
                x as int,
                y as int,
                w as int,
                h as int,
                rgb,
                alpha,
            ),
            final(self).spec_width() == old(self).spec_width(),
            final(self).spec_height() == old(self).spec_height(),
    {
        let ghost old_pixels = self.buf@;
        let ghost wd = self.width as int;
        let ghost ht = self.height as int;
        let ghost target = spec_fill_alpha(old_pixels, wd, ht, x as int, y as int, w as int, h as int, rgb, alpha);
        if w <= 0 || h <= 0 || alpha == 0 {
            assert(self.buf@ =~= target);
            return;
        }
        let x0: usize = if x > 0 { x as usize } else { 0 };
        let y0: usize = if y > 0 { y as usize } else { 0 };
        let xe: i32 = x + w;
        let ye: i32 = y + h;
        let x1: usize = if xe > 0 { if (xe as usize) < self.width { xe as usize } else { self.width } } else { 0 };
        let y1: usize = if ye > 0 { if (ye as usize) < self.height { ye as usize } else { self.height } } else { 0 };
        let mut py: usize = y0;
        while py < y1
            invariant
                self.wf(),
                self.buf@.len() == old_pixels.len(),
                self.width == wd,
                self.height == ht,
                alpha != 0,
                w > 0,
                h > 0,
                x + w <= i32::MAX,
                y + h <= i32::MAX,
                x0 == (if x > 0 { x as int } else { 0 }),
                y0 == (if y > 0 { y as int } else { 0 }),
                x1 as int == (if x + w > 0 { if x + w < wd { x + w } else { wd } } else { 0 }),
                y1 as int == (if y + h > 0 { if y + h < ht { y + h } else { ht } } else { 0 }),
                y0 <= py,
                py <= y1 || y1 < y0,
                forall|i: int| 0 <= i < old_pixels.len() ==> #[trigger] self.buf@[i] == if in_rect(
                    wd,
                    ht,
                    i,
                    x as int,
                    y as int,
                    w as int,
                    h as int,
                ) && i / wd < py {
                    spec_pack_rgb(spec_blend(spec_unpack_rgb(old_pixels[i]), rgb, alpha))
                } else {
                    old_pixels[i]
                },
            decreases y1 - py,
        {
            let mut px: usize = x0;
            while px < x1
                invariant
                    self.wf(),
                    self.buf@.len() == old_pixels.len(),
                    self.width == wd,
                    self.height == ht,
                    alpha != 0,
                    w > 0,
                    h > 0,
                    x + w <= i32::MAX,
                    y + h <= i32::MAX,
                    x0 == (if x > 0 { x as int } else { 0 }),
                    y0 == (if y > 0 { y as int } else { 0 }),
                    x1 as int == (if x + w > 0 { if x + w < wd { x + w } else { wd } } else { 0 }),
                    y1 as int == (if y + h > 0 { if y + h < ht { y + h } else { ht } } else { 0 }),
                    y0 <= py < y1,
                    x0 <= px,
                    px <= x1 || x1 < x0,
                    forall|i: int| 0 <= i < old_pixels.len() ==> #[trigger] self.buf@[i] == if in_rect(
                        wd,
                        ht,
                        i,
                        x as int,
                        y as int,
                        w as int,
                        h as int,
                    ) && (i / wd < py || (i / wd == py && i % wd < px)) {
                        spec_pack_rgb(spec_blend(spec_unpack_rgb(old_pixels[i]), rgb, alpha))
                    } else {
                        old_pixels[i]
                    },
                decreases x1 - px,
            {
                let ghost before = self.buf@;
                self.blend(px as i32, py as i32, rgb, alpha);
                proof {
                    assert forall|i: int| 0 <= i < old_pixels.len() implies #[trigger] self.buf@[i] == if in_rect(
                        wd,
                        ht,
                        i,
                        x as int,
                        y as int,
                        w as int,
                        h as int,
                    ) && (i / wd < py || (i / wd == py && i % wd < px + 1)) {
                        spec_pack_rgb(spec_blend(spec_unpack_rgb(old_pixels[i]), rgb, alpha))
                    } else {
                        old_pixels[i]
                    } by {
                        assert(before[i] == if in_rect(wd, ht, i, x as int, y as int, w as int, h as int) && (i / wd < py
                            || (i / wd == py && i % wd < px)) {
                            spec_pack_rgb(spec_blend(spec_unpack_rgb(old_pixels[i]), rgb, alpha))
                        } else {
                            old_pixels[i]
                        });
                        assert(self.buf@[i] == spec_blend_at(before, wd, ht, px as int, py as int, rgb, alpha)[i]);
                        assert(0 <= i % wd < wd);
                        if i / wd == py && i % wd == px {
                            assert(in_rect(wd, ht, i, px as int, py as int, 1, 1));
                            assert(in_rect(wd, ht, i, x as int, y as int, w as int, h as int));
                        } else {
                            assert(!in_rect(wd, ht, i, px as int, py as int, 1, 1));
                        }
                    }
                }
                px += 1;
            }
            proof {
                assert forall|i: int| 0 <= i < old_pixels.len() implies #[trigger] self.buf@[i] == if in_rect(
                    wd,
                    ht,
                    i,
                    x as int,
                    y as int,
                    w as int,
                    h as int,
                ) && i / wd < py + 1 {
                    spec_pack_rgb(spec_blend(spec_unpack_rgb(old_pixels[i]), rgb, alpha))
                } else {
                    old_pixels[i]
                } by {
                    if in_rect(wd, ht, i, x as int, y as int, w as int, h as int) && i / wd == py {
                        assert(0 <= i % wd < wd);
                    }
                }
            }
            py += 1;
        }
        proof {
            assert forall|i: int| 0 <= i < old_pixels.len() implies self.buf@[i] == target[i] by {
                if in_rect(wd, ht, i, x as int, y as int, w as int, h as int) {
                    assert(i / wd < ht);
                }
            }
            assert(self.buf@ =~= target);
        }
    }

    /// Blends a glyph bitmap in `fg` over the cell whose top-left corner is
    /// `(cell_x, cell_y)`, with the baseline `ascent` pixels below the top.
    /// Spaces and NULs draw nothing.
    pub fn draw_glyph(&mut self, glyph: &Glyph, ch: char, cell_x: i32, cell_y: i32, ascent: i32, fg: Rgb)
        requires
            old(self).wf(),
            glyph_fits(*glyph, cell_x as int, cell_y as int, ascent as int),
        ensures
            final(self).wf(),
            final(self).pixels() == if ch == ' ' || ch == '\0' {
                old(self).pixels()
            } else {
                spec_glyph(
                    old(self).pixels(),
                    old(self).spec_width(),
                    old(self).spec_height(),
                    glyph_origin(*glyph, cell_x as int, cell_y as int, ascent as int).0,
                    glyph_origin(*glyph, cell_x as int, cell_y as int, ascent as int).1,
                    glyph.width as int,
                    glyph.height as int,
                    glyph.coverage@,
                    fg,
                )
            },
            final(self).spec_width() == old(self).spec_width(),
            final(self).spec_height() == old(self).spec_height(),
    {
        if ch == ' ' || ch == '\0' {
            return;
        }
        let ghost old_pixels = self.buf@;
        let ghost wd = self.width as int;
        let ghost ht = self.height as int;
        let gw: usize = glyph.width;
        let gh: usize = glyph.height;
        let ghost cov = glyph.coverage@;
        let top: i32 = cell_y + ascent - glyph.ymin - gh as i32;
        let left: i32 = cell_x + glyph.xmin;
        let ghost target = spec_glyph(old_pixels, wd, ht, left as int, top as int, gw as int, gh as int, cov, fg);
        if gw == 0 || gh == 0 {
            assert(self.buf@ =~= target);
            return;
        }
        let clen: usize = glyph.coverage.len();
        let mut by: usize = 0;
        while by < gh
            invariant
                clen == cov.len(),
                self.wf(),
                self.buf@.len() == old_pixels.len(),
                self.width == wd,
                self.height == ht,
                gw == glyph.width,
                gh == glyph.height,
                cov == glyph.coverage@,
                cov.len() >= gw * gh,
                fits_i32(left + gw),
                fits_i32(top + gh),
                gw <= i32::MAX,
                gh <= i32::MAX,
                by <= gh,
                forall|i: int| 0 <= i < old_pixels.len() ==> #[trigger] self.buf@[i] == if on_surface(wd, ht, i)
                    && glyph_ink(cov, gw as int, gh as int, i % wd - left, i / wd - top) && i / wd - top < by {
                    spec_pack_rgb(spec_blend(spec_unpack_rgb(old_pixels[i]), fg, cov[(i / wd - top) * gw + (i % wd - left)]))
                } else {
                    old_pixels[i]
                },
            decreases gh - by,
        {
            let mut bx: usize = 0;
            while bx < gw
                invariant
                    clen == cov.len(),
                    self.wf(),
                    self.buf@.len() == old_pixels.len(),
                    self.width == wd,
                    self.height == ht,
                    gw == glyph.width,
                    gh == glyph.height,
                    cov == glyph.coverage@,
                    cov.len() >= gw * gh,
                    fits_i32(left + gw),
                    fits_i32(top + gh),
                    gw <= i32::MAX,
                    gh <= i32::MAX,
                    by < gh,
                    bx <= gw,
                    forall|i: int| 0 <= i < old_pixels.len() ==> #[trigger] self.buf@[i] == if on_surface(wd, ht, i)
                        && glyph_ink(cov, gw as int, gh as int, i % wd - left, i / wd - top) && (i / wd - top < by
                        || (i / wd - top == by && i % wd - left < bx)) {
                        spec_pack_rgb(spec_blend(spec_unpack_rgb(old_pixels[i]), fg, cov[(i / wd - top) * gw + (i % wd - left)]))
                    } else {
                        old_pixels[i]
                    },
                decreases gw - bx,
            {
                proof {
                    lemma_pixel_index(gw as int, gh as int, bx as int, by as int);
                }
                let c: u8 = glyph.coverage[by * gw + bx];
                if c != 0 {
                    self.blend(left + bx as i32, top + by as i32, fg, c);
                }
                bx += 1;
            }
            by += 1;
        }
        proof {
            assert(self.buf@ =~= target);
        }
    }
}

/// `pixels` with `rgb` blended at coverage `alpha` over every on-surface
/// pixel of the rect `(x, y, w, h)`; a zero coverage changes nothing.
pub open spec fn spec_fill_alpha(
    pixels: Seq<u32>,
    width: int,
    height: int,
    x: int,
    y: int,
    w: int,
    h: int,
    rgb: Rgb,
    alpha: u8,
) -> Seq<u32> {
    Seq::new(
        pixels.len(),
        |i: int|
            if alpha != 0 && in_rect(width, height, i, x, y, w, h) {
                spec_pack_rgb(spec_blend(spec_unpack_rgb(pixels[i]), rgb, alpha))
            } else {
                pixels[i]
            },
    )
}

/// `pixels` with `glyph` drawn for `ch` in the cell whose top-left corner
/// is `(cell_x, cell_y)`, as `draw_glyph` draws it.
pub open spec fn spec_glyph_in_cell(
    pixels: Seq<u32>,
    width: int,
    height: int,
    glyph: Glyph,
    ch: char,
    cell_x: int,
    cell_y: int,
    ascent: int,
    fg: Rgb,
) -> Seq<u32> {
    if ch == ' ' || ch == '\0' {
        pixels
    } else {
        let origin = glyph_origin(glyph, cell_x, cell_y, ascent);
        spec_glyph(pixels, width, height, origin.0, origin.1, glyph.width as int, glyph.height as int, glyph.coverage@, fg)
    }
}

/// How many characters of a run of `n` fit between the pen at `x` and
/// `max_x`, one cell of `cell_w` pixels each.
pub open spec fn text_fit_count(x: int, n: int, cell_w: int, max_x: int) -> int {
    if max_x < x {
        0
    } else if (max_x - x) / cell_w < n {
        (max_x - x) / cell_w
    } else {
        n
    }
}

/// `pixels` with the first `k` characters of a text run drawn, character
/// `j` with glyph `glyphs[j]` in the cell at `x + j * cell_w`.
pub open spec fn spec_text(
    pixels: Seq<u32>,
    width: int,
    height: int,
    glyphs: Seq<Glyph>,
    chars: Seq<char>,
    x: int,
    y: int,
    cell_w: int,
    ascent: int,
    fg: Rgb,
    k: nat,
) -> Seq<u32>
    decreases k,
{
    if k == 0 {
        pixels
    } else {
        spec_glyph_in_cell(
            spec_text(pixels, width, height, glyphs, chars, x, y, cell_w, ascent, fg, (k - 1) as nat),
            width,
            height,
            glyphs[k - 1],
            chars[k - 1],
            x + (k - 1) * cell_w,
            y,
            ascent,
            fg,
        )
    }
}

/// The run's glyphs can be drawn without overflowing `i32`: one glyph per
/// character, and each glyph that fits before `max_x` fits its cell.
pub open spec fn text_fits(glyphs: Seq<Glyph>, chars: Seq<char>, x: int, y: int, cell_w: int, ascent: int, max_x: int) -> bool {
    &&& cell_w >= 1
    &&& glyphs.len() == chars.len()
    &&& forall|j: int| 0 <= j < text_fit_count(x, chars.len() as int, cell_w, max_x) ==> glyph_fits(
        #[trigger] glyphs[j],
        x + j * cell_w,
        y,
        ascent,
    )
}

/// Whether `glyph` placed in the cell at `(cell_x, cell_y)` stays within
/// `i32`, as `glyph_fits` states it.
pub fn glyph_fits_check(glyph: &Glyph, cell_x: i32, cell_y: i32, ascent: i32) -> (b: bool)
    ensures
        b == glyph_fits(*glyph, cell_x as int, cell_y as int, ascent as int),
{
    let w: u64 = glyph.width as u64;
    let h: u64 = glyph.height as u64;
    if w > 0x7FFF_FFFF || h > 0x7FFF_FFFF {
        return false;
    }
    proof {
        assert(w * h <= 0x7FFF_FFFF * 0x7FFF_FFFF) by (nonlinear_arith)
            requires
                w <= 0x7FFF_FFFF,
                h <= 0x7FFF_FFFF,
        ;
    }
    if (glyph.coverage.len() as u64) < w * h {
        return false;
    }
    let base: i64 = cell_y as i64 + ascent as i64;
    let below: i64 = base - glyph.ymin as i64;
    let top: i64 = below - h as i64;
    let left: i64 = cell_x as i64 + glyph.xmin as i64;
    let lo: i64 = -0x8000_0000;
    let hi: i64 = 0x7FFF_FFFF;
    lo <= base && base <= hi && lo <= below && below <= hi && lo <= top && top <= hi && lo <= left && left <= hi
        && left + w as i64 <= hi && top + h as i64 <= hi && lo <= left + w as i64 && lo <= top + h as i64
}

/// Whether a text run meets `text_fits`: a positive cell width, one glyph
/// per character, and each glyph drawn fitting its cell.
pub fn text_fits_check(
    glyphs: &Vec<Glyph>,
    x: i32,
    y: i32,
    text: &str,
    cell_w: i32,
    ascent: i32,
    max_x: i32,
) -> (b: bool)
    ensures
        b == text_fits(glyphs@, text@, x as int, y as int, cell_w as int, ascent as int, max_x as int),
{
    let n: usize = text.unicode_len();
    if cell_w < 1 || glyphs.len() != n {
        return false;
    }
    let room: i64 = max_x as i64 - x as i64;
    let k: usize = if room < 0 {
        0
    } else {
        let q: i64 = room / (cell_w as i64);
        if (q as u64) < (n as u64) { q as usize } else { n }
    };
    let ghost count = text_fit_count(x as int, n as int, cell_w as int, max_x as int);
    proof {
        if room >= 0 {
            assert((room / (cell_w as i64)) as int == (max_x - x) / (cell_w as int));
        }
    }
    assert(k as int == count);
    let mut j: usize = 0;
    let mut pen: i32 = x;
    while j < k
        invariant
            cell_w >= 1,
            glyphs@.len() == n,
            n == text@.len(),
            k as int == count,
            count == text_fit_count(x as int, n as int, cell_w as int, max_x as int),
            k <= n,
            j <= k,
            pen == x + j * cell_w,
            forall|i: int| 0 <= i < j ==> glyph_fits(#[trigger] glyphs@[i], x + i * cell_w, y as int, ascent as int),
        decreases k - j,
    {
        proof {
            let (jj, cw, r) = (j as int, cell_w as int, max_x - x);
            assert(jj * cw + cw <= r) by (nonlinear_arith)
                requires
                    0 <= jj < r / cw,
                    cw >= 1,
                    r >= 0,
            ;
        }
        if !glyph_fits_check(&glyphs[j], pen, y, ascent) {
            return false;
        }
        proof {
            assert((j + 1) * cell_w == j * cell_w + cell_w) by (nonlinear_arith);
        }
        pen = pen + cell_w;
        j += 1;
    }
    true
}

/// The pixel words as packed RGB bytes: three per pixel, red first.
pub open spec fn rgb_bytes_of(pixels: Seq<u32>) -> Seq<u8> {
    Seq::new(
        3 * pixels.len(),
        |j: int|
            {
                let c = spec_unpack_rgb(pixels[j / 3]);
                if j % 3 == 0 {
                    c.0
                } else if j % 3 == 1 {
                    c.1
                } else {
                    c.2
                }
            },
    )
}

/// Converts `0x00RRGGBB` pixel words to the packed RGB bytes of an
/// 8-bit RGB image, row-major like the buffer.
pub fn rgb_bytes(pixels: &Vec<u32>) -> (out: Vec<u8>)
    requires
        3 * pixels@.len() <= usize::MAX,
    ensures
        out@ == rgb_bytes_of(pixels@),
{
    let n: usize = pixels.len();
    let mut out: Vec<u8> = Vec::new();
    let mut i: usize = 0;
    while i < n
        invariant
            n == pixels@.len(),
            3 * n <= usize::MAX,
            i <= n,
            out@.len() == 3 * i,
            forall|j: int| 0 <= j < 3 * i ==> #[trigger] out@[j] == rgb_bytes_of(pixels@)[j],
        decreases n - i,
    {
        let (r, g, b) = color::unpack_rgb(pixels[i]);
        let ghost before = out@;
        out.push(r);
        out.push(g);
        out.push(b);
        proof {
            assert forall|j: int| 0 <= j < 3 * (i + 1) implies #[trigger] out@[j] == rgb_bytes_of(pixels@)[j] by {
                if j >= 3 * i {
                    assert(j / 3 == i);
                    assert(j % 3 == j - 3 * i);
                } else {
                    assert(out@[j] == before[j]);
                }
            }
        }
        i += 1;
    }
    proof {
        assert(out@ =~= rgb_bytes_of(pixels@));
    }
    out
}

/// `text` cut to at most `max_cells` characters, the last kept one
/// replaced by an ellipsis when anything was cut and more than one cell is
/// available.
pub open spec fn spec_truncate_cells(text: Seq<char>, max_cells: int) -> Seq<char> {
    if text.len() <= max_cells {
        text
    } else if max_cells <= 1 {
        text.take(max_cells)
    } else {
        text.take(max_cells - 1).push('…')
    }
}

/// Truncates `text` with an ellipsis so it fits within `max_cells` columns.
pub fn truncate_cells(text: &str, max_cells: usize) -> (out: String)
    ensures
        out@ == spec_truncate_cells(text@, max_cells as int),
{
    let count: usize = text.unicode_len();
    if count <= max_cells {
        return String::from_str(text);
    }
    if max_cells <= 1 {
        let head = text.substring_char(0, max_cells);
        proof {
            assert(head@ =~= text@.take(max_cells as int));
        }
        return String::from_str(head);
    }
    let head = text.substring_char(0, max_cells - 1);
    let mut out = String::from_str(head);
    let ellipsis = "…";
    proof {
        reveal_strlit("…");
    }
    out.append(ellipsis);
    proof {
        assert(out@ =~= text@.take(max_cells - 1).push('…'));
    }
    out
}

/// A truncated label fits its cells: it is never longer than
/// `max_cells`, it is the text itself when the text fits, and otherwise it
/// keeps the text's leading characters, ending in an ellipsis when more
/// than one cell is available.
pub proof fn lemma_truncate_fits(text: Seq<char>, max_cells: int)
    requires
        max_cells >= 0,
    ensures
        spec_truncate_cells(text, max_cells).len() <= max_cells,
        text.len() <= max_cells ==> spec_truncate_cells(text, max_cells) == text,
        text.len() > max_cells > 1 ==> {
            let out = spec_truncate_cells(text, max_cells);
            &&& out.len() == max_cells
            &&& out.last() == '…'
            &&& out.take(max_cells - 1) == text.take(max_cells - 1)
        },
        text.len() > max_cells && max_cells <= 1 ==> spec_truncate_cells(text, max_cells) == text.take(max_cells),
{
    if text.len() > max_cells > 1 {
        let out = spec_truncate_cells(text, max_cells);
        assert(out.take(max_cells - 1) =~= text.take(max_cells - 1));
    }
}

} // verus!
