//! Heading rasterization: an RGB pixel buffer is filled with a background
//! color, then glyph coverage is blended over it as gray intensity. Glyph
//! layout — font loading, scaling, coverage sampling — is the host's
//! concern and arrives here as plain coverage pixels; this module owns the
//! buffer arithmetic, the blend formula and the truncation rule that stops
//! laying out glyphs once one falls outside the buffer.

use vstd::prelude::*;

verus! {

/// One covered pixel of a glyph, relative to the glyph's bounding box
/// corner, with its coverage quantized to an 8-bit intensity.
#[derive(Debug, Clone, Copy, PartialEq, Eq, Structural)]
pub struct GlyphPixel {
    pub dx: u32,
    pub dy: u32,
    pub cov: u8,
}

/// The ghost image of a laid-out glyph: bounding-box corner and covered
/// pixels.
pub ghost struct GlyphV {
    pub min_x: u32,
    pub min_y: u32,
    pub pixels: Seq<GlyphPixel>,
}

/// A laid-out glyph: the corner of its bounding box in buffer coordinates
/// and its covered pixels.
#[derive(Debug, Clone, PartialEq)]
pub struct GlyphPixels {
    pub min_x: u32,
    pub min_y: u32,
    pub pixels: Vec<GlyphPixel>,
}

impl View for GlyphPixels {
    type V = GlyphV;

    open spec fn view(&self) -> GlyphV {
        GlyphV { min_x: self.min_x, min_y: self.min_y, pixels: self.pixels@ }
    }
}

/// The view of a glyph vector.
pub open spec fn glyphs_view(s: Seq<GlyphPixels>) -> Seq<GlyphV> {
    s.map_values(|g: GlyphPixels| g@)
}

/// An RGB pixel buffer: three bytes per pixel, rows top to bottom.
#[derive(Debug, Clone, PartialEq)]
pub struct PixelBuffer {
    pub width: u32,
    pub height: u32,
    pub data: Vec<u8>,
}

impl PixelBuffer {
    /// Three bytes for each of `width * height` pixels.
    pub open spec fn wf(self) -> bool {
        self.data@.len() == 3 * self.width * self.height
    }
}

/// Byte offset of the red channel of the pixel at `(x, y)`.
pub open spec fn pixel_off(width: u32, x: u32, y: u32) -> int {
    3 * (y * width + x)
}

/// Coverage-weighted blend of a gray source of intensity `v` over `dst`:
/// the source contributes `v` of itself in proportion `v/255`, the
/// destination keeps the rest.
pub open spec fn blend_channel_spec(dst: u8, v: u8) -> int {
    (v * v + dst * (255 - v)) / 255
}

/// The buffer contents after blending intensity `v` into the pixel at
/// `(x, y)`: the pixel's three channels are blended, everything else is
/// untouched.
pub open spec fn blend_data_spec(data: Seq<u8>, width: u32, x: u32, y: u32, v: u8) -> Seq<u8> {
    let off = pixel_off(width, x, y);
    data.update(off, blend_channel_spec(data[off], v) as u8).update(
        off + 1,
        blend_channel_spec(data[off + 1], v) as u8,
    ).update(off + 2, blend_channel_spec(data[off + 2], v) as u8)
}

/// A background fill: every pixel holds the channels `(r, g, b)`.
pub open spec fn fill_spec(width: u32, height: u32, r: u8, g: u8, b: u8) -> Seq<u8> {
    Seq::new(
        (3 * width * height) as nat,
        |i: int| if i % 3 == 0 {
            r
        } else if i % 3 == 1 {
            g
        } else {
            b
        },
    )
}

/// Whether one covered pixel of a glyph falls outside the buffer.
pub open spec fn glyph_pixel_oob(width: u32, height: u32, gl: GlyphV, p: GlyphPixel) -> bool {
    gl.min_x + p.dx >= width || gl.min_y + p.dy >= height
}

/// Whether any covered pixel of the glyph falls outside the buffer.
pub open spec fn glyph_oob(width: u32, height: u32, gl: GlyphV) -> bool {
    exists|k: int|
        0 <= k < gl.pixels.len() && glyph_pixel_oob(width, height, gl, #[trigger] gl.pixels[k])
}

/// The buffer contents after drawing the first `n` covered pixels of one
/// glyph: each in-bounds pixel is blended in order, out-of-bounds pixels
/// are skipped.
pub open spec fn draw_pixels_spec(data: Seq<u8>, width: u32, height: u32, gl: GlyphV, n: int) -> Seq<
    u8,
>
    decreases n,
{
    if n <= 0 {
        data
    } else {
        let d = draw_pixels_spec(data, width, height, gl, n - 1);
        let p = gl.pixels[n - 1];
        if glyph_pixel_oob(width, height, gl, p) {
            d
        } else {
            blend_data_spec(d, width, (gl.min_x + p.dx) as u32, (gl.min_y + p.dy) as u32, p.cov)
        }
    }
}

/// The buffer contents after drawing one whole glyph.
pub open spec fn draw_glyph_spec(data: Seq<u8>, width: u32, height: u32, gl: GlyphV) -> Seq<u8> {
    draw_pixels_spec(data, width, height, gl, gl.pixels.len() as int)
}

/// The buffer contents after laying out a glyph run: glyphs are drawn left
/// to right, and the first glyph with any pixel outside the buffer is the
/// last one drawn — silent truncation, not an error.
pub open spec fn draw_glyphs_spec(data: Seq<u8>, width: u32, height: u32, gls: Seq<GlyphV>) -> Seq<
    u8,
>
    decreases gls.len(),
{
    if gls.len() == 0 {
        data
    } else {
        let d = draw_glyph_spec(data, width, height, gls.first());
        if glyph_oob(width, height, gls.first()) {
            d
        } else {
            draw_glyphs_spec(d, width, height, gls.drop_first())
        }
    }
}

/// Blend one channel: an 8-bit coverage intensity over a destination byte.
pub fn blend_channel(dst: u8, v: u8) -> (r: u8)
    ensures
        r == blend_channel_spec(dst, v),
{
    proof {
        assert(v * v + dst * (255 - v) <= 255 * 255) by (nonlinear_arith)
            requires
                0 <= v <= 255,
                0 <= dst <= 255,
        ;
    }
    let num: u32 = (v as u32) * (v as u32) + (dst as u32) * (255 - v as u32);
    (num / 255) as u8
}

impl PixelBuffer {
    /// A buffer of the given dimensions with every pixel set to the
    /// background color.
    pub fn new_filled(width: u32, height: u32, r: u8, g: u8, b: u8) -> (buf: PixelBuffer)
        requires
            3 * width * height <= usize::MAX,
        ensures
            buf.wf(),
            buf.width == width,
            buf.height == height,
            buf.data@ == fill_spec(width, height, r, g, b),
    {
        proof {
            assert(width * height <= usize::MAX && 3 * (width * height) == 3 * width * height)
                by (nonlinear_arith)
                requires
                    3 * width * height <= usize::MAX,
            ;
        }
        let count: usize = (width as usize) * (height as usize);
        let mut data: Vec<u8> = Vec::new();
        let mut p: usize = 0;
        while p < count
            invariant
                count == width * height,
                3 * width * height <= usize::MAX,
                0 <= p <= count,
                data@.len() == 3 * p,
                forall|j: int|
                    0 <= j < data@.len() ==> data@[j] == (if j % 3 == 0 {
                        r
                    } else if j % 3 == 1 {
                        g
                    } else {
                        b
                    }),
            decreases count - p,
        {
            data.push(r);
            data.push(g);
            data.push(b);
            p = p + 1;
        }
        proof {
            assert(data@ =~= fill_spec(width, height, r, g, b));
        }
        PixelBuffer { width, height, data }
    }

    /// Blend a gray intensity into the pixel at `(x, y)`.
    pub fn blend_pixel(&mut self, x: u32, y: u32, v: u8)
        requires
            old(self).wf(),
            x < old(self).width,
            y < old(self).height,
        ensures
            final(self).wf(),
            final(self).width == old(self).width,
            final(self).height == old(self).height,
            final(self).data@ == blend_data_spec(old(self).data@, old(self).width, x, y, v),
    {
        let n = self.data.len();
        proof {
            assert(3 * (y * self.width + x) + 3 <= 3 * self.width * self.height)
                by (nonlinear_arith)
                requires
                    x < self.width,
                    y < self.height,
            ;
            assert(n == 3 * self.width * self.height);
        }
        let off: usize = 3 * ((y as usize) * (self.width as usize) + (x as usize));
        let b0 = blend_channel(self.data[off], v);
        self.data[off] = b0;
        let b1 = blend_channel(self.data[off + 1], v);
        self.data[off + 1] = b1;
        let b2 = blend_channel(self.data[off + 2], v);
        self.data[off + 2] = b2;
        proof {
            assert(self.data@ =~= blend_data_spec(old(self).data@, old(self).width, x, y, v));
        }
    }

    /// Draw one glyph: blend each covered pixel that lies inside the
    /// buffer, and report whether any fell outside.
    pub fn draw_glyph(&mut self, gl: &GlyphPixels) -> (oob: bool)
        requires
            old(self).wf(),
        ensures
            final(self).wf(),
            final(self).width == old(self).width,
            final(self).height == old(self).height,
            final(self).data@ == draw_glyph_spec(
                old(self).data@,
                old(self).width,
                old(self).height,
                gl@,
            ),
            oob == glyph_oob(old(self).width, old(self).height, gl@),
    {
        let ghost data0 = self.data@;
        let mut oob = false;
        let mut k: usize = 0;
        while k < gl.pixels.len()
            invariant
                self.wf(),
                self.width == old(self).width,
                self.height == old(self).height,
                0 <= k <= gl.pixels@.len(),
                self.data@ == draw_pixels_spec(data0, self.width, self.height, gl@, k as int),
                oob == exists|j: int|
                    0 <= j < k && glyph_pixel_oob(
                        self.width,
                        self.height,
                        gl@,
                        #[trigger] gl.pixels@[j],
                    ),
            decreases gl.pixels@.len() - k,
        {
            let p = gl.pixels[k];
            let px: u64 = gl.min_x as u64 + p.dx as u64;
            let py: u64 = gl.min_y as u64 + p.dy as u64;
            if px >= self.width as u64 || py >= self.height as u64 {
                oob = true;
                proof {
                    assert(glyph_pixel_oob(self.width, self.height, gl@, gl.pixels@[k as int]));
                }
            } else {
                self.blend_pixel(px as u32, py as u32, p.cov);
            }
            k = k + 1;
        }
        proof {
            assert(gl.pixels@.len() as int == gl@.pixels.len() as int);
        }
        oob
    }
}

/// Rasterize a heading: fill a `width` by `height` buffer with the
/// background color, then draw the laid-out glyphs left to right, stopping
/// after the first glyph that falls outside the buffer. The buffer keeps
/// its full dimensions whether or not the run was truncated.
pub fn rasterize_heading(
    width: u32,
    height: u32,
    r: u8,
    g: u8,
    b: u8,
    glyphs: &Vec<GlyphPixels>,
) -> (buf: PixelBuffer)
    requires
        3 * width * height <= usize::MAX,
    ensures
        buf.wf(),
        buf.width == width,
        buf.height == height,
        buf.data@ == draw_glyphs_spec(
            fill_spec(width, height, r, g, b),
            width,
            height,
            glyphs_view(glyphs@),
        ),
{
    let mut buf = PixelBuffer::new_filled(width, height, r, g, b);
    let ghost gls = glyphs_view(glyphs@);
    let ghost data0 = buf.data@;
    let mut gi: usize = 0;
    let mut stopped = false;
    proof {
        assert(gls.skip(0) =~= gls);
    }
    while gi < glyphs.len() && !stopped
        invariant
            buf.wf(),
            buf.width == width,
            buf.height == height,
            gls == glyphs_view(glyphs@),
            gls.len() == glyphs@.len(),
            0 <= gi <= glyphs@.len(),
            stopped ==> buf.data@ == draw_glyphs_spec(data0, width, height, gls),
            !stopped ==> draw_glyphs_spec(buf.data@, width, height, gls.skip(gi as int))
                == draw_glyphs_spec(data0, width, height, gls),
        decreases glyphs@.len() - gi,
    {
        let ghost pre = buf.data@;
        let oob = buf.draw_glyph(&glyphs[gi]);
        proof {
            assert(gls.skip(gi as int).first() == gls[gi as int]);
            assert(gls.skip(gi as int).drop_first() =~= gls.skip(gi as int + 1));
            assert(gls[gi as int] == glyphs@[gi as int]@);
        }
        if oob {
            stopped = true;
        }
        gi = gi + 1;
    }
    proof {
        if !stopped {
            assert(gls.skip(gls.len() as int) =~= Seq::<GlyphV>::empty());
        }
    }
    buf
}

/// The integer scale factor of a heading tier: the rasterization scale is
/// proportional to `12 - tier`, so tier 1 is largest and tier 6 smallest.
pub open spec fn scale_numerator_spec(tier: u8) -> int {
    12 - tier
}

/// The numerator of the font scale for a heading tier, over the fixed
/// denominator 12.
pub fn heading_scale_numerator(tier: u8) -> (r: u8)
    requires
        1 <= tier <= 6,
    ensures
        r == scale_numerator_spec(tier),
{
    12 - tier
}

/// Monotonic heading scale: for the same unscaled glyph advance, a deeper
/// tier never yields a wider scaled advance, since the scale numerator
/// shrinks as the tier grows.
pub proof fn lemma_heading_scale_monotonic(advance: int, t1: u8, t2: u8)
    requires
        0 <= advance,
        1 <= t1 <= t2 <= 6,
    ensures
        scale_numerator_spec(t2) <= scale_numerator_spec(t1),
        advance * scale_numerator_spec(t2) <= advance * scale_numerator_spec(t1),
{
    assert(advance * (12 - t2) <= advance * (12 - t1)) by (nonlinear_arith)
        requires
            0 <= advance,
            1 <= t1 <= t2 <= 6,
    ;
}

} // verus!
