//! The drawing canvas: a fixed-size RGBA pixel buffer, brush configuration,
//! and the per-pixel compositing step of the brush rasterizer.
//!
//! The continuous brush geometry (disc enumeration, falloff intensity) is
//! floating-point work done by the embedding application; it hands each
//! covered pixel position and its 8-bit coverage alpha to
//! [`Canvas::apply_brush_pixel`], which owns the boundary handling and the
//! blend.

use vstd::prelude::*;

use crate::math::Scalar;

verus! {

/// A premultiplied RGBA color, one byte per channel.
#[derive(Clone, Copy, Debug, PartialEq, Eq, Structural)]
pub struct Rgba {
    pub r: u8,
    pub g: u8,
    pub b: u8,
    pub a: u8,
}

/// The shape of the brush kernel.
#[derive(Clone, Copy, Debug, PartialEq, Eq, Structural)]
pub enum BrushType {
    Hard,
    Smooth,
}

/// A draw operation was invoked outside the canvas extent.
#[derive(Clone, Copy, Debug, PartialEq, Eq, Structural)]
pub enum CanvasError {
    OutOfBoundsError,
}

/// The scalar code of the default brush radius.
pub const DEFAULT_BRUSH_SIZE: Scalar = 0x3FC0_0000;

/// The scalar code of the default brush smoothness.
pub const DEFAULT_BRUSH_SMOOTHNESS: Scalar = 0x4248_0000;

/// The scalar code of the default brush intensity.
pub const DEFAULT_BRUSH_INTENSITY: Scalar = 0x4126_6666;

/// One channel of gamma-space "over" compositing: the bottom channel scaled
/// by `keep` parts in 255 (rounding to nearest), plus the top channel,
/// saturating at 255.
pub open spec fn blend_channel(under: u8, over: u8, keep: int) -> u8 {
    let scaled = (under * keep + 127) / 255;
    if scaled + over >= 256 {
        255u8
    } else {
        (scaled + over) as u8
    }
}

/// Gamma-space "over" compositing of premultiplied colors: `over` on top of
/// `under`, every channel keeping `255 - over.a` parts in 255 of the bottom
/// color.
pub open spec fn blend_spec(under: Rgba, over: Rgba) -> Rgba {
    let keep = 255 - over.a;
    Rgba {
        r: blend_channel(under.r, over.r, keep),
        g: blend_channel(under.g, over.g, keep),
        b: blend_channel(under.b, over.b, keep),
        a: blend_channel(under.a, over.a, keep),
    }
}

/// The paint color carried at a given coverage alpha, channels taken as
/// already premultiplied.
pub open spec fn paint_at(color: Rgba, alpha: u8) -> Rgba {
    Rgba { r: color.r, g: color.g, b: color.b, a: alpha }
}

/// Relies on egui's `Color32::blend`: gamma-space "over" compositing that
/// keeps `(c * (255 - a_top) + 127) / 255` of each bottom channel and
/// saturating-adds the top channel.
#[verifier::external_body]
fn blend_color(under: Rgba, over: Rgba) -> (r: Rgba)
    ensures
        r == blend_spec(under, over),
{
    let u = egui::Color32::from_rgba_premultiplied(under.r, under.g, under.b, under.a);
    let o = egui::Color32::from_rgba_premultiplied(over.r, over.g, over.b, over.a);
    let c = u.blend(o);
    Rgba { r: c.r(), g: c.g(), b: c.b(), a: c.a() }
}

/// One brush-kernel sample: a pixel position and the coverage alpha the
/// falloff kernel gave it.
#[derive(Clone, Copy, Debug, PartialEq, Eq, Structural)]
pub struct BrushSample {
    pub x: i32,
    pub y: i32,
    pub alpha: u8,
}

/// A brush-kernel sample at `(x, y)` lands on a buffer of the given length
/// and width: the column is inside the canvas, the row is not above it, and
/// the row-major position falls inside the buffer.
pub open spec fn sample_lands(width: int, len: int, x: int, y: int) -> bool {
    &&& 0 <= x < width
    &&& 0 <= y
    &&& x + width * y < len
}

/// The pixel buffer after one brush-kernel sample: the landed-on pixel gets
/// the paint color at the sample's alpha blended over it; a sample outside
/// the buffer changes nothing.
pub open spec fn apply_sample_spec(view: Seq<Rgba>, width: int, paint: Rgba, s: BrushSample) -> Seq<
    Rgba,
> {
    if sample_lands(width, view.len() as int, s.x as int, s.y as int) {
        view.update(
            s.x + width * s.y,
            blend_spec(view[s.x + width * s.y], paint_at(paint, s.alpha)),
        )
    } else {
        view
    }
}

/// The pixel buffer after a whole run of brush-kernel samples, applied first
/// to last.
pub open spec fn apply_samples_spec(
    view: Seq<Rgba>,
    width: int,
    paint: Rgba,
    samples: Seq<BrushSample>,
) -> Seq<Rgba>
    decreases samples.len(),
{
    if samples.len() == 0 {
        view
    } else {
        apply_sample_spec(
            apply_samples_spec(view, width, paint, samples.drop_last()),
            width,
            paint,
            samples.last(),
        )
    }
}

/// A fixed-size drawing surface: a row-major pixel buffer, the brush
/// configuration, and the two fixed colors strokes are made of.
#[derive(Debug)]
pub struct Canvas {
    pixels: Vec<Rgba>,
    width: usize,
    height: usize,
    brush_type: BrushType,
    brush_size: Scalar,
    brush_smoothness: Scalar,
    brush_intensity: Scalar,
    blank_color: Rgba,
    paint_color: Rgba,
}

impl Canvas {
    /// The pixel buffer, row-major.
    pub closed spec fn view(&self) -> Seq<Rgba> {
        self.pixels@
    }

    /// The canvas width in pixels.
    pub closed spec fn spec_width(&self) -> int {
        self.width as int
    }

    /// The canvas height in pixels.
    pub closed spec fn spec_height(&self) -> int {
        self.height as int
    }

    /// The color a cleared pixel holds.
    pub closed spec fn spec_blank_color(&self) -> Rgba {
        self.blank_color
    }

    /// The color strokes are painted with.
    pub closed spec fn spec_paint_color(&self) -> Rgba {
        self.paint_color
    }

    /// The brush kernel shape.
    pub closed spec fn spec_brush_type(&self) -> BrushType {
        self.brush_type
    }

    /// The scalar code of the brush radius.
    pub closed spec fn spec_brush_size(&self) -> Scalar {
        self.brush_size
    }

    /// The scalar code of the brush smoothness.
    pub closed spec fn spec_brush_smoothness(&self) -> Scalar {
        self.brush_smoothness
    }

    /// The scalar code of the brush intensity.
    pub closed spec fn spec_brush_intensity(&self) -> Scalar {
        self.brush_intensity
    }

    /// The buffer holds exactly one pixel per position.
    pub open spec fn wf(&self) -> bool {
        self.view().len() == self.spec_width() * self.spec_height()
    }

    /// The configuration the pixel buffer does not depend on: dimensions,
    /// brush settings and fixed colors.
    pub open spec fn same_config(&self, other: &Canvas) -> bool {
        &&& self.spec_width() == other.spec_width()
        &&& self.spec_height() == other.spec_height()
        &&& self.spec_blank_color() == other.spec_blank_color()
        &&& self.spec_paint_color() == other.spec_paint_color()
        &&& self.spec_brush_type() == other.spec_brush_type()
        &&& self.spec_brush_size() == other.spec_brush_size()
        &&& self.spec_brush_smoothness() == other.spec_brush_smoothness()
        &&& self.spec_brush_intensity() == other.spec_brush_intensity()
    }

    /// A new canvas of the given `[width, height]`, every pixel the blank
    /// color, with the default smooth brush.
    pub fn new(blank_color: Rgba, paint_color: Rgba, size: [usize; 2]) -> (r: Canvas)
        requires
            size[0] * size[1] <= usize::MAX,
        ensures
            r.wf(),
            r.spec_width() == size[0],
            r.spec_height() == size[1],
            forall|k: int| 0 <= k < r.view().len() ==> r.view()[k] == blank_color,
            r.spec_blank_color() == blank_color,
            r.spec_paint_color() == paint_color,
            r.spec_brush_type() == BrushType::Smooth,
            r.spec_brush_size() == DEFAULT_BRUSH_SIZE,
            r.spec_brush_smoothness() == DEFAULT_BRUSH_SMOOTHNESS,
            r.spec_brush_intensity() == DEFAULT_BRUSH_INTENSITY,
    {
        let total = size[0] * size[1];
        let mut pixels: Vec<Rgba> = Vec::new();
        let mut k: usize = 0;
        while k < total
            invariant
                k <= total,
                pixels@.len() == k,
                forall|t: int| 0 <= t < k ==> pixels@[t] == blank_color,
            decreases total - k,
        {
            pixels.push(blank_color);
            k = k + 1;
        }
        Canvas {
            pixels,
            width: size[0],
            height: size[1],
            brush_type: BrushType::Smooth,
            brush_size: DEFAULT_BRUSH_SIZE,
            brush_smoothness: DEFAULT_BRUSH_SMOOTHNESS,
            brush_intensity: DEFAULT_BRUSH_INTENSITY,
            blank_color,
            paint_color,
        }
    }

    /// Overwrites every pixel with the given color.
    pub fn fill(&mut self, val: Rgba)
        requires
            old(self).wf(),
        ensures
            final(self).wf(),
            final(self).same_config(old(self)),
            final(self).view().len() == old(self).view().len(),
            forall|k: int| 0 <= k < final(self).view().len() ==> final(self).view()[k] == val,
    {
        let total = self.pixels.len();
        let mut k: usize = 0;
        while k < total
            invariant
                k <= total,
                total == self.view().len(),
                self.wf(),
                self.same_config(old(self)),
                forall|t: int| 0 <= t < k ==> self.view()[t] == val,
            decreases total - k,
        {
            self.pixels.set(k, val);
            k = k + 1;
        }
    }

    /// Resets every pixel to the blank color.
    pub fn clear(&mut self)
        requires
            old(self).wf(),
        ensures
            final(self).wf(),
            final(self).same_config(old(self)),
            final(self).view().len() == old(self).view().len(),
            forall|k: int|
                0 <= k < final(self).view().len() ==> final(self).view()[k] == old(
                    self,
                ).spec_blank_color(),
    {
        let blank = self.blank_color;
        self.fill(blank);
    }

    /// A read-only snapshot of the pixel buffer.
    pub fn get_pixels(&self) -> (r: Vec<Rgba>)
        ensures
            r@ == self.view(),
    {
        let total = self.pixels.len();
        let mut out: Vec<Rgba> = Vec::new();
        let mut k: usize = 0;
        while k < total
            invariant
                k <= total,
                total == self.view().len(),
                out@.len() == k,
                forall|t: int| 0 <= t < k ==> out@[t] == self.view()[t],
            decreases total - k,
        {
            out.push(self.pixels[k]);
            k = k + 1;
        }
        proof {
            assert(out@ =~= self.view());
        }
        out
    }

    /// The canvas width in pixels.
    pub fn width(&self) -> (r: usize)
        ensures
            r == self.spec_width(),
    {
        self.width
    }

    /// The canvas height in pixels.
    pub fn height(&self) -> (r: usize)
        ensures
            r == self.spec_height(),
    {
        self.height
    }

    /// The color strokes are painted with.
    pub fn paint_color(&self) -> (r: Rgba)
        ensures
            r == self.spec_paint_color(),
    {
        self.paint_color
    }

    /// The color a cleared pixel holds.
    pub fn blank_color(&self) -> (r: Rgba)
        ensures
            r == self.spec_blank_color(),
    {
        self.blank_color
    }

    /// Selects the brush kernel shape.
    pub fn set_brush_type(&mut self, brush_type: BrushType)
        ensures
            final(self).view() == old(self).view(),
            final(self).spec_brush_type() == brush_type,
            final(self).spec_width() == old(self).spec_width(),
            final(self).spec_height() == old(self).spec_height(),
            final(self).spec_blank_color() == old(self).spec_blank_color(),
            final(self).spec_paint_color() == old(self).spec_paint_color(),
            final(self).spec_brush_size() == old(self).spec_brush_size(),
            final(self).spec_brush_smoothness() == old(self).spec_brush_smoothness(),
            final(self).spec_brush_intensity() == old(self).spec_brush_intensity(),
    {
        self.brush_type = brush_type;
    }

    /// The brush kernel shape.
    pub fn brush_type(&self) -> (r: BrushType)
        ensures
            r == self.spec_brush_type(),
    {
        self.brush_type
    }

    /// Overwrites the scalar code of the brush radius.
    pub fn set_brush_size(&mut self, brush_size: Scalar)
        ensures
            final(self).view() == old(self).view(),
            final(self).spec_brush_size() == brush_size,
            final(self).spec_width() == old(self).spec_width(),
            final(self).spec_height() == old(self).spec_height(),
            final(self).spec_blank_color() == old(self).spec_blank_color(),
            final(self).spec_paint_color() == old(self).spec_paint_color(),
            final(self).spec_brush_type() == old(self).spec_brush_type(),
            final(self).spec_brush_smoothness() == old(self).spec_brush_smoothness(),
            final(self).spec_brush_intensity() == old(self).spec_brush_intensity(),
    {
        self.brush_size = brush_size;
    }

    /// The scalar code of the brush radius.
    pub fn brush_size(&self) -> (r: Scalar)
        ensures
            r == self.spec_brush_size(),
    {
        self.brush_size
    }

    /// Overwrites the scalar code of the brush smoothness.
    pub fn set_brush_smoothness(&mut self, brush_smoothness: Scalar)
        ensures
            final(self).view() == old(self).view(),
            final(self).spec_brush_smoothness() == brush_smoothness,
            final(self).spec_width() == old(self).spec_width(),
            final(self).spec_height() == old(self).spec_height(),
            final(self).spec_blank_color() == old(self).spec_blank_color(),
            final(self).spec_paint_color() == old(self).spec_paint_color(),
            final(self).spec_brush_type() == old(self).spec_brush_type(),
            final(self).spec_brush_size() == old(self).spec_brush_size(),
            final(self).spec_brush_intensity() == old(self).spec_brush_intensity(),
    {
        self.brush_smoothness = brush_smoothness;
    }

    /// The scalar code of the brush smoothness.
    pub fn brush_smoothness(&self) -> (r: Scalar)
        ensures
            r == self.spec_brush_smoothness(),
    {
        self.brush_smoothness
    }

    /// Overwrites the scalar code of the brush intensity.
    pub fn set_brush_intensity(&mut self, brush_intensity: Scalar)
        ensures
            final(self).view() == old(self).view(),
            final(self).spec_brush_intensity() == brush_intensity,
            final(self).spec_width() == old(self).spec_width(),
            final(self).spec_height() == old(self).spec_height(),
            final(self).spec_blank_color() == old(self).spec_blank_color(),
            final(self).spec_paint_color() == old(self).spec_paint_color(),
            final(self).spec_brush_type() == old(self).spec_brush_type(),
            final(self).spec_brush_size() == old(self).spec_brush_size(),
            final(self).spec_brush_smoothness() == old(self).spec_brush_smoothness(),
    {
        self.brush_intensity = brush_intensity;
    }

    /// The scalar code of the brush intensity.
    pub fn brush_intensity(&self) -> (r: Scalar)
        ensures
            r == self.spec_brush_intensity(),
    {
        self.brush_intensity
    }

    /// A brush-kernel sample at `(x, y)` lands on this canvas's buffer.
    pub open spec fn brush_pixel_painted(&self, x: int, y: int) -> bool {
        sample_lands(self.spec_width(), self.view().len() as int, x, y)
    }

    /// Applies one brush-kernel sample: blends the paint color at the given
    /// coverage alpha over the pixel at `(x, y)`; positions outside the
    /// buffer are skipped and leave the canvas untouched.
    pub fn apply_brush_pixel(&mut self, x: i32, y: i32, alpha: u8)
        requires
            old(self).wf(),
        ensures
            final(self).wf(),
            final(self).same_config(old(self)),
            final(self).view() == apply_sample_spec(
                old(self).view(),
                old(self).spec_width(),
                old(self).spec_paint_color(),
                BrushSample { x, y, alpha },
            ),
            !old(self).brush_pixel_painted(x as int, y as int) ==> final(self).view() == old(
                self,
            ).view(),
    {
        let total = self.pixels.len();
        if x >= 0 && (x as usize) < self.width && y >= 0 {
            let xu = x as usize;
            let yu = y as usize;
            match self.width.checked_mul(yu) {
                Some(p) => match p.checked_add(xu) {
                    Some(index) => {
                        if index < total {
                            let under = self.pixels[index];
                            let over = Rgba {
                                r: self.paint_color.r,
                                g: self.paint_color.g,
                                b: self.paint_color.b,
                                a: alpha,
                            };
                            let blended = blend_color(under, over);
                            self.pixels.set(index, blended);
                        }
                    },
                    None => {},
                },
                None => {},
            }
        }
    }

    /// Applies a whole run of brush-kernel samples, first to last: one blend
    /// per sample that lands on the buffer, nothing for the others. The
    /// falloff kernel that produced the samples runs in the embedding
    /// application.
    pub fn apply_brush_samples(&mut self, samples: &Vec<BrushSample>)
        requires
            old(self).wf(),
        ensures
            final(self).wf(),
            final(self).same_config(old(self)),
            final(self).view() == apply_samples_spec(
                old(self).view(),
                old(self).spec_width(),
                old(self).spec_paint_color(),
                samples@,
            ),
    {
        let ghost orig = *self;
        let total = samples.len();
        let mut i: usize = 0;
        while i < total
            invariant
                i <= total,
                total == samples@.len(),
                self.wf(),
                self.same_config(&orig),
                self.view() == apply_samples_spec(
                    orig.view(),
                    orig.spec_width(),
                    orig.spec_paint_color(),
                    samples@.take(i as int),
                ),
            decreases total - i,
        {
            let s = samples[i];
            self.apply_brush_pixel(s.x, s.y, s.alpha);
            proof {
                assert(samples@.take(i + 1).drop_last() =~= samples@.take(i as int));
                assert(samples@.take(i + 1).last() == samples@[i as int]);
            }
            i = i + 1;
        }
        proof {
            assert(samples@.take(total as int) =~= samples@);
        }
    }
}

} // verus!
