use sketchnet::canvas::{
    BrushSample, BrushType, Canvas, CanvasError, Rgba, DEFAULT_BRUSH_INTENSITY,
    DEFAULT_BRUSH_SIZE, DEFAULT_BRUSH_SMOOTHNESS,
};

const WHITE: Rgba = Rgba { r: 255, g: 255, b: 255, a: 255 };
const BLACK: Rgba = Rgba { r: 0, g: 0, b: 0, a: 255 };

fn small_canvas() -> Canvas {
    Canvas::new(WHITE, BLACK, [4, 3])
}

#[test]
fn canvas_starts_blank_with_default_brush() {
    let c = small_canvas();
    assert_eq!(c.width(), 4);
    assert_eq!(c.height(), 3);
    let pixels = c.get_pixels();
    assert_eq!(pixels.len(), 12);
    for p in pixels {
        assert_eq!(p, WHITE);
    }
    assert_eq!(c.brush_type(), BrushType::Smooth);
    assert_eq!(f32::from_bits(c.brush_size()), 1.5f32);
    assert_eq!(c.brush_size(), DEFAULT_BRUSH_SIZE);
    assert_eq!(f32::from_bits(c.brush_smoothness()), 50.0f32);
    assert_eq!(c.brush_smoothness(), DEFAULT_BRUSH_SMOOTHNESS);
    assert_eq!(f32::from_bits(c.brush_intensity()), 10.4f32);
    assert_eq!(c.brush_intensity(), DEFAULT_BRUSH_INTENSITY);
    assert_eq!(c.blank_color(), WHITE);
    assert_eq!(c.paint_color(), BLACK);
}

#[test]
fn canvas_fill_and_clear() {
    let mut c = small_canvas();
    let red = Rgba { r: 200, g: 10, b: 10, a: 255 };
    c.fill(red);
    assert!(c.get_pixels().iter().all(|p| *p == red));
    c.clear();
    assert!(c.get_pixels().iter().all(|p| *p == WHITE));
}

#[test]
fn canvas_brush_settings_roundtrip() {
    let mut c = small_canvas();
    c.set_brush_type(BrushType::Hard);
    assert_eq!(c.brush_type(), BrushType::Hard);
    c.set_brush_size(3.25f32.to_bits());
    assert_eq!(f32::from_bits(c.brush_size()), 3.25);
    c.set_brush_smoothness(12.0f32.to_bits());
    assert_eq!(f32::from_bits(c.brush_smoothness()), 12.0);
    c.set_brush_intensity(0.75f32.to_bits());
    assert_eq!(f32::from_bits(c.brush_intensity()), 0.75);
}

#[test]
fn brush_pixel_full_alpha_paints_opaque() {
    let mut c = small_canvas();
    c.apply_brush_pixel(2, 1, 255);
    let pixels = c.get_pixels();
    for (k, p) in pixels.iter().enumerate() {
        if k == 2 + 4 * 1 {
            assert_eq!(*p, BLACK);
        } else {
            assert_eq!(*p, WHITE);
        }
    }
}

#[test]
fn brush_pixel_matches_egui_blend() {
    // The compositing must be egui's, not the identity: blend a half-alpha
    // black sample over white and compare channel by channel.
    let mut c = small_canvas();
    c.apply_brush_pixel(1, 2, 128);
    let got = c.get_pixels()[1 + 4 * 2];
    assert_ne!(got, WHITE);
    let under = egui::Color32::from_rgba_premultiplied(255, 255, 255, 255);
    let over = egui::Color32::from_rgba_premultiplied(0, 0, 0, 128);
    let want = under.blend(over);
    assert_eq!((got.r, got.g, got.b, got.a), (want.r(), want.g(), want.b(), want.a()));
}

#[test]
fn brush_pixel_outside_buffer_changes_nothing() {
    let mut c = small_canvas();
    let before = c.get_pixels();
    c.apply_brush_pixel(-1, 0, 255);
    c.apply_brush_pixel(4, 0, 255);
    c.apply_brush_pixel(0, -1, 255);
    c.apply_brush_pixel(0, 3, 255);
    c.apply_brush_pixel(i32::MAX, i32::MAX, 255);
    assert_eq!(c.get_pixels(), before);
}

#[test]
fn brush_samples_apply_in_order() {
    let mut by_batch = small_canvas();
    let samples = vec![
        BrushSample { x: 0, y: 0, alpha: 90 },
        BrushSample { x: 0, y: 0, alpha: 90 },
        BrushSample { x: 3, y: 2, alpha: 255 },
        BrushSample { x: -5, y: 7, alpha: 255 },
    ];
    by_batch.apply_brush_samples(&samples);
    let mut one_by_one = small_canvas();
    for s in &samples {
        one_by_one.apply_brush_pixel(s.x, s.y, s.alpha);
    }
    assert_eq!(by_batch.get_pixels(), one_by_one.get_pixels());
    // Two stacked half-covered samples darken further than one.
    let once = {
        let mut c = small_canvas();
        c.apply_brush_pixel(0, 0, 90);
        c.get_pixels()[0]
    };
    let twice = by_batch.get_pixels()[0];
    assert!(twice.r < once.r);
}

#[test]
fn canvas_error_names_out_of_bounds() {
    // The error value draw operations report for points beyond the extent.
    let e = CanvasError::OutOfBoundsError;
    assert_eq!(e, CanvasError::OutOfBoundsError);
}
