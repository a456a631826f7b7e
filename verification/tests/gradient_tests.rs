use led_engine::color::Color;
use led_engine::gradient::build_gradient;
use led_engine::gradient::interpolate_segment;

fn rgb(c0: u8, c1: u8, c2: u8, c3: u8) -> Color {
    Color { c0, c1, c2, c3 }
}

#[test]
fn gradient_determinism() {
    let palette = vec![rgb(255, 0, 0, 0), rgb(0, 0, 255, 0), rgb(10, 20, 30, 40)];
    let a = build_gradient(&palette, 255);
    let b = build_gradient(&palette, 255);
    assert_eq!(a, b);
    assert!(a.len() > 0);
}

#[test]
fn two_color_cyclic_closure() {
    let a = rgb(255, 0, 0, 0);
    let b = rgb(0, 0, 255, 0);
    let palette = vec![a, b];
    let g = build_gradient(&palette, 10);
    // segment_steps = 10 / 2 = 5, two passes of one segment each
    assert_eq!(g.len(), 10);
    assert_eq!(g[0], a);
    assert_eq!(g[5], b);
    // the last sample walks back toward the first colour
    assert_eq!(g[9], rgb(204, 0, 51, 0));
}

#[test]
fn two_color_odd_steps_length() {
    let palette = vec![rgb(1, 2, 3, 4), rgb(5, 6, 7, 8)];
    let g = build_gradient(&palette, 255);
    // 2 * (255 / 2) = 254
    assert_eq!(g.len(), 254);
}

#[test]
fn degenerate_palettes_yield_empty_gradient() {
    let empty: Vec<Color> = Vec::new();
    assert_eq!(build_gradient(&empty, 255).len(), 0);
    let one = vec![rgb(9, 9, 9, 9)];
    assert_eq!(build_gradient(&one, 255).len(), 0);
}

#[test]
fn zero_segment_steps_yield_empty_gradient() {
    let palette = vec![rgb(255, 0, 0, 0), rgb(0, 0, 255, 0)];
    // 1 / 2 = 0 samples per segment
    assert_eq!(build_gradient(&palette, 1).len(), 0);
}

#[test]
fn interpolation_rounds_to_nearest() {
    let a = rgb(255, 0, 0, 0);
    let b = rgb(0, 0, 255, 0);
    let seg = interpolate_segment(a, b, 2);
    assert_eq!(seg.len(), 2);
    assert_eq!(seg[0], a);
    // halfway: 127.5 rounds up on every moving channel
    assert_eq!(seg[1], rgb(128, 0, 128, 0));
}

#[test]
fn multi_color_gradient_layout() {
    let a = rgb(100, 0, 0, 0);
    let b = rgb(0, 100, 0, 0);
    let c = rgb(0, 0, 100, 0);
    let palette = vec![a, b, c];
    // segment_steps = 16 / ((3 - 1) * 2) = 4; 4 segments of 4 samples
    let g = build_gradient(&palette, 16);
    assert_eq!(g.len(), 16);
    assert_eq!(g[0], a);
    assert_eq!(g[4], b);
    // backward pass starts at the far end
    assert_eq!(g[8], c);
    assert_eq!(g[12], b);
}
