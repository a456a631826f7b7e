use led_engine::color::Color;
use led_engine::gradient::build_gradient;
use led_engine::led_driver::ColorMode;
use led_engine::led_driver::LEDDriver;
use led_engine::led_driver::Pause;
use led_engine::parse::UpdateMessage;
use led_engine::parse::parse_colors;

fn bytes(s: &str) -> Vec<u8> {
    s.as_bytes().to_vec()
}

fn empty_update() -> UpdateMessage {
    UpdateMessage { colors: None, mode: None, brightness: None, colorsteps: None, delay: None }
}

#[test]
fn end_to_end_gradient_scenario() {
    let mut d = LEDDriver::new();
    let msg = UpdateMessage {
        colors: Some(bytes("(255,0,0),(0,0,255)")),
        mode: Some(bytes("gradient")),
        brightness: None,
        colorsteps: Some(255),
        delay: Some(1),
    };
    assert_eq!(d.parse_change_message(&msg), None);
    // segment_steps = 255 / 2 = 127; two passes of one segment
    assert_eq!(d.colormap.len(), 254);
    let first = d.colormap[0];
    // pixel 0 of frame 0 is the first palette entry (channels reordered)
    assert_eq!(first, Color { c0: 0, c1: 0, c2: 255, c3: 255 });
    let frames = d.do_animation_cycle();
    assert_eq!(frames.len(), 254);
    assert_eq!(frames[0].pixels.len(), 460);
    assert_eq!(frames[0].pixels[0], first);
    assert_eq!(frames[0].pause, Pause::Millis(1));
    // one full scroll cycle later, pixel 0 is back where it started
    let frames_again = d.do_animation_cycle();
    assert_eq!(frames_again[0].pixels[0], first);
    // within a cycle each frame advances the scroll by one
    assert_eq!(frames[1].pixels[0], d.colormap[1]);
    assert_eq!(frames[253].pixels[0], d.colormap[253]);
}

#[test]
fn hot_swapped_palette_renders_immediately() {
    let mut d = LEDDriver::new();
    let setup = UpdateMessage {
        colors: Some(bytes("(255,0,0),(0,0,255)")),
        mode: Some(bytes("gradient")),
        brightness: None,
        colorsteps: Some(100),
        delay: None,
    };
    d.parse_change_message(&setup);
    let stale_first = d.colormap[0];
    let swap = UpdateMessage {
        colors: Some(bytes("(0,255,0),(10,10,10)")),
        mode: None,
        brightness: None,
        colorsteps: None,
        delay: None,
    };
    d.parse_change_message(&swap);
    let expected = build_gradient(&parse_colors(&bytes("(0,255,0),(10,10,10)")), 100);
    assert_eq!(d.colormap, expected);
    let frames = d.do_animation_cycle();
    assert_eq!(frames[0].pixels[0], expected[0]);
    assert_ne!(frames[0].pixels[0], stale_first);
}

#[test]
fn solid_mode_renders_single_color_everywhere() {
    let mut d = LEDDriver::new();
    let msg = UpdateMessage {
        colors: Some(bytes("(10,20,30)")),
        mode: Some(bytes("solid")),
        brightness: None,
        colorsteps: None,
        delay: None,
    };
    d.parse_change_message(&msg);
    // a one-colour palette yields an empty gradient, yet Solid still renders
    assert_eq!(d.colormap.len(), 0);
    let frames = d.do_animation_cycle();
    assert_eq!(frames.len(), 1);
    assert_eq!(frames[0].pause, Pause::NoSleep);
    assert_eq!(frames[0].pixels.len(), 460);
    for px in &frames[0].pixels {
        assert_eq!(*px, Color { c0: 30, c1: 20, c2: 10, c3: 255 });
    }
}

#[test]
fn gradient_mode_with_empty_gradient_is_a_noop_cycle() {
    let mut d = LEDDriver::new();
    let msg = UpdateMessage {
        colors: Some(bytes("(10,20,30)")),
        mode: Some(bytes("gradient")),
        brightness: None,
        colorsteps: None,
        delay: None,
    };
    d.parse_change_message(&msg);
    let frames = d.do_animation_cycle();
    assert_eq!(frames.len(), 0);
}

#[test]
fn off_mode_blacks_out_and_rests_coarsely() {
    let mut d = LEDDriver::new();
    let msg = UpdateMessage {
        colors: None,
        mode: Some(bytes("off")),
        brightness: None,
        colorsteps: None,
        delay: Some(30),
    };
    d.parse_change_message(&msg);
    let frames = d.do_animation_cycle();
    assert_eq!(frames.len(), 1);
    assert_eq!(frames[0].pause, Pause::Seconds(3));
    for px in &frames[0].pixels {
        assert_eq!(*px, Color { c0: 0, c1: 0, c2: 0, c3: 0 });
    }
}

#[test]
fn twinkle_mode_hands_out_the_simulator_frame() {
    let mut d = LEDDriver::new();
    assert_eq!(d.mode, ColorMode::Twinkle);
    let frames = d.do_animation_cycle();
    assert_eq!(frames.len(), 1);
    assert_eq!(frames[0].pause, Pause::Millis(2));
    assert_eq!(frames[0].pixels, d.twinkle_driver.leds());
}

#[test]
fn unrecognized_mode_falls_back_to_off() {
    let mut d = LEDDriver::new();
    let mut msg = empty_update();
    msg.mode = Some(bytes("rainbow"));
    d.parse_change_message(&msg);
    assert_eq!(d.mode, ColorMode::Off);
}

#[test]
fn absent_fields_change_nothing() {
    let mut d = LEDDriver::new();
    let before_colors = d.colors.clone();
    d.parse_change_message(&empty_update());
    assert_eq!(d.colors, before_colors);
    assert_eq!(d.mode, ColorMode::Twinkle);
    assert_eq!(d.colorsteps, 255);
    assert_eq!(d.delay, 2);
    // the gradient is rebuilt from the unchanged palette
    assert_eq!(d.colormap, build_gradient(&before_colors, 255));
}

#[test]
fn brightness_is_forwarded_not_stored() {
    let mut d = LEDDriver::new();
    let mut msg = empty_update();
    msg.brightness = Some(200);
    assert_eq!(d.parse_change_message(&msg), Some(200));
    msg.brightness = Some(300);
    assert_eq!(d.parse_change_message(&msg), Some(44));
    msg.brightness = Some(-1);
    assert_eq!(d.parse_change_message(&msg), Some(255));
    msg.brightness = None;
    assert_eq!(d.parse_change_message(&msg), None);
}

#[test]
fn gradient_center_mirrors_at_the_midpoint() {
    let mut d = LEDDriver::new();
    let msg = UpdateMessage {
        colors: Some(bytes("(255,0,0),(0,0,255)")),
        mode: Some(bytes("gradientcenter")),
        brightness: None,
        colorsteps: Some(100),
        delay: Some(1),
    };
    d.parse_change_message(&msg);
    let len = d.colormap.len();
    assert_eq!(len, 100);
    let frames = d.do_animation_cycle();
    assert_eq!(frames.len(), len);
    let f = &frames[0].pixels;
    // below the midpoint the strip scrolls forward
    assert_eq!(f[0], d.colormap[0]);
    assert_eq!(f[10], d.colormap[10]);
    // at and above the midpoint it mirrors: index 460 - 1 - i
    assert_eq!(f[230], d.colormap[(460 - 1 - 230) % len]);
    assert_eq!(f[459], d.colormap[0]);
    // symmetry between the two halves
    assert_eq!(f[459], f[0]);
}
