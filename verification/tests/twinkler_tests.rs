use led_engine::color::Color;
use led_engine::twinkler::Comet;
use led_engine::twinkler::Star;
use led_engine::twinkler::Twinkler;

fn star_at(loc: usize, heat: u8, is_dying: bool) -> Star {
    Star { loc, heat, color: Color { c0: 255, c1: 100, c2: 0, c3: 0 }, is_dying }
}

#[test]
fn star_heat_curve_exact_values() {
    let mut t = Twinkler::new();
    t.stars.push(star_at(3, 100, false));
    t.advance();
    // ignition: 255 - (255 - 100) * 19 / 20 = 255 - 147 = 108
    assert_eq!(t.stars.len(), 1);
    assert_eq!(t.stars[0].heat, 108);
    assert!(!t.stars[0].is_dying);
    // the painted pixel is the star colour scaled by heat / 255
    assert_eq!(t.led_vec[3], Color { c0: 108, c1: 42, c2: 0, c3: 0 });
}

#[test]
fn star_decay_exact_value() {
    let mut t = Twinkler::new();
    t.stars.push(star_at(7, 100, true));
    t.advance();
    // decay: 100 * 19 / 20 = 95
    assert_eq!(t.stars.len(), 1);
    assert_eq!(t.stars[0].heat, 95);
    assert!(t.stars[0].is_dying);
}

#[test]
fn star_lifecycle_ignites_flips_and_dies() {
    let mut t = Twinkler::new();
    t.stars.push(star_at(5, 1, false));
    let mut last_heat: u8 = 1;
    let mut flipped = false;
    let mut died_at: Option<usize> = None;
    for tick in 0..600 {
        t.advance();
        if t.stars.is_empty() {
            died_at = Some(tick);
            break;
        }
        let s = &t.stars[0];
        assert_eq!(s.loc, 5);
        if !flipped {
            if s.is_dying {
                // the flip happens exactly when heat crosses 250
                assert!(s.heat > 250);
                flipped = true;
            } else {
                // ignition never lowers heat
                assert!(s.heat >= last_heat);
            }
        } else {
            assert!(s.is_dying);
            // decay is strictly monotone down to zero
            assert!(s.heat < last_heat);
        }
        last_heat = s.heat;
    }
    assert!(flipped);
    assert!(died_at.is_some());
}

#[test]
fn star_removed_the_tick_heat_reaches_zero() {
    let mut t = Twinkler::new();
    t.stars.push(star_at(9, 1, true));
    t.advance();
    // 1 * 19 / 20 = 0: painted black, then removed
    assert!(t.stars.is_empty());
    assert_eq!(t.led_vec[9], Color { c0: 0, c1: 0, c2: 0, c3: 0 });
}

#[test]
fn comet_zero_intensity_tail_does_not_overwrite_star() {
    let mut t = Twinkler::new();
    t.stars.push(star_at(12, 100, false));
    // heat 1 and dying: next heat is 0, so every tail pixel is black
    t.comets.push(Comet {
        head_loc: 12,
        tail_max: 5,
        heat: 1,
        is_dying: true,
        direction: -1,
        color: Color { c0: 0, c1: 0, c2: 255, c3: 0 },
    });
    t.advance();
    // the tail spans the star's pixel, yet the star stays visible
    assert_eq!(t.led_vec[12], Color { c0: 108, c1: 42, c2: 0, c3: 0 });
    // a burnt-out comet is removed like a star
    assert!(t.comets.is_empty());
}

#[test]
fn comet_lit_tail_paints_and_fades_along_its_length() {
    let mut t = Twinkler::new();
    t.comets.push(Comet {
        head_loc: 101,
        tail_max: 4,
        heat: 255,
        is_dying: true,
        direction: 1,
        color: Color { c0: 0, c1: 0, c2: 255, c3: 0 },
    });
    t.advance();
    // head moves to 102; decayed heat = 255 * 19 / 20 = 242
    // offset i paints at 102 - i with channel 255*242*(4-i)/(4*255)
    assert_eq!(t.led_vec[102], Color { c0: 0, c1: 0, c2: 242, c3: 0 });
    assert_eq!(t.led_vec[101], Color { c0: 0, c1: 0, c2: 181, c3: 0 });
    assert_eq!(t.led_vec[100], Color { c0: 0, c1: 0, c2: 121, c3: 0 });
    assert_eq!(t.led_vec[99], Color { c0: 0, c1: 0, c2: 60, c3: 0 });
    // beyond the tail nothing is painted
    assert_eq!(t.led_vec[98], Color { c0: 0, c1: 0, c2: 0, c3: 0 });
}

#[test]
fn comet_tail_clamps_at_strip_edges() {
    let mut t = Twinkler::new();
    t.comets.push(Comet {
        head_loc: 0,
        tail_max: 5,
        heat: 255,
        is_dying: true,
        direction: -1,
        color: Color { c0: 0, c1: 0, c2: 255, c3: 0 },
    });
    t.advance();
    // head moves to -1: every offset at or below zero lands on pixel 0
    assert_ne!(t.led_vec[0], Color { c0: 0, c1: 0, c2: 0, c3: 0 });
    assert_eq!(t.led_vec[5], Color { c0: 0, c1: 0, c2: 0, c3: 0 });
}

#[test]
fn spawned_particles_stay_within_documented_ranges() {
    let mut t = Twinkler::new();
    for _ in 0..300 {
        t.do_timestep();
        for s in &t.stars {
            assert!(s.loc < 460);
            assert!(s.heat >= 1);
        }
        for c in &t.comets {
            assert!(c.tail_max >= 5 && c.tail_max < 30);
            assert!(c.direction == 1 || c.direction == -1);
            assert!(c.heat >= 1);
        }
    }
}

#[test]
fn leds_returns_the_composited_buffer() {
    let mut t = Twinkler::new();
    t.stars.push(star_at(0, 200, false));
    t.advance();
    let copy = t.leds();
    assert_eq!(copy.len(), 460);
    assert_eq!(copy[0], t.led_vec[0]);
    assert_ne!(copy[0], Color { c0: 0, c1: 0, c2: 0, c3: 0 });
}

#[test]
fn clear_resets_every_pixel() {
    let mut t = Twinkler::new();
    t.stars.push(star_at(30, 200, false));
    t.advance();
    t.clear_leds();
    for px in t.leds() {
        assert_eq!(px, Color { c0: 0, c1: 0, c2: 0, c3: 0 });
    }
}
