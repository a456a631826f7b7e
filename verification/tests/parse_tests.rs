use led_engine::color::Color;
use led_engine::led_driver::ColorMode;
use led_engine::led_driver::parse_mode;
use led_engine::parse::ascii_lower;
use led_engine::parse::parse_colors;
use led_engine::parse::parse_u8;
use led_engine::parse::wrap_u64;
use led_engine::parse::wrap_u8;

fn bytes(s: &str) -> Vec<u8> {
    s.as_bytes().to_vec()
}

#[test]
fn parse_u8_accepts_plain_and_signed_decimals() {
    assert_eq!(parse_u8(&bytes("0")), Some(0));
    assert_eq!(parse_u8(&bytes("255")), Some(255));
    assert_eq!(parse_u8(&bytes("+5")), Some(5));
    assert_eq!(parse_u8(&bytes("00255")), Some(255));
}

#[test]
fn parse_u8_rejects_bad_input() {
    assert_eq!(parse_u8(&bytes("")), None);
    assert_eq!(parse_u8(&bytes("+")), None);
    assert_eq!(parse_u8(&bytes("256")), None);
    assert_eq!(parse_u8(&bytes("99999999999999999999")), None);
    assert_eq!(parse_u8(&bytes("12a")), None);
    assert_eq!(parse_u8(&bytes("-1")), None);
    assert_eq!(parse_u8(&bytes(" 1")), None);
}

#[test]
fn parse_colors_reorders_channels() {
    let got = parse_colors(&bytes("(255,0,0),(0,0,255)"));
    assert_eq!(
        got,
        vec![
            Color { c0: 0, c1: 0, c2: 255, c3: 255 },
            Color { c0: 255, c1: 0, c2: 0, c3: 255 },
        ]
    );
}

#[test]
fn malformed_triples_fall_back_to_opaque_black() {
    let black = Color { c0: 0, c1: 0, c2: 0, c3: 255 };
    assert_eq!(parse_colors(&bytes("(1,2)")), vec![black]);
    assert_eq!(parse_colors(&bytes("(1,2,3,4)")), vec![black]);
    assert_eq!(parse_colors(&bytes("")), vec![black]);
    // a bad triple never poisons its neighbours
    let got = parse_colors(&bytes("(1,2),(4,5,6)"));
    assert_eq!(got, vec![black, Color { c0: 6, c1: 5, c2: 4, c3: 255 }]);
}

#[test]
fn unparseable_components_are_skipped_not_fatal() {
    // the off component drops out, leaving exactly three numbers
    let got = parse_colors(&bytes("(x,1,2,3)"));
    assert_eq!(got, vec![Color { c0: 3, c1: 2, c2: 1, c3: 255 }]);
}

#[test]
fn wrapping_narrowings_keep_the_low_bits() {
    assert_eq!(wrap_u8(0), 0);
    assert_eq!(wrap_u8(255), 255);
    assert_eq!(wrap_u8(300), 44);
    assert_eq!(wrap_u8(-1), 255);
    assert_eq!(wrap_u64(7), 7);
    assert_eq!(wrap_u64(-1), u64::MAX);
    assert_eq!(wrap_u64(i64::MIN), 0x8000_0000_0000_0000);
}

#[test]
fn ascii_lower_only_touches_ascii_uppercase() {
    assert_eq!(ascii_lower(&bytes("GrAdIeNt")), bytes("gradient"));
    assert_eq!(ascii_lower(&bytes("off!0")), bytes("off!0"));
}

#[test]
fn mode_words_resolve_case_insensitively() {
    assert_eq!(parse_mode(&bytes("gradient")), ColorMode::Gradient);
    assert_eq!(parse_mode(&bytes("GRADIENTCENTER")), ColorMode::GradientCenter);
    assert_eq!(parse_mode(&bytes("Off")), ColorMode::Off);
    assert_eq!(parse_mode(&bytes("Solid")), ColorMode::Solid);
    assert_eq!(parse_mode(&bytes("TwInKlE")), ColorMode::Twinkle);
}

#[test]
fn unknown_mode_words_resolve_to_off() {
    assert_eq!(parse_mode(&bytes("rainbow")), ColorMode::Off);
    assert_eq!(parse_mode(&bytes("")), ColorMode::Off);
    assert_eq!(parse_mode(&bytes("gradient ")), ColorMode::Off);
}
