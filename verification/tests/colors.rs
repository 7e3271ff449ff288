use pt::color::{gamma_decode, gamma_encode, Color, Rgba};
use pt::fixed::SCALE;

#[test]
fn decode_endpoints_are_exact() {
    assert_eq!(gamma_decode(0), 0);
    assert_eq!(gamma_decode(255), SCALE);
}

#[test]
fn decode_matches_the_display_curve() {
    // (128/255)^(11/5) and neighbors, rounded down on the fixed-point grid.
    assert_eq!(gamma_decode(128), 14386);
    assert_eq!(gamma_decode(178), 29717);
    assert_eq!(gamma_decode(212), 43654);
    assert_eq!(gamma_decode(254), 64971);
}

#[test]
fn encode_picks_the_nearest_byte() {
    assert_eq!(gamma_encode(0), 0);
    assert_eq!(gamma_encode(SCALE), 255);
    assert_eq!(gamma_encode(14386), 128);
    assert_eq!(gamma_encode(SCALE / 2), 186);
    // Out-of-range values clamp before encoding.
    assert_eq!(gamma_encode(-77), 0);
    assert_eq!(gamma_encode(10 * SCALE), 255);
}

#[test]
fn decode_of_encode_is_lossless_on_decoded_values() {
    for b in 0..=255u8 {
        let c = gamma_decode(b);
        assert_eq!(gamma_decode(gamma_encode(c)), c);
    }
}

#[test]
fn pixel_round_trip_keeps_the_sky_bytes() {
    let sky = Rgba { red: 178, green: 212, blue: 255, alpha: 255 };
    let linear = Color::from_rgba(sky);
    assert_eq!(linear.blue, SCALE);
    assert_eq!(Color::from_rgba(sky).to_rgba(), sky);
}

#[test]
fn clamp_bounds_every_channel() {
    let c = Color { red: -5, green: 70000, blue: 30000 };
    let k = c.clamp();
    assert_eq!(k, Color { red: 0, green: SCALE, blue: 30000 });
}

#[test]
fn color_arithmetic_is_componentwise() {
    let a = Color { red: SCALE, green: SCALE / 2, blue: 0 };
    let b = Color { red: SCALE / 2, green: SCALE / 2, blue: SCALE };
    assert_eq!(a.mul(b), Color { red: SCALE / 2, green: SCALE / 4, blue: 0 });
    assert_eq!(
        a.add(b),
        Color { red: SCALE + SCALE / 2, green: SCALE, blue: SCALE },
    );
    assert_eq!(a.scale(2 * SCALE), Color { red: 2 * SCALE, green: SCALE, blue: 0 });
    assert_eq!(Color::black(), Color { red: 0, green: 0, blue: 0 });
}
