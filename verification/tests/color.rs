use netcode_auth::color::hue_of;

#[test]
fn hue_is_thirty_degrees_per_identifier() {
    assert_eq!(hue_of(0), 0);
    assert_eq!(hue_of(1), 30);
    assert_eq!(hue_of(2), 60);
    assert_eq!(hue_of(11), 330);
}

#[test]
fn hue_wraps_after_a_full_turn() {
    assert_eq!(hue_of(12), 0);
    assert_eq!(hue_of(13), 30);
    assert_eq!(hue_of(25), 30);
}

#[test]
fn hue_of_a_large_identifier_wraps_to_64_bits_first() {
    assert_eq!(hue_of(u64::MAX), 346);
    assert_eq!(hue_of(u64::MAX), u64::MAX.wrapping_mul(30) % 360);
    assert_eq!(hue_of(1 << 63), (1u64 << 63).wrapping_mul(30) % 360);
    assert_eq!(hue_of(1 << 63), 0);
}

#[test]
fn hue_stays_below_a_full_turn() {
    let mut bits: u64 = 1;
    for _ in 0..1000 {
        bits = bits.wrapping_mul(6364136223846793005).wrapping_add(1442695040888963407);
        assert!(hue_of(bits) < 360);
        assert_eq!(hue_of(bits), bits.wrapping_mul(30) % 360);
    }
}
