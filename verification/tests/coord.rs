use schengen_server::coord::Coord;

fn coord(x: f64) -> Coord {
    Coord { bits: x.to_bits() }
}

const SAMPLES: [f64; 26] = [
    0.0,
    -0.0,
    0.25,
    -0.25,
    0.999,
    1.0,
    -1.0,
    1.5,
    -1.5,
    539.99,
    1919.0,
    -1920.5,
    32766.9,
    32767.0,
    32767.5,
    32768.0,
    -32768.0,
    -32768.9,
    -32769.0,
    65535.9,
    65536.0,
    1.0e300,
    -1.0e300,
    f64::INFINITY,
    f64::NEG_INFINITY,
    f64::MIN_POSITIVE,
];

#[test]
fn integers_have_the_pattern_of_the_number() {
    for n in [0, 1, -1, 2, 3, 7, 8, 540, 960, 1080, 1920, -1920, 65535, i32::MAX, i32::MIN] {
        assert_eq!(Coord::from_i32(n).bits, (n as f64).to_bits(), "{}", n);
    }
    for n in -3000..3000 {
        assert_eq!(Coord::from_i32(n).bits, (n as f64).to_bits(), "{}", n);
    }
}

#[test]
fn comparisons_are_those_of_the_numbers() {
    for a in SAMPLES {
        for b in SAMPLES {
            assert_eq!(coord(a).is_below(coord(b)), a < b, "{} < {}", a, b);
            assert_eq!(coord(a).is_at_most(coord(b)), a <= b, "{} <= {}", a, b);
            assert_eq!(coord(a) == coord(b), a == b, "{} == {}", a, b);
        }
    }
}

#[test]
fn nothing_compares_with_what_is_no_number() {
    let nan = coord(f64::NAN);
    assert!(nan.is_nan());
    assert!(coord(-f64::NAN).is_nan());
    for a in SAMPLES {
        assert!(!coord(a).is_nan());
        assert!(!nan.is_below(coord(a)));
        assert!(!coord(a).is_below(nan));
        assert!(!nan.is_at_most(coord(a)));
        assert!(!coord(a).is_at_most(nan));
    }
    assert!(nan != nan);
}

#[test]
fn smaller_and_larger_are_those_of_the_numbers() {
    for a in SAMPLES {
        for b in SAMPLES {
            assert!(coord(a).min(coord(b)) == coord(a.min(b)), "{} {}", a, b);
            assert!(coord(a).max(coord(b)) == coord(a.max(b)), "{} {}", a, b);
        }
        assert_eq!(coord(a).min(coord(f64::NAN)).bits, a.to_bits());
        assert_eq!(coord(f64::NAN).min(coord(a)).bits, a.to_bits());
        assert_eq!(coord(a).max(coord(f64::NAN)).bits, a.to_bits());
        assert_eq!(coord(f64::NAN).max(coord(a)).bits, a.to_bits());
    }
}

#[test]
fn clamping_is_that_of_the_numbers() {
    for a in SAMPLES {
        assert_eq!(
            coord(a).clamp(coord(-1.0), coord(1080.0)).bits,
            a.clamp(-1.0, 1080.0).to_bits()
        );
    }
    assert!(coord(f64::NAN).clamp(coord(0.0), coord(1.0)).is_nan());
}

#[test]
fn integers_of_16_bits_are_rounded_towards_zero() {
    for a in SAMPLES {
        assert_eq!(coord(a).to_i16(), a as i16, "{}", a);
    }
    assert_eq!(coord(f64::NAN).to_i16(), 0);
    let mut x = -40000.0;
    while x < 40000.0 {
        assert_eq!(coord(x).to_i16(), x as i16, "{}", x);
        x += 0.37;
    }
}

#[test]
fn whole_part_of_an_integer_is_the_integer() {
    for n in -32768..32768 {
        assert_eq!(Coord::from_i32(n).to_i16() as i32, n);
    }
}
