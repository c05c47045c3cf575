use pathtrace::integrator::{reach, NEAREST_BITS};
use pathtrace::ppm::{hold, BRIGHTEST_BITS};
use pathtrace::sampling::{jitter, share, turn};
use pathtrace::scalar::{clamp, Interval, Scalar, INFINITY_BITS, ONE_BITS, SIGN_BIT, ZERO_BITS};
use pathtrace::vector::{Vector3, EPSILON_BITS};

fn s(x: f64) -> Scalar {
    Scalar::new(x.to_bits())
}

fn samples() -> Vec<f64> {
    vec![
        f64::NEG_INFINITY,
        f64::MIN,
        -1e300,
        -2.5,
        -1.0,
        -1e-8,
        -f64::MIN_POSITIVE,
        -5e-324,
        -0.0,
        0.0,
        5e-324,
        f64::MIN_POSITIVE,
        1e-9,
        1e-8,
        0.01,
        0.999,
        1.0,
        1.0000000000000002,
        255.0,
        1e300,
        f64::MAX,
        f64::INFINITY,
        f64::NAN,
        -f64::NAN,
    ]
}

#[test]
fn the_named_patterns_are_those_of_the_numbers() {
    assert_eq!(ZERO_BITS, 0.0_f64.to_bits());
    assert_eq!(ONE_BITS, 1.0_f64.to_bits());
    assert_eq!(INFINITY_BITS, f64::INFINITY.to_bits());
    assert_eq!(SIGN_BIT, (-0.0_f64).to_bits());
    assert_eq!(EPSILON_BITS, 1e-8_f64.to_bits());
    assert_eq!(NEAREST_BITS, 0.01_f64.to_bits());
}

#[test]
fn less_is_the_order_of_the_numbers() {
    for a in samples() {
        for b in samples() {
            assert_eq!(s(a).less(s(b)), a < b, "{a} < {b}");
        }
    }
}

#[test]
fn less_eq_is_the_order_of_the_numbers() {
    for a in samples() {
        for b in samples() {
            assert_eq!(s(a).less_eq(s(b)), a <= b, "{a} <= {b}");
        }
    }
}

#[test]
fn number_tells_numbers_from_the_rest() {
    for a in samples() {
        assert_eq!(s(a).number(), !a.is_nan());
    }
}

#[test]
fn abs_clears_the_sign() {
    for a in samples() {
        assert_eq!(s(a).abs().bits, a.abs().to_bits());
    }
}

#[test]
fn exact_keys() {
    assert_eq!(Scalar::new(0).key(), 0x8000_0000_0000_0000);
    assert_eq!(Scalar::new(SIGN_BIT).key(), 0x8000_0000_0000_0000);
    assert_eq!(Scalar::new(1).key(), 0x8000_0000_0000_0001);
    assert_eq!(Scalar::new(SIGN_BIT + 1).key(), 0x7fff_ffff_ffff_ffff);
    assert_eq!(Scalar::new(u64::MAX).key(), 1);
    assert_eq!(Scalar::new(0x7fff_ffff_ffff_ffff).key(), u64::MAX);
}

#[test]
fn keys_rise_with_the_numbers() {
    let numbers: Vec<f64> = samples().into_iter().filter(|x| !x.is_nan()).collect();
    for a in &numbers {
        for b in &numbers {
            assert_eq!(s(*a).key() < s(*b).key(), a < b);
            assert_eq!(s(*a).key() == s(*b).key(), a == b);
        }
    }
}

#[test]
fn clamp_holds_a_number_between_the_bounds() {
    let (low, high) = (s(0.0), s(0.999));
    assert_eq!(clamp(s(-3.0), low, high), low);
    assert_eq!(clamp(s(0.0), low, high), s(0.0));
    assert_eq!(clamp(s(0.5), low, high), s(0.5));
    assert_eq!(clamp(s(0.999), low, high), high);
    assert_eq!(clamp(s(1.0), low, high), high);
    assert_eq!(clamp(s(f64::INFINITY), low, high), high);
    assert_eq!(clamp(s(f64::NEG_INFINITY), low, high), low);
}

#[test]
fn clamp_lets_what_is_no_number_through() {
    let held = clamp(s(f64::NAN), s(0.0), s(0.999));
    assert!(f64::from_bits(held.bits).is_nan());
}

#[test]
fn interval_is_half_open() {
    let range = Interval { start: s(0.01), end: s(2.0) };
    assert!(range.contains(s(0.01)));
    assert!(range.contains(s(1.0)));
    assert!(!range.contains(s(2.0)));
    assert!(!range.contains(s(0.009999)));
    assert!(!range.contains(s(-1.0)));
    assert!(!range.contains(s(f64::NAN)));
}

#[test]
fn interval_agrees_with_the_range_of_numbers() {
    for start in samples() {
        for end in samples() {
            for t in samples() {
                let range = Interval { start: s(start), end: s(end) };
                assert_eq!(range.contains(s(t)), (start..end).contains(&t));
            }
        }
    }
}

#[test]
fn a_path_reaches_from_a_hundredth_on() {
    let range = reach();
    assert_eq!(range.start, s(0.01));
    assert_eq!(range.end, s(f64::INFINITY));
    assert!(range.contains(s(0.01)));
    assert!(range.contains(s(1e300)));
    assert!(!range.contains(s(0.0099)));
    assert!(!range.contains(s(0.0)));
    assert!(!range.contains(s(f64::INFINITY)));
}

#[test]
fn vector_keeps_its_components() {
    let v = Vector3::new(s(1.0), s(-2.0), s(3.5));
    assert_eq!(v.x(), s(1.0));
    assert_eq!(v.y(), s(-2.0));
    assert_eq!(v.z(), s(3.5));
}

#[test]
fn near_zero_needs_every_component_small() {
    let tiny = 9.9e-9;
    assert!(Vector3::new(s(0.0), s(0.0), s(0.0)).near_zero());
    assert!(Vector3::new(s(-0.0), s(tiny), s(-tiny)).near_zero());
    assert!(!Vector3::new(s(1e-8), s(0.0), s(0.0)).near_zero());
    assert!(!Vector3::new(s(0.0), s(-1e-8), s(0.0)).near_zero());
    assert!(!Vector3::new(s(0.0), s(0.0), s(1.0)).near_zero());
    assert!(!Vector3::new(s(f64::NAN), s(0.0), s(0.0)).near_zero());
}

#[test]
fn near_zero_agrees_with_the_numbers() {
    for x in samples() {
        for y in [0.0, 1e-9, -1e-7] {
            let expected = x.abs() < 1e-8 && f64::abs(y) < 1e-8;
            assert_eq!(Vector3::new(s(x), s(y), s(0.0)).near_zero(), expected);
        }
    }
}

#[test]
fn truncate_cuts_to_the_whole_part() {
    assert_eq!(s(0.0).truncate(), 0);
    assert_eq!(s(0.999).truncate(), 0);
    assert_eq!(s(1.0).truncate(), 1);
    assert_eq!(s(1.9999999).truncate(), 1);
    assert_eq!(s(2.0).truncate(), 2);
    assert_eq!(s(255.744).truncate(), 255);
    assert_eq!(s(0.5 * 256.0).truncate(), 128);
    assert_eq!(s(4294967295.0).truncate(), u32::MAX);
    assert_eq!(s(4294967294.9).truncate(), 4294967294);
}

#[test]
fn truncate_saturates() {
    assert_eq!(s(4294967296.0).truncate(), u32::MAX);
    assert_eq!(s(1e300).truncate(), u32::MAX);
    assert_eq!(s(f64::INFINITY).truncate(), u32::MAX);
    assert_eq!(s(-0.0).truncate(), 0);
    assert_eq!(s(-0.5).truncate(), 0);
    assert_eq!(s(-7.0).truncate(), 0);
    assert_eq!(s(f64::NEG_INFINITY).truncate(), 0);
    assert_eq!(s(f64::NAN).truncate(), 0);
    assert_eq!(s(5e-324).truncate(), 0);
}

#[test]
fn truncate_agrees_with_the_conversion_of_numbers() {
    let mut x = 0.37_f64;
    for _ in 0..400 {
        assert_eq!(s(x).truncate(), x as u32, "{x}");
        assert_eq!(s(-x).truncate(), (-x) as u32);
        x *= 1.07;
    }
    for a in samples() {
        assert_eq!(s(a).truncate(), a as u32, "{a}");
    }
    for n in [1u32, 2, 3, 255, 256, 65535, 1 << 31, u32::MAX] {
        assert_eq!(s(n as f64).truncate(), n);
        assert_eq!(s(n as f64 + 0.5).truncate(), n);
    }
}

#[test]
fn a_channel_as_it_is_written() {
    let channel = |c: f64| s(f64::from_bits(clamp(s(c.sqrt()), s(0.0), s(0.999)).bits) * 256.0).truncate();
    assert_eq!(channel(0.0), 0);
    assert_eq!(channel(0.25), 128);
    assert_eq!(channel(1.0), 255);
    assert_eq!(channel(9.0), 255);
    assert_eq!(channel(-1.0), 0);
}

#[test]
fn neg_turns_the_sign_round() {
    for a in samples() {
        assert_eq!(s(a).neg().bits, (-a).to_bits());
        assert_eq!(s(a).neg().neg(), s(a));
    }
    let v = Vector3::new(s(1.0), s(-2.5), s(0.0));
    assert_eq!(v.neg(), Vector3::new(s(-1.0), s(2.5), s(-0.0)));
}

#[test]
fn the_ranges_of_the_draws() {
    assert_eq!(turn(), Interval { start: s(0.0), end: s(2.0 * std::f64::consts::PI) });
    assert_eq!(share(), Interval { start: s(0.0), end: s(1.0) });
    assert_eq!(jitter(), Interval { start: s(-0.5), end: s(0.5) });
    assert!(jitter().contains(s(-0.5)));
    assert!(!jitter().contains(s(0.5)));
    assert!(share().contains(s(0.0)));
    assert!(!share().contains(s(1.0)));
    assert!(turn().contains(s(6.28)));
    assert!(!turn().contains(s(6.29)));
}

#[test]
fn a_channel_is_held_below_one() {
    assert_eq!(BRIGHTEST_BITS, 0.999_f64.to_bits());
    assert_eq!(hold(s(0.5)), s(0.5));
    assert_eq!(hold(s(-0.1)), s(0.0));
    assert_eq!(hold(s(1.0)), s(0.999));
    assert_eq!(hold(s(0.999)), s(0.999));
    assert_eq!(hold(s(f64::INFINITY)), s(0.999));
    assert_eq!(s(f64::from_bits(hold(s(1.0)).bits) * 256.0).truncate(), 255);
}
