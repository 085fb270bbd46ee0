use fixed::types::I8F24;
use led_matrix::fixed::{Fixed, ONE_BITS};
use led_matrix::fixedcolor::FixedColor;

fn one() -> Fixed {
    Fixed::one()
}

fn half() -> Fixed {
    Fixed::from_bits(ONE_BITS / 2)
}

#[test]
fn test_fixedcolor() {
    let c = FixedColor::rgb(one(), one(), one());
    assert_eq!(c.as_rgb8(), (255, 255, 255));
}

#[test]
fn test_fixedcolor_serde() {
    let mut buffer = [0u8; 32];

    let c = FixedColor::rgb(one(), one(), one());
    ciborium::ser::into_writer(&(c.r.bits, c.g.bits, c.b.bits, c.a.bits), &mut buffer[..]).unwrap();
    let (r, g, b, a): (i32, i32, i32, i32) = ciborium::de::from_reader(&buffer[..]).unwrap();
    let c2 = FixedColor {
        r: Fixed::from_bits(r),
        g: Fixed::from_bits(g),
        b: Fixed::from_bits(b),
        a: Fixed::from_bits(a),
    };
    assert_eq!(c, c2);

    let c3 = FixedColor::from_rgb8(123, 33, 77);
    ciborium::ser::into_writer(&(c3.r.bits, c3.g.bits, c3.b.bits, c3.a.bits), &mut buffer[..]).unwrap();
    let (r, g, b, a): (i32, i32, i32, i32) = ciborium::de::from_reader(&buffer[..]).unwrap();
    let c4 = FixedColor {
        r: Fixed::from_bits(r),
        g: Fixed::from_bits(g),
        b: Fixed::from_bits(b),
        a: Fixed::from_bits(a),
    };
    assert_eq!(c3, c4);
}

#[test]
fn white_is_all_ones() {
    let w = FixedColor::white();
    assert_eq!((w.r.bits, w.g.bits, w.b.bits, w.a.bits), (ONE_BITS, ONE_BITS, ONE_BITS, ONE_BITS));
}

#[test]
fn default_is_all_zeros() {
    let d = FixedColor::default();
    assert_eq!((d.r.bits, d.g.bits, d.b.bits, d.a.bits), (0, 0, 0, 0));
}

#[test]
fn from_rgb8_exact_bits() {
    let c = FixedColor::from_rgb8(123, 33, 77);
    assert_eq!((c.r.bits, c.g.bits, c.b.bits, c.a.bits), (8092539, 2171169, 5066061, ONE_BITS));
    let c = FixedColor::from_rgb8(0, 1, 255);
    assert_eq!((c.r.bits, c.g.bits, c.b.bits), (0, 65793, ONE_BITS));
}

#[test]
fn rgb8_round_trips_for_every_value() {
    for v in 0..=255u8 {
        let w = 255 - v;
        assert_eq!(FixedColor::from_rgb8(v, w, 128).as_rgb8(), (v, w, 128));
    }
}

#[test]
fn as_rgb8_clamps_both_ends() {
    let c = FixedColor::rgb(Fixed::from_bits(2 * ONE_BITS), Fixed::from_bits(-1), Fixed::from_bits(ONE_BITS - 1));
    assert_eq!(c.as_rgb8(), (255, 0, 255));
    let c = FixedColor::rgb(Fixed::from_bits(i32::MAX), Fixed::from_bits(i32::MIN), Fixed::zero());
    assert_eq!(c.as_rgb8(), (255, 0, 0));
}

#[test]
fn as_rgb8_rounds_to_nearest() {
    // 0.5 * 255 = 127.5 rounds up; just below rounds down.
    let c = FixedColor::rgb(half(), Fixed::from_bits(ONE_BITS / 2 - 1), Fixed::from_bits(32897));
    assert_eq!(c.as_rgb8(), (128, 127, 1));
    let c = FixedColor::rgb(Fixed::from_bits(32896), Fixed::zero(), Fixed::zero());
    assert_eq!(c.as_rgb8(), (0, 0, 0));
}

#[test]
fn scale_by_half_exact() {
    let c = FixedColor::from_rgb8(123, 33, 77).scale(half());
    assert_eq!((c.r.bits, c.g.bits, c.b.bits, c.a.bits), (4046269, 1085584, 2533030, ONE_BITS));
    assert_eq!(c.as_rgb8(), (61, 16, 38));
}

#[test]
fn scale_by_zero_is_zero_colour_with_alpha_kept() {
    let c = FixedColor { r: one(), g: half(), b: Fixed::from_bits(77), a: Fixed::from_bits(12345) };
    let z = c.scale(Fixed::zero());
    assert_eq!((z.r.bits, z.g.bits, z.b.bits, z.a.bits), (0, 0, 0, 12345));
}

#[test]
fn scale_saturates_into_unit_range() {
    let c = FixedColor { r: one(), g: half(), b: Fixed::from_bits(-ONE_BITS), a: half() };
    let big = c.scale(Fixed::from_bits(100 * ONE_BITS));
    assert_eq!((big.r.bits, big.g.bits, big.b.bits, big.a.bits), (ONE_BITS, ONE_BITS, 0, ONE_BITS / 2));
    let neg = c.scale(Fixed::from_bits(-ONE_BITS));
    assert_eq!((neg.r.bits, neg.g.bits, neg.b.bits), (0, 0, ONE_BITS));
    for s in [0, 1, ONE_BITS / 3, ONE_BITS, 5 * ONE_BITS, i32::MAX] {
        let out = FixedColor::from_rgb8(200, 100, 50).scale(Fixed::from_bits(s));
        for ch in [out.r.bits, out.g.bits, out.b.bits] {
            assert!((0..=ONE_BITS).contains(&ch));
        }
    }
}

#[test]
fn scale_by_one_keeps_colour() {
    let c = FixedColor::from_rgb8(9, 99, 199);
    assert_eq!(c.scale(one()), c);
}

#[test]
fn saturating_add_clamps_and_keeps_own_alpha() {
    let a = FixedColor { r: half(), g: one(), b: Fixed::from_bits(-5), a: Fixed::from_bits(7) };
    let b = FixedColor { r: half(), g: one(), b: Fixed::from_bits(2), a: Fixed::from_bits(9) };
    let s = a.saturating_add(b);
    assert_eq!((s.r.bits, s.g.bits, s.b.bits, s.a.bits), (ONE_BITS, ONE_BITS, 0, 7));
    let t = FixedColor::from_rgb8(10, 20, 30).saturating_add(FixedColor::from_rgb8(1, 2, 3));
    assert_eq!((t.r.bits, t.g.bits, t.b.bits), (657930 + 65793, 1315860 + 131586, 1973790 + 197379));
}

#[test]
fn fixed_arithmetic_exact_values() {
    let a = Fixed::from_bits(-3 * ONE_BITS / 2);
    assert_eq!(a.saturating_mul(half()).bits, -12582912);
    assert_eq!(Fixed::from_bits(-1).saturating_mul(half()).bits, -1);
    assert_eq!(Fixed::from_bits(3).saturating_mul(half()).bits, 1);
    assert_eq!(Fixed::from_bits(i32::MAX).saturating_mul(Fixed::from_bits(i32::MAX)).bits, i32::MAX);
    assert_eq!(Fixed::from_bits(i32::MIN).saturating_mul(Fixed::from_bits(i32::MAX)).bits, i32::MIN);
    assert_eq!(Fixed::from_bits(i32::MAX).saturating_add(one()).bits, i32::MAX);
    assert_eq!(Fixed::from_bits(i32::MIN).saturating_sub(one()).bits, i32::MIN);
    assert_eq!(one().saturating_sub(half()).bits, ONE_BITS / 2);
    assert_eq!(one().checked_div(Fixed::from_bits(3 * ONE_BITS)).unwrap().bits, 5592405);
    assert_eq!(Fixed::from_bits(-ONE_BITS).checked_div(Fixed::from_bits(3 * ONE_BITS)).unwrap().bits, -5592405);
    assert_eq!(one().checked_div(Fixed::from_bits(-3 * ONE_BITS)).unwrap().bits, -5592405);
    assert_eq!(one().checked_div(Fixed::from_bits(1)).unwrap().bits, i32::MAX);
    assert_eq!(Fixed::from_bits(-ONE_BITS).checked_div(Fixed::from_bits(1)).unwrap().bits, i32::MIN);
    assert!(one().checked_div(Fixed::zero()).is_none());
    assert_eq!(Fixed::from_ratio(1, 4).bits, ONE_BITS / 4);
    assert_eq!(Fixed::from_ratio(1, 3).bits, 5592405);
    assert_eq!(Fixed::from_ratio(7, 7).bits, ONE_BITS);
    assert_eq!(Fixed::from_ratio(0, 7).bits, 0);
    assert_eq!(Fixed::from_bits(-9).clamp_unit().bits, 0);
    assert_eq!(Fixed::from_bits(ONE_BITS + 9).clamp_unit().bits, ONE_BITS);
    assert_eq!(half().clamp_unit().bits, ONE_BITS / 2);
    assert_eq!(half().max(one()), one());
    assert_eq!(one().max(half()), one());
    assert_eq!(Fixed::from_bits(42).to_bits(), 42);
    assert_eq!(Fixed::zero().bits, 0);
}

#[test]
fn fixed_arithmetic_agrees_with_the_fixed_crate() {
    let samples: [i32; 13] = [
        0, 1, -1, 3, -3, ONE_BITS, -ONE_BITS, ONE_BITS / 3, -ONE_BITS / 7, 123456789, -987654321,
        i32::MAX, i32::MIN,
    ];
    for &a in samples.iter() {
        for &b in samples.iter() {
            let fa = I8F24::from_bits(a);
            let fb = I8F24::from_bits(b);
            let (x, y) = (Fixed::from_bits(a), Fixed::from_bits(b));
            assert_eq!(x.saturating_add(y).bits, fa.saturating_add(fb).to_bits());
            assert_eq!(x.saturating_sub(y).bits, fa.saturating_sub(fb).to_bits());
            assert_eq!(x.saturating_mul(y).bits, fa.saturating_mul(fb).to_bits());
            match x.checked_div(y) {
                Some(q) => assert_eq!(q.bits, fa.saturating_div(fb).to_bits()),
                None => assert_eq!(b, 0),
            }
        }
    }
}
