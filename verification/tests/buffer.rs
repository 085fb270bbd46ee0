use led_matrix::fixed::{Fixed, ONE_BITS};
use led_matrix::fixedcolor::FixedColor;
use led_matrix::renderbuffer::{blend_merge, Blend, RenderBuffer};

type Buffer = RenderBuffer<16, 4, 4>;

fn cells(b: &Buffer) -> Vec<(i32, i32, i32, i32)> {
    b.buffer().iter().map(|c| (c.r.bits, c.g.bits, c.b.bits, c.a.bits)).collect()
}

fn color(r: i32, g: i32, b: i32) -> FixedColor {
    FixedColor::rgb(Fixed::from_bits(r), Fixed::from_bits(g), Fixed::from_bits(b))
}

#[test]
fn test_stream() {
    let mut buffer = Buffer::new();
    let mut store = [0u8; 1024];
    buffer.safe_set_pixel(1, 1, FixedColor::white());

    ciborium::ser::into_writer(&cells(&buffer), &mut store[..]).unwrap();

    let read: Vec<(i32, i32, i32, i32)> = ciborium::de::from_reader(&store[..]).unwrap();
    let mut b2 = Buffer::new();
    for (i, c) in read.iter().enumerate() {
        b2.buffer_mut()[i] = FixedColor {
            r: Fixed::from_bits(c.0),
            g: Fixed::from_bits(c.1),
            b: Fixed::from_bits(c.2),
            a: Fixed::from_bits(c.3),
        };
    }

    assert_eq!(buffer.get_pixel(1, 1), b2.get_pixel(1, 1));
    assert_eq!(b2.get_pixel(1, 1), FixedColor::white());
    assert_eq!(cells(&buffer), cells(&b2));
}

#[test]
fn new_buffer_is_all_default() {
    let b = Buffer::new();
    assert_eq!(b.size().x, 4);
    assert_eq!(b.size().y, 4);
    assert_eq!(b.buffer().len(), 16);
    assert!(b.buffer().iter().all(|c| *c == FixedColor::default()));
}

#[test]
fn set_pixel_is_row_major() {
    let mut b = RenderBuffer::<12, 4, 3>::new();
    b.safe_set_pixel(3, 2, FixedColor::white());
    b.safe_set_pixel(1, 0, color(1, 2, 3));
    assert_eq!(b.buffer()[3 + 2 * 4], FixedColor::white());
    assert_eq!(b.buffer()[1], color(1, 2, 3));
    assert_eq!(b.get_pixel(3, 2), FixedColor::white());
    assert_eq!(b.get_pixel(1, 0), color(1, 2, 3));
    assert_eq!(b.buffer().iter().filter(|c| **c != FixedColor::default()).count(), 2);
}

#[test]
fn set_pixel_out_of_bounds_changes_nothing() {
    let mut b = Buffer::new();
    b.safe_set_pixel(2, 3, color(5, 6, 7));
    let before = cells(&b);
    for (x, y) in [(4, 0), (0, 4), (4, 4), (u32::MAX, 0), (0, u32::MAX), (u32::MAX, u32::MAX), (5, 1)] {
        b.safe_set_pixel(x, y, FixedColor::white());
        b.safe_set_max_rgb(x, y, FixedColor::white(), Blend::Src);
        b.blend_rgb(x, y, FixedColor::white(), Fixed::zero(), Blend::Src);
        assert_eq!(cells(&b), before);
    }
}

#[test]
fn clear_to_color_overwrites_every_cell() {
    let mut b = Buffer::new();
    b.safe_set_pixel(0, 0, FixedColor::white());
    b.clear_to_color(color(9, 8, 7));
    assert!(b.buffer().iter().all(|c| *c == color(9, 8, 7)));
    b.clear();
    assert!(b.buffer().iter().all(|c| *c == FixedColor::default()));
}

#[test]
fn max_rgb_takes_the_larger_channel_and_full_alpha() {
    let mut b = Buffer::new();
    b.safe_set_pixel(1, 2, FixedColor { r: Fixed::from_bits(10), g: Fixed::from_bits(50), b: Fixed::from_bits(30), a: Fixed::zero() });
    b.safe_set_max_rgb(1, 2, color(20, 40, 30), Blend::Dest);
    let c = b.get_pixel(1, 2);
    assert_eq!((c.r.bits, c.g.bits, c.b.bits, c.a.bits), (20, 50, 30, ONE_BITS));
}

#[test]
fn max_rgb_is_commutative_and_idempotent() {
    let a = color(100, 5, 70);
    let c = color(30, 60, 70);
    let mut ab = Buffer::new();
    ab.safe_set_max_rgb(2, 1, a, Blend::Dest);
    ab.safe_set_max_rgb(2, 1, c, Blend::Dest);
    let mut ba = Buffer::new();
    ba.safe_set_max_rgb(2, 1, c, Blend::Dest);
    ba.safe_set_max_rgb(2, 1, a, Blend::Dest);
    assert_eq!(cells(&ab), cells(&ba));
    assert_eq!(ab.get_pixel(2, 1), FixedColor::rgb(Fixed::from_bits(100), Fixed::from_bits(60), Fixed::from_bits(70)));
    let mut once = Buffer::new();
    once.safe_set_max_rgb(2, 1, a, Blend::Dest);
    let mut twice = Buffer::new();
    twice.safe_set_max_rgb(2, 1, a, Blend::Dest);
    twice.safe_set_max_rgb(2, 1, a, Blend::Dest);
    assert_eq!(cells(&once), cells(&twice));
}

#[test]
fn blend_src_dest_and_merge() {
    let existing = FixedColor::from_rgb8(200, 100, 0);
    let incoming = FixedColor::from_rgb8(0, 100, 200);
    assert_eq!(Blend::Src.blend(existing, incoming), incoming);
    assert_eq!(Blend::Dest.blend(existing, incoming), existing);
    assert_eq!(Blend::Merge(Fixed::zero()).blend(existing, incoming), existing);
    assert_eq!(Blend::Merge(Fixed::one()).blend(existing, incoming), incoming);
    let half = Blend::Merge(Fixed::from_bits(ONE_BITS / 2)).blend(existing, incoming);
    assert_eq!(half.as_rgb8(), (100, 100, 100));
    assert_eq!(half, blend_merge(existing, incoming, Fixed::from_bits(ONE_BITS / 2)));
    let quarter = blend_merge(existing, incoming, Fixed::from_bits(ONE_BITS / 4));
    assert_eq!(quarter.as_rgb8(), (150, 100, 50));
}

#[test]
fn merge_keeps_the_alpha_of_the_existing_colour() {
    let existing = FixedColor { r: Fixed::zero(), g: Fixed::zero(), b: Fixed::zero(), a: Fixed::from_bits(5) };
    let incoming = FixedColor::white();
    let m = blend_merge(existing, incoming, Fixed::one());
    assert_eq!((m.r.bits, m.g.bits, m.b.bits, m.a.bits), (ONE_BITS, ONE_BITS, ONE_BITS, 5));
}

#[test]
fn blend_rgb_applies_the_law_in_bounds() {
    let mut b = Buffer::new();
    b.safe_set_pixel(0, 1, FixedColor::from_rgb8(200, 100, 0));
    b.blend_rgb(0, 1, FixedColor::from_rgb8(0, 100, 200), Fixed::zero(), Blend::Merge(Fixed::from_bits(ONE_BITS / 2)));
    assert_eq!(b.get_pixel(0, 1).as_rgb8(), (100, 100, 100));
    b.blend_rgb(0, 1, FixedColor::white(), Fixed::zero(), Blend::Dest);
    assert_eq!(b.get_pixel(0, 1).as_rgb8(), (100, 100, 100));
    b.blend_rgb(0, 1, FixedColor::white(), Fixed::zero(), Blend::Src);
    assert_eq!(b.get_pixel(0, 1), FixedColor::white());
}

#[test]
fn blend_with_mixes_two_grids() {
    let mut a = Buffer::new();
    a.clear_to_color(FixedColor::from_rgb8(200, 0, 0));
    let mut b = Buffer::new();
    b.clear_to_color(FixedColor::from_rgb8(0, 0, 200));
    a.blend_with(&b, Blend::Merge(Fixed::from_bits(ONE_BITS / 2)));
    assert!(a.buffer().iter().all(|c| c.as_rgb8() == (100, 0, 100)));
}

#[test]
fn buffer_mut_writes_through() {
    let mut b = Buffer::new();
    b.buffer_mut()[5] = FixedColor::white();
    assert_eq!(b.get_pixel(1, 1), FixedColor::white());
}
