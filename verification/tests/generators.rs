use led_matrix::fixed::{Fixed, ONE_BITS};
use led_matrix::fixedcolor::FixedColor;
use led_matrix::render::{
    Rainbow, Render, RenderType, Renderers, Snow, SnowFlake, Sparkle, SparklePoint,
    MAX_SNOWFLAKE_SPEED_BITS, MAX_SPARKLE_SPEED_BITS, MIN_SNOWFLAKE_SPEED_BITS, MIN_SPARKLE_SPEED_BITS,
    NUM_SNOWFLAKES, NUM_SPARKLE_POINTS, RAINBOW_PERIOD_BITS, RAINBOW_STEP_BITS,
};
use led_matrix::renderbuffer::{Blend, RenderBuffer};
use led_matrix::trig::{wave, wave_level, HALF_BITS};
use rand::rngs::SmallRng;
use rand::SeedableRng;

const W: usize = 5;
const H: usize = 24;
const N: usize = 120;

type Grid = RenderBuffer<N, W, H>;

fn lit(b: &Grid) -> usize {
    b.buffer().iter().filter(|c| c.as_rgb8() != (0, 0, 0)).count()
}

#[test]
fn wave_level_maps_sine_to_brightness() {
    assert_eq!(wave_level(Some(0)).bits, HALF_BITS);
    assert_eq!(wave_level(Some(ONE_BITS)).bits, ONE_BITS);
    assert_eq!(wave_level(Some(-ONE_BITS)).bits, 0);
    assert_eq!(wave_level(Some(ONE_BITS / 2)).bits, 3 * (ONE_BITS / 4));
    assert_eq!(wave_level(Some(-ONE_BITS / 2)).bits, ONE_BITS / 4);
    assert_eq!(wave_level(Some(3 * ONE_BITS)).bits, ONE_BITS);
    assert_eq!(wave_level(Some(i32::MIN)).bits, 0);
    assert_eq!(wave_level(None).bits, HALF_BITS);
}

#[test]
fn wave_follows_the_sine() {
    assert_eq!(wave(Fixed::zero()).bits, HALF_BITS);
    // a quarter turn: the sine is one
    let top = wave(Fixed::from_bits(26353589)).bits;
    assert!((ONE_BITS - top).abs() <= 4);
    // half a turn: the sine is back at zero, though the angle is not
    let mid = wave(Fixed::from_bits(52707179)).bits;
    assert!((HALF_BITS - mid).abs() <= 4);
    // three quarters: the sine is minus one
    let low = wave(Fixed::from_bits(79060768)).bits;
    assert!((0..=4).contains(&low));
    // the sine is odd
    let a = wave(Fixed::from_bits(ONE_BITS)).bits;
    let b = wave(Fixed::from_bits(-ONE_BITS)).bits;
    assert!((a + b - ONE_BITS).abs() <= 4);
    let expected = (((1.0f64).sin() * 0.5 + 0.5) * ONE_BITS as f64) as i32;
    assert!((a - expected).abs() <= 8);
}

#[test]
fn sparkle_point_from_draws_and_advance() {
    let p = SparklePoint::from_draws(1000, 500_000, 3, 4);
    assert_eq!((p.pos.x, p.pos.y, p.phase.bits, p.speed.bits), (3, 4, 1000, 500_000));
    assert_eq!(p.color, FixedColor::white());
    assert!(!p.wraps());
    let fresh = SparklePoint::from_draws(77, 100_000, 1, 2);
    let q = p.advanced(fresh);
    assert_eq!((q.pos.x, q.pos.y, q.phase.bits, q.speed.bits), (3, 4, 501_000, 500_000));
    let near = SparklePoint::from_draws((ONE_BITS - 10) as u32, 500_000, 3, 4);
    assert!(near.wraps());
    let r = near.advanced(fresh);
    assert_eq!((r.pos.x, r.pos.y, r.phase.bits, r.speed.bits), (1, 2, 0, 100_000));
    let edge = SparklePoint::from_draws((ONE_BITS - 500_000) as u32, 500_000, 3, 4);
    assert!(edge.wraps());
}

#[test]
fn random_points_lie_in_the_grid_and_differ() {
    let mut rng = SmallRng::seed_from_u64(0);
    let mut xs = std::collections::BTreeSet::new();
    let mut phases = std::collections::BTreeSet::new();
    for _ in 0..200 {
        let p = SparklePoint::random_pos(&mut rng, 50, 24);
        assert!(p.pos.x < 50 && p.pos.y < 24);
        assert!((0..ONE_BITS).contains(&p.phase.bits));
        assert!((MIN_SPARKLE_SPEED_BITS as i32..MAX_SPARKLE_SPEED_BITS as i32).contains(&p.speed.bits));
        xs.insert(p.pos.x);
        phases.insert(p.phase.bits);
    }
    assert!(xs.len() > 10);
    assert!(phases.len() > 100);
    let p = SparklePoint::random_pos(&mut rng, 1, 1);
    assert_eq!((p.pos.x, p.pos.y), (0, 0));
}

#[test]
fn the_seeded_source_repeats_itself() {
    let a = Sparkle::<W, H>::new();
    let b = Sparkle::<W, H>::new();
    for i in 0..NUM_SPARKLE_POINTS {
        assert_eq!(a.point(i), b.point(i));
    }
    let mut rng = SmallRng::seed_from_u64(0);
    for i in 0..NUM_SPARKLE_POINTS {
        assert_eq!(a.point(i), SparklePoint::random_pos(&mut rng, W as u32, H as u32));
    }
}

#[test]
fn sparkle_step_advances_or_respawns() {
    let mut s = Sparkle::<W, H>::new();
    for _ in 0..500 {
        let before: Vec<SparklePoint> = (0..NUM_SPARKLE_POINTS).map(|i| s.point(i)).collect();
        <Sparkle<W, H> as Render<N, W, H>>::step(&mut s);
        for (i, p) in before.iter().enumerate() {
            let q = s.point(i);
            assert!(q.pos.x < W as u32 && q.pos.y < H as u32);
            if p.phase.bits + p.speed.bits >= ONE_BITS {
                assert_eq!(q.phase.bits, 0);
            } else {
                assert_eq!(q.phase.bits, p.phase.bits + p.speed.bits);
                assert_eq!((q.pos, q.speed, q.color), (p.pos, p.speed, p.color));
            }
        }
    }
}

#[test]
fn sparkle_render_paints_points_scaled_by_phase() {
    let mut s = Sparkle::<W, H>::new();
    <Sparkle<W, H> as Render<N, W, H>>::step(&mut s);
    let mut b = Grid::new();
    s.render(Fixed::zero(), Fixed::zero(), &mut b, Blend::Dest);
    let last_at = |x: u32, y: u32| (0..NUM_SPARKLE_POINTS).rev().map(|i| s.point(i)).find(|p| p.pos.x == x && p.pos.y == y);
    for y in 0..H as u32 {
        for x in 0..W as u32 {
            match last_at(x, y) {
                Some(p) => assert_eq!(b.get_pixel(x, y), p.color.scale(p.phase)),
                None => assert_eq!(b.get_pixel(x, y), FixedColor::default()),
            }
        }
    }
    assert!(lit(&b) >= 2);
    let once = b.buffer().to_vec();
    s.render(Fixed::zero(), Fixed::zero(), &mut b, Blend::Dest);
    assert_eq!(b.buffer().to_vec(), once);
}

#[test]
fn snowflake_from_draws_brightness() {
    let dim = SnowFlake::from_draws(MIN_SNOWFLAKE_SPEED_BITS, 2, 3);
    assert_eq!((dim.x, dim.row, dim.frac.bits, dim.speed.bits), (2, 3, 0, 1677722));
    assert_eq!((dim.color.r.bits, dim.color.g.bits, dim.color.b.bits, dim.color.a.bits), (0, 0, 0, ONE_BITS));
    let mid = SnowFlake::from_draws(5033165, 0, 0);
    assert_eq!((mid.color.r.bits, mid.color.g.bits, mid.color.b.bits), (8388608, 8388608, 8388608));
    let fast = SnowFlake::from_draws(MAX_SNOWFLAKE_SPEED_BITS - 1, 0, 0);
    assert_eq!(fast.color.r.bits, 16777213);
}

#[test]
fn snowflake_falls_and_carries_into_the_next_row() {
    let f = SnowFlake::from_draws(6_000_000, 1, 2);
    let g = f.fallen();
    assert_eq!((g.x, g.row, g.frac.bits), (1, 2, 6_000_000));
    let h = g.fallen();
    assert_eq!((h.row, h.frac.bits), (2, 12_000_000));
    let i = h.fallen();
    assert_eq!((i.row, i.frac.bits), (3, 18_000_000 - ONE_BITS));
    assert!(!i.past_bottom(4));
    assert!(i.past_bottom(3));
    assert!(i.past_bottom(2));
    let on_edge = SnowFlake { row: 3, frac: Fixed::zero(), ..i };
    assert!(!on_edge.past_bottom(3));
    let mut top = i;
    let mut rng = SmallRng::seed_from_u64(7);
    top.new_random_top(&mut rng, 9);
    assert!(top.x < 9);
    assert_eq!((top.row, top.frac.bits, top.speed, top.color), (0, 0, i.speed, i.color));
}

#[test]
fn random_flakes_lie_in_the_grid() {
    let mut rng = SmallRng::seed_from_u64(0);
    let mut speeds = std::collections::BTreeSet::new();
    for _ in 0..200 {
        let f = SnowFlake::new_random(&mut rng, 50, 24);
        assert!(f.x < 50 && f.row < 24 && f.frac.bits == 0);
        assert!((MIN_SNOWFLAKE_SPEED_BITS as i32..MAX_SNOWFLAKE_SPEED_BITS as i32).contains(&f.speed.bits));
        assert_eq!(f, SnowFlake::from_draws(f.speed.bits as u32, f.x, f.row));
        speeds.insert(f.speed.bits);
    }
    assert!(speeds.len() > 100);
}

#[test]
fn scenario_snow_never_writes_outside_the_grid() {
    let mut s = Snow::<W, H>::new();
    for _ in 0..H {
        <Snow<W, H> as Render<N, W, H>>::step(&mut s);
    }
    for i in 0..NUM_SNOWFLAKES {
        let f = s.flake(i);
        assert!(f.x < W as u32);
        assert!(f.row < H as u32 || (f.row == H as u32 && f.frac.bits == 0));
    }
    let mut b = Grid::new();
    s.render(Fixed::zero(), Fixed::zero(), &mut b, Blend::Dest);
    assert_eq!(b.buffer().len(), N);
    // every cell that was written lies under or right below some flake
    for y in 0..H as u32 {
        for x in 0..W as u32 {
            if b.get_pixel(x, y) != FixedColor::default() {
                assert!((0..NUM_SNOWFLAKES).any(|i| {
                    let f = s.flake(i);
                    f.x == x && (f.row == y || (f.frac.bits > 0 && f.row + 1 == y))
                }));
            }
        }
    }
    assert!(lit(&b) >= 2);
}

#[test]
fn snow_step_lets_every_flake_fall() {
    let mut s = Snow::<W, H>::new();
    for _ in 0..300 {
        let before: Vec<SnowFlake> = (0..NUM_SNOWFLAKES).map(|i| s.flake(i)).collect();
        <Snow<W, H> as Render<N, W, H>>::step(&mut s);
        for (i, p) in before.iter().enumerate() {
            let q = s.flake(i);
            let fell = p.fallen();
            if fell.past_bottom(H as u32) {
                assert_eq!((q.row, q.frac.bits, q.speed, q.color), (0, 0, p.speed, p.color));
                assert!(q.x < W as u32);
            } else {
                assert_eq!(q, fell);
            }
        }
    }
}

#[test]
fn snow_render_shares_a_flake_between_two_rows() {
    let s = Snow::<W, H>::new();
    let mut b = Grid::new();
    s.render(Fixed::zero(), Fixed::zero(), &mut b, Blend::Dest);
    // fresh flakes sit on whole rows: each cell shows the brightest flake on it
    for y in 0..H as u32 {
        for x in 0..W as u32 {
            let best = (0..NUM_SNOWFLAKES).map(|i| s.flake(i)).filter(|f| f.x == x && f.row == y).map(|f| f.color.r.bits).max();
            match best {
                Some(v) => {
                    let c = b.get_pixel(x, y);
                    assert_eq!((c.r.bits, c.g.bits, c.b.bits, c.a.bits), (v, v, v, ONE_BITS));
                }
                None => assert_eq!(b.get_pixel(x, y), FixedColor::default()),
            }
        }
    }
    let mut one = RenderBuffer::<6, 2, 3>::new();
    let f = SnowFlake { frac: Fixed::from_bits(ONE_BITS / 4), ..SnowFlake::from_draws(5033165, 1, 1) };
    let upper = f.color.scale(Fixed::from_bits(3 * (ONE_BITS / 4)));
    let lower = f.color.scale(Fixed::from_bits(ONE_BITS / 4));
    one.safe_set_max_rgb(f.x, f.row, upper, Blend::Dest);
    one.safe_set_max_rgb(f.x, f.row + 1, lower, Blend::Dest);
    assert_eq!(one.get_pixel(1, 1).r.bits, 6291456);
    assert_eq!(one.get_pixel(1, 2).r.bits, 2097152);
}

#[test]
fn rainbow_phase_advances_and_wraps() {
    let mut r = Rainbow::<W, H>::new();
    assert_eq!(r.current_phase().bits, 0);
    <Rainbow<W, H> as Render<N, W, H>>::step(&mut r);
    assert_eq!(r.current_phase().bits, RAINBOW_STEP_BITS);
    let mut last = r.current_phase().bits;
    let mut wrapped = false;
    for _ in 0..2000 {
        <Rainbow<W, H> as Render<N, W, H>>::step(&mut r);
        let p = r.current_phase().bits;
        assert!((0..RAINBOW_PERIOD_BITS).contains(&p));
        if p < last {
            assert_eq!(p, last + RAINBOW_STEP_BITS - RAINBOW_PERIOD_BITS);
            wrapped = true;
        } else {
            assert_eq!(p, last + RAINBOW_STEP_BITS);
        }
        last = p;
    }
    assert!(wrapped);
}

#[test]
fn rainbow_paints_whole_columns() {
    let mut r = Rainbow::<W, H>::new();
    let mut b = Grid::new();
    r.render(Fixed::zero(), Fixed::zero(), &mut b, Blend::Dest);
    // at phase zero the first column has all three sines at zero
    assert_eq!(b.get_pixel(0, 0), FixedColor::rgb(Fixed::from_bits(HALF_BITS), Fixed::from_bits(HALF_BITS), Fixed::from_bits(HALF_BITS)));
    for _ in 0..7 {
        <Rainbow<W, H> as Render<N, W, H>>::step(&mut r);
    }
    r.render(Fixed::zero(), Fixed::zero(), &mut b, Blend::Dest);
    for x in 0..W as u32 {
        let top = b.get_pixel(x, 0);
        let offset = Fixed::from_ratio(x, W as u32);
        let t = Fixed::from_bits(r.current_phase().bits + offset.bits);
        assert_eq!(top.r, wave(t.saturating_mul(Fixed::from_bits(2 * ONE_BITS))));
        assert_eq!(top.g, wave(t.saturating_mul(Fixed::from_bits(11744051))));
        assert_eq!(top.b, wave(t.saturating_mul(Fixed::from_bits(21810381))));
        assert_eq!(top.a, Fixed::one());
        for y in 0..H as u32 {
            assert_eq!(b.get_pixel(x, y), top);
        }
    }
    let tf = (7.0 * 0.05f64 + 2.0 / 5.0) * 2.0;
    let expected = ((tf.sin() * 0.5 + 0.5) * 255.0).round() as i32;
    assert!((b.get_pixel(2, 0).as_rgb8().0 as i32 - expected).abs() <= 1);
}

#[test]
fn renderers_step_only_the_one_named() {
    let mut all = Renderers::<N, W, H>::new();
    let snow_before: Vec<SnowFlake> = (0..NUM_SNOWFLAKES).map(|i| all.snow.flake(i)).collect();
    let sparkle_before: Vec<SparklePoint> = (0..NUM_SPARKLE_POINTS).map(|i| all.sparkle.point(i)).collect();
    all.step(RenderType::Rainbow);
    assert_eq!(all.rainbow.current_phase().bits, RAINBOW_STEP_BITS);
    assert!((0..NUM_SNOWFLAKES).all(|i| all.snow.flake(i) == snow_before[i]));
    assert!((0..NUM_SPARKLE_POINTS).all(|i| all.sparkle.point(i) == sparkle_before[i]));
    all.step(RenderType::Snow);
    assert!((0..NUM_SNOWFLAKES).any(|i| all.snow.flake(i) != snow_before[i]));
    assert!((0..NUM_SPARKLE_POINTS).all(|i| all.sparkle.point(i) == sparkle_before[i]));
    assert_eq!(all.rainbow.current_phase().bits, RAINBOW_STEP_BITS);
    all.step(RenderType::Sparkle);
    assert!((0..NUM_SPARKLE_POINTS).any(|i| all.sparkle.point(i) != sparkle_before[i]));
    let mut a = Grid::new();
    let mut b = Grid::new();
    all.render(RenderType::Snow, Fixed::zero(), Fixed::zero(), &mut a, Blend::Dest);
    all.snow.render(Fixed::zero(), Fixed::zero(), &mut b, Blend::Dest);
    assert_eq!(a.buffer().to_vec(), b.buffer().to_vec());
}
