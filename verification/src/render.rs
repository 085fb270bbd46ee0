//! The procedural pattern generators: sparkle, snow and rainbow.
//!
//! Each generator advances by one tick in `step` and paints what it holds in
//! `render`, which changes nothing but the grid. The two random generators
//! draw from a source seeded with a constant, so that a run can be repeated.

use vstd::prelude::*;
use rand::rngs::SmallRng;
use crate::fixed::{clamp_i32, div_bits, Fixed, ONE_BITS};
use crate::fixedcolor::FixedColor;
use crate::geometry::UVec2;
use crate::random::{next_in_range, seeded};
use crate::renderbuffer::{Blend, RenderBuffer};
use crate::trig::{sine_bits, wave, wave_level_bits};

verus! {

/// The patterns the engine can generate.
#[derive(Clone, Copy, Debug, PartialEq, Eq, Structural)]
pub enum RenderType {
    Sparkle,
    Snow,
    Rainbow,
}

/// What the engine draws each tick: one of the patterns, or nothing.
#[derive(Clone, Copy, Debug, PartialEq, Eq, Structural)]
pub enum Renderer {
    Basic(RenderType),
    /// Nothing is drawn; the grid keeps what was written to it.
    Off,
}

/// The seed of every generator's random source.
pub const SEED: u64 = 0;

/// How many points sparkle at a time.
pub const NUM_SPARKLE_POINTS: usize = 20;

/// Raw bits of the least phase a sparkle point gains per tick: 0.005.
pub const MIN_SPARKLE_SPEED_BITS: u32 = 83886;

/// Raw bits of the bound below which a sparkle point's gain per tick stays: 0.05.
pub const MAX_SPARKLE_SPEED_BITS: u32 = 838861;

/// A point that flashes: it brightens as its phase grows and jumps elsewhere
/// when the phase has run through.
#[derive(Clone, Copy, Debug, PartialEq, Eq, Structural)]
pub struct SparklePoint {
    pub pos: UVec2,
    pub color: FixedColor,
    pub phase: Fixed,
    pub speed: Fixed,
}

impl SparklePoint {
    /// Whether the point lies in a grid of the given size, with a phase below
    /// one, a speed in its range, and the colour white.
    pub open spec fn valid(&self, x_max: u32, y_max: u32) -> bool {
        &&& self.pos.x < x_max
        &&& self.pos.y < y_max
        &&& 0 <= self.phase.bits < ONE_BITS
        &&& MIN_SPARKLE_SPEED_BITS <= self.speed.bits < MAX_SPARKLE_SPEED_BITS
        &&& self.color == FixedColor::spec_white()
    }

    /// Whether the next tick takes the phase to one or beyond.
    pub open spec fn spec_wraps(&self) -> bool {
        clamp_i32(self.phase.raw() + self.speed.raw()) >= ONE_BITS
    }

    /// The point one tick later, where `fresh` is the point drawn to take its
    /// place should the phase run through: in specifications.
    pub open spec fn spec_advanced(&self, fresh: SparklePoint) -> SparklePoint {
        if self.spec_wraps() {
            SparklePoint { phase: Fixed::spec_zero(), ..fresh }
        } else {
            SparklePoint {
                phase: Fixed { bits: clamp_i32(self.phase.raw() + self.speed.raw()) as i32 },
                ..*self
            }
        }
    }

    /// The colour the point shows: its colour scaled by its phase.
    pub open spec fn shown(&self) -> FixedColor {
        self.color.spec_scale(self.phase)
    }

    /// The white point of the four numbers drawn for it.
    pub fn from_draws(phase_bits: u32, speed_bits: u32, x: u32, y: u32) -> (p: SparklePoint)
        requires
            phase_bits < ONE_BITS,
            MIN_SPARKLE_SPEED_BITS <= speed_bits < MAX_SPARKLE_SPEED_BITS,
        ensures
            p == (SparklePoint {
                pos: UVec2 { x, y },
                color: FixedColor::spec_white(),
                phase: Fixed { bits: phase_bits as i32 },
                speed: Fixed { bits: speed_bits as i32 },
            }),
    {
        SparklePoint {
            pos: UVec2::new(x, y),
            color: FixedColor::white(),
            phase: Fixed::from_bits(phase_bits as i32),
            speed: Fixed::from_bits(speed_bits as i32),
        }
    }

    /// A point drawn at random: a phase below one, a speed in its range, and a
    /// place in a grid of `x_max` columns and `y_max` rows.
    pub fn random_pos(rng: &mut SmallRng, x_max: u32, y_max: u32) -> (p: SparklePoint)
        requires
            x_max > 0,
            y_max > 0,
        ensures
            p.valid(x_max, y_max),
    {
        let phase = next_in_range(rng, 0, ONE_BITS as u32);
        let speed = next_in_range(rng, MIN_SPARKLE_SPEED_BITS, MAX_SPARKLE_SPEED_BITS);
        let x = next_in_range(rng, 0, x_max);
        let y = next_in_range(rng, 0, y_max);
        Self::from_draws(phase, speed, x, y)
    }

    /// Whether the next tick takes the phase to one or beyond.
    #[verifier::when_used_as_spec(spec_wraps)]
    pub fn wraps(&self) -> (w: bool)
        ensures
            w == self.spec_wraps(),
    {
        self.phase.saturating_add(self.speed).bits >= ONE_BITS
    }

    /// The point one tick later: the phase grown by the speed, or, where that
    /// takes it to one or beyond, the point `fresh` with its phase at zero.
    #[verifier::when_used_as_spec(spec_advanced)]
    pub fn advanced(&self, fresh: SparklePoint) -> (p: SparklePoint)
        ensures
            p == self.spec_advanced(fresh),
    {
        let phase = self.phase.saturating_add(self.speed);
        if phase.bits >= ONE_BITS {
            SparklePoint { pos: fresh.pos, color: fresh.color, phase: Fixed::zero(), speed: fresh.speed }
        } else {
            SparklePoint { pos: self.pos, color: self.color, phase, speed: self.speed }
        }
    }
}

/// The grid after the first `n` of `points` have been painted onto `cells`,
/// each overwriting the cell it lies on.
pub open spec fn sparkle_painted<const S: usize, const X: usize, const Y: usize>(
    cells: Seq<FixedColor>,
    points: Seq<SparklePoint>,
    n: nat,
) -> Seq<FixedColor>
    decreases n,
{
    if n == 0 {
        cells
    } else {
        let p = points[n - 1];
        RenderBuffer::<S, X, Y>::with_pixel(
            sparkle_painted::<S, X, Y>(cells, points, (n - 1) as nat),
            p.pos.x,
            p.pos.y,
            p.shown(),
        )
    }
}

/// The points of a sparkle generator, every one of them inside the grid.
pub struct SparklePoints<const X: usize, const Y: usize> {
    points: [SparklePoint; NUM_SPARKLE_POINTS],
}

impl<const X: usize, const Y: usize> View for SparklePoints<X, Y> {
    type V = Seq<SparklePoint>;

    closed spec fn view(&self) -> Seq<SparklePoint> {
        self.points@
    }
}

impl<const X: usize, const Y: usize> SparklePoints<X, Y> {
    /// Whether a grid of this size has a cell, and coordinates that fit.
    pub open spec fn grid_ok() -> bool {
        0 < X <= u32::MAX && 0 < Y <= u32::MAX
    }

    #[verifier::type_invariant]
    closed spec fn inv(&self) -> bool {
        &&& Self::grid_ok()
        &&& forall|i: int|
            0 <= i < NUM_SPARKLE_POINTS ==> (#[trigger] self.points@[i]).valid(X as u32, Y as u32)
    }

    /// Twenty copies of one point.
    pub fn filled(point: SparklePoint) -> (s: Self)
        requires
            Self::grid_ok(),
            point.valid(X as u32, Y as u32),
        ensures
            s@.len() == NUM_SPARKLE_POINTS,
            forall|i: int| 0 <= i < NUM_SPARKLE_POINTS ==> s@[i] == point,
    {
        Self { points: [point; NUM_SPARKLE_POINTS] }
    }

    /// The point at place `i`.
    pub fn get(&self, i: usize) -> (p: SparklePoint)
        requires
            i < NUM_SPARKLE_POINTS,
        ensures
            p == self@[i as int],
            p.valid(X as u32, Y as u32),
            Self::grid_ok(),
            self@.len() == NUM_SPARKLE_POINTS,
    {
        proof {
            use_type_invariant(self);
        }
        self.points[i]
    }

    /// Puts `point` at place `i`.
    pub fn set(&mut self, i: usize, point: SparklePoint)
        requires
            i < NUM_SPARKLE_POINTS,
            point.valid(X as u32, Y as u32),
        ensures
            final(self)@ == old(self)@.update(i as int, point),
    {
        proof {
            use_type_invariant(&*self);
        }
        self.points[i] = point;
    }
}

/// Points that flash all over a grid of `X` columns and `Y` rows.
pub struct Sparkle<const X: usize, const Y: usize> {
    points: SparklePoints<X, Y>,
    rng: SmallRng,
}

impl<const X: usize, const Y: usize> Sparkle<X, Y> {
    /// Whether a grid of this size has a cell, and coordinates that fit.
    pub open spec fn grid_ok() -> bool {
        0 < X <= u32::MAX && 0 < Y <= u32::MAX
    }

    /// The points, in the order in which they are painted.
    pub closed spec fn points(&self) -> Seq<SparklePoint> {
        self.points@
    }

    /// Whether `next` can come of this generator by one tick: every point
    /// whose phase has not run through has gained its speed and is otherwise
    /// as it was; every other point has its phase at zero and lies in the grid.
    pub open spec fn steps_to(&self, next: &Self) -> bool {
        &&& next.points().len() == NUM_SPARKLE_POINTS
        &&& forall|i: int|
            0 <= i < NUM_SPARKLE_POINTS ==> {
                let p = #[trigger] self.points()[i];
                let q = next.points()[i];
                if p.spec_wraps() {
                    q.phase == Fixed::spec_zero() && q.valid(X as u32, Y as u32)
                } else {
                    q == p.spec_advanced(p)
                }
            }
    }

    /// Twenty points drawn at random from the seeded source.
    pub fn new() -> (s: Self)
        requires
            Self::grid_ok(),
        ensures
            s.points().len() == NUM_SPARKLE_POINTS,
            forall|i: int|
                0 <= i < NUM_SPARKLE_POINTS ==> (#[trigger] s.points()[i]).valid(X as u32, Y as u32),
    {
        let mut rng = seeded(SEED);
        let first = SparklePoint::random_pos(&mut rng, X as u32, Y as u32);
        let mut points = SparklePoints::<X, Y>::filled(first);
        let mut i: usize = 1;
        while i < NUM_SPARKLE_POINTS
            invariant
                1 <= i <= NUM_SPARKLE_POINTS,
                Self::grid_ok(),
                points@.len() == NUM_SPARKLE_POINTS,
                forall|j: int|
                    0 <= j < NUM_SPARKLE_POINTS ==> (#[trigger] points@[j]).valid(X as u32, Y as u32),
            decreases NUM_SPARKLE_POINTS - i,
        {
            let p = SparklePoint::random_pos(&mut rng, X as u32, Y as u32);
            points.set(i, p);
            i += 1;
        }
        Self { points, rng }
    }

    /// The point at place `i`, which lies in the grid.
    pub fn point(&self, i: usize) -> (p: SparklePoint)
        requires
            i < NUM_SPARKLE_POINTS,
        ensures
            p == self.points()[i as int],
            p.valid(X as u32, Y as u32),
    {
        self.points.get(i)
    }

    /// Advances every point by one tick, drawing a new point for each whose
    /// phase has run through.
    pub fn advance(&mut self)
        ensures
            old(self).steps_to(final(self)),
    {
        let mut i: usize = 0;
        while i < NUM_SPARKLE_POINTS
            invariant
                i <= NUM_SPARKLE_POINTS,
                self.points@.len() == NUM_SPARKLE_POINTS,
                forall|j: int| i <= j < NUM_SPARKLE_POINTS ==> self.points@[j] == old(self).points@[j],
                forall|j: int|
                    0 <= j < i ==> {
                        let p = #[trigger] old(self).points@[j];
                        let q = self.points@[j];
                        if p.spec_wraps() {
                            q.phase == Fixed::spec_zero() && q.valid(X as u32, Y as u32)
                        } else {
                            q == p.spec_advanced(p)
                        }
                    },
            decreases NUM_SPARKLE_POINTS - i,
        {
            let p = self.points.get(i);
            if p.wraps() {
                let fresh = SparklePoint::random_pos(&mut self.rng, X as u32, Y as u32);
                self.points.set(i, p.advanced(fresh));
            } else {
                self.points.set(i, p.advanced(p));
            }
            i += 1;
        }
    }

    /// Paints every point, scaled by its phase, over the cell it lies on. The
    /// times and the blend mode are not consulted.
    pub fn paint<const S: usize>(
        &self,
        _t: Fixed,
        _dt: Fixed,
        buffer: &mut RenderBuffer<S, X, Y>,
        _blend: Blend,
    )
        ensures
            final(buffer)@ == sparkle_painted::<S, X, Y>(
                old(buffer)@,
                self.points(),
                NUM_SPARKLE_POINTS as nat,
            ),
    {
        let mut i: usize = 0;
        while i < NUM_SPARKLE_POINTS
            invariant
                i <= NUM_SPARKLE_POINTS,
                buffer@ == sparkle_painted::<S, X, Y>(old(buffer)@, self.points@, i as nat),
            decreases NUM_SPARKLE_POINTS - i,
        {
            let point = self.points.get(i);
            let colour = point.color.scale(point.phase);
            buffer.safe_set_pixel(point.pos.x, point.pos.y, colour);
            i += 1;
        }
    }
}

/// How many flakes fall at a time.
pub const NUM_SNOWFLAKES: usize = 30;

/// Raw bits of the least fall per tick, in rows: 0.1.
pub const MIN_SNOWFLAKE_SPEED_BITS: u32 = 1677722;

/// Raw bits of the bound below which the fall per tick stays: 0.5.
pub const MAX_SNOWFLAKE_SPEED_BITS: u32 = 8388608;

/// Raw bits of how bright a flake of the given speed is: nothing at the least
/// speed, and rising in a straight line towards one at the greatest.
pub open spec fn flake_brightness_bits(speed_bits: int) -> int {
    clamp_i32(
        div_bits(
            speed_bits - MIN_SNOWFLAKE_SPEED_BITS,
            MAX_SNOWFLAKE_SPEED_BITS - MIN_SNOWFLAKE_SPEED_BITS,
        ),
    )
}

/// The colour of a flake of the given speed: white scaled by its brightness.
pub open spec fn flake_color(speed: Fixed) -> FixedColor {
    FixedColor::spec_white().spec_scale(Fixed { bits: flake_brightness_bits(speed.raw()) as i32 })
}

/// A falling flake. Its height is `row` whole rows and `frac` of a row more,
/// counted from the top.
#[derive(Clone, Copy, Debug, PartialEq, Eq, Structural)]
pub struct SnowFlake {
    pub x: u32,
    pub row: u32,
    pub frac: Fixed,
    pub speed: Fixed,
    pub color: FixedColor,
}

impl SnowFlake {
    /// Whether the flake lies in a grid of the given size, or exactly on its
    /// lower edge, with a speed in its range and the colour of that speed.
    pub open spec fn valid(&self, x_max: u32, y_max: u32) -> bool {
        &&& self.x < x_max
        &&& 0 <= self.frac.bits < ONE_BITS
        &&& self.row < y_max || (self.row == y_max && self.frac.bits == 0)
        &&& MIN_SNOWFLAKE_SPEED_BITS <= self.speed.bits < MAX_SNOWFLAKE_SPEED_BITS
        &&& self.color == flake_color(self.speed)
    }

    /// The flake after it has fallen by its speed: in specifications.
    pub open spec fn spec_fallen(&self) -> SnowFlake {
        let sum = self.frac.raw() + self.speed.raw();
        if sum >= ONE_BITS {
            SnowFlake { row: (self.row + 1) as u32, frac: Fixed { bits: (sum - ONE_BITS) as i32 }, ..*self }
        } else {
            SnowFlake { frac: Fixed { bits: sum as i32 }, ..*self }
        }
    }

    /// Whether the flake has gone past the lower edge of a grid of `y_max` rows.
    pub open spec fn spec_past_bottom(&self, y_max: u32) -> bool {
        self.row > y_max || (self.row == y_max && self.frac.bits > 0)
    }

    /// The flake put back on the top row, in column `x`: in specifications.
    pub open spec fn spec_at_top(&self, x: u32) -> SnowFlake {
        SnowFlake { x, row: 0, frac: Fixed::spec_zero(), ..*self }
    }

    /// The flake one tick later, where `x` is the column drawn for it should
    /// it have gone past the lower edge: in specifications.
    pub open spec fn spec_advanced(&self, y_max: u32, x: u32) -> SnowFlake {
        if self.spec_fallen().spec_past_bottom(y_max) {
            self.spec_fallen().spec_at_top(x)
        } else {
            self.spec_fallen()
        }
    }

    /// Whether `next` can come of this flake by one tick in a grid of the
    /// given size: it is the flake advanced, with some column of the grid as
    /// the one drawn.
    pub open spec fn steps_to(&self, next: SnowFlake, x_max: u32, y_max: u32) -> bool {
        exists|x: u32| x < x_max && next == #[trigger] self.spec_advanced(y_max, x)
    }

    /// The flake of the three numbers drawn for it, at the top of row `y`.
    pub fn from_draws(speed_bits: u32, x: u32, y: u32) -> (f: SnowFlake)
        requires
            MIN_SNOWFLAKE_SPEED_BITS <= speed_bits < MAX_SNOWFLAKE_SPEED_BITS,
        ensures
            f == (SnowFlake {
                x,
                row: y,
                frac: Fixed::spec_zero(),
                speed: Fixed { bits: speed_bits as i32 },
                color: flake_color(Fixed { bits: speed_bits as i32 }),
            }),
    {
        let speed = Fixed::from_bits(speed_bits as i32);
        let above = speed.saturating_sub(Fixed::from_bits(MIN_SNOWFLAKE_SPEED_BITS as i32));
        let span = Fixed::from_bits((MAX_SNOWFLAKE_SPEED_BITS - MIN_SNOWFLAKE_SPEED_BITS) as i32);
        let scale = match above.checked_div(span) {
            Some(q) => q,
            None => Fixed::zero(),
        };
        let color = FixedColor::white().scale(scale);
        SnowFlake { x, row: y, frac: Fixed::zero(), speed, color }
    }

    /// A flake drawn at random: a speed in its range, and the top of a cell of
    /// a grid of `x_max` columns and `y_max` rows.
    pub fn new_random(rng: &mut SmallRng, x_max: u32, y_max: u32) -> (f: SnowFlake)
        requires
            x_max > 0,
            y_max > 0,
        ensures
            f.valid(x_max, y_max),
            f.row < y_max,
            f.frac == Fixed::spec_zero(),
    {
        let speed = next_in_range(rng, MIN_SNOWFLAKE_SPEED_BITS, MAX_SNOWFLAKE_SPEED_BITS);
        let x = next_in_range(rng, 0, x_max);
        let y = next_in_range(rng, 0, y_max);
        Self::from_draws(speed, x, y)
    }

    /// Puts the flake back on the top row, in a column drawn at random.
    pub fn new_random_top(&mut self, rng: &mut SmallRng, x_max: u32)
        requires
            x_max > 0,
        ensures
            *final(self) == old(self).spec_at_top(final(self).x),
            final(self).x < x_max,
    {
        let x = next_in_range(rng, 0, x_max);
        self.x = x;
        self.row = 0;
        self.frac = Fixed::zero();
    }

    /// The flake after it has fallen by its speed.
    #[verifier::when_used_as_spec(spec_fallen)]
    pub fn fallen(&self) -> (f: SnowFlake)
        requires
            self.row < u32::MAX || self.frac.bits + self.speed.bits < ONE_BITS,
            0 <= self.frac.bits < ONE_BITS,
            0 <= self.speed.bits < ONE_BITS,
        ensures
            f == self.spec_fallen(),
    {
        let sum: i32 = self.frac.bits + self.speed.bits;
        if sum >= ONE_BITS {
            SnowFlake {
                x: self.x,
                row: self.row + 1,
                frac: Fixed::from_bits(sum - ONE_BITS),
                speed: self.speed,
                color: self.color,
            }
        } else {
            SnowFlake {
                x: self.x,
                row: self.row,
                frac: Fixed::from_bits(sum),
                speed: self.speed,
                color: self.color,
            }
        }
    }

    /// Whether the flake has gone past the lower edge of a grid of `y_max` rows.
    #[verifier::when_used_as_spec(spec_past_bottom)]
    pub fn past_bottom(&self, y_max: u32) -> (past: bool)
        ensures
            past == self.spec_past_bottom(y_max),
    {
        self.row > y_max || (self.row == y_max && self.frac.bits > 0)
    }
}

/// The grid after one flake has been painted onto `cells`: its colour is
/// shared between the row it is in and the row below, by how far it has
/// fallen into the row, and each cell keeps the brighter of what it had and
/// what it is given.
pub open spec fn flake_painted<const S: usize, const X: usize, const Y: usize>(
    cells: Seq<FixedColor>,
    f: SnowFlake,
) -> Seq<FixedColor> {
    let upper = RenderBuffer::<S, X, Y>::with_max_rgb(
        cells,
        f.x,
        f.row,
        f.color.spec_scale(Fixed { bits: clamp_i32(ONE_BITS - f.frac.raw()) as i32 }),
    );
    if f.frac.bits > 0 {
        RenderBuffer::<S, X, Y>::with_max_rgb(upper, f.x, (f.row + 1) as u32, f.color.spec_scale(f.frac))
    } else {
        upper
    }
}

/// The grid after the first `n` of `flakes` have been painted onto `cells`.
pub open spec fn snow_painted<const S: usize, const X: usize, const Y: usize>(
    cells: Seq<FixedColor>,
    flakes: Seq<SnowFlake>,
    n: nat,
) -> Seq<FixedColor>
    decreases n,
{
    if n == 0 {
        cells
    } else {
        flake_painted::<S, X, Y>(snow_painted::<S, X, Y>(cells, flakes, (n - 1) as nat), flakes[n - 1])
    }
}

/// The flakes of a snow generator, every one of them inside the grid or on
/// its lower edge.
pub struct SnowFlakes<const X: usize, const Y: usize> {
    flakes: [SnowFlake; NUM_SNOWFLAKES],
}

impl<const X: usize, const Y: usize> View for SnowFlakes<X, Y> {
    type V = Seq<SnowFlake>;

    closed spec fn view(&self) -> Seq<SnowFlake> {
        self.flakes@
    }
}

impl<const X: usize, const Y: usize> SnowFlakes<X, Y> {
    /// Whether a grid of this size has a cell, and coordinates that fit.
    pub open spec fn grid_ok() -> bool {
        0 < X <= u32::MAX && 0 < Y <= u32::MAX
    }

    #[verifier::type_invariant]
    closed spec fn inv(&self) -> bool {
        &&& Self::grid_ok()
        &&& forall|i: int|
            0 <= i < NUM_SNOWFLAKES ==> (#[trigger] self.flakes@[i]).valid(X as u32, Y as u32)
    }

    /// Thirty copies of one flake.
    pub fn filled(flake: SnowFlake) -> (s: Self)
        requires
            Self::grid_ok(),
            flake.valid(X as u32, Y as u32),
        ensures
            s@.len() == NUM_SNOWFLAKES,
            forall|i: int| 0 <= i < NUM_SNOWFLAKES ==> s@[i] == flake,
    {
        Self { flakes: [flake; NUM_SNOWFLAKES] }
    }

    /// The flake at place `i`.
    pub fn get(&self, i: usize) -> (f: SnowFlake)
        requires
            i < NUM_SNOWFLAKES,
        ensures
            f == self@[i as int],
            f.valid(X as u32, Y as u32),
            Self::grid_ok(),
            self@.len() == NUM_SNOWFLAKES,
    {
        proof {
            use_type_invariant(self);
        }
        self.flakes[i]
    }

    /// Puts `flake` at place `i`.
    pub fn set(&mut self, i: usize, flake: SnowFlake)
        requires
            i < NUM_SNOWFLAKES,
            flake.valid(X as u32, Y as u32),
        ensures
            final(self)@ == old(self)@.update(i as int, flake),
    {
        proof {
            use_type_invariant(&*self);
        }
        self.flakes[i] = flake;
    }
}

/// Flakes that fall down a grid of `X` columns and `Y` rows.
pub struct Snow<const X: usize, const Y: usize> {
    snowflakes: SnowFlakes<X, Y>,
    rng: SmallRng,
}

impl<const X: usize, const Y: usize> Snow<X, Y> {
    /// Whether a grid of this size has a cell, and coordinates that fit.
    pub open spec fn grid_ok() -> bool {
        0 < X <= u32::MAX && 0 < Y <= u32::MAX
    }

    /// The flakes, in the order in which they are painted.
    pub closed spec fn flakes(&self) -> Seq<SnowFlake> {
        self.snowflakes@
    }

    /// Whether `next` can come of this generator by one tick: every flake has
    /// fallen by its speed, and each that went past the lower edge is back on
    /// the top row, in some column of the grid.
    pub open spec fn steps_to(&self, next: &Self) -> bool {
        &&& next.flakes().len() == NUM_SNOWFLAKES
        &&& forall|i: int|
            0 <= i < NUM_SNOWFLAKES ==> (#[trigger] self.flakes()[i]).steps_to(
                next.flakes()[i],
                X as u32,
                Y as u32,
            )
    }

    /// Thirty flakes drawn at random from the seeded source.
    pub fn new() -> (s: Self)
        requires
            Self::grid_ok(),
        ensures
            s.flakes().len() == NUM_SNOWFLAKES,
            forall|i: int|
                0 <= i < NUM_SNOWFLAKES ==> {
                    let f = #[trigger] s.flakes()[i];
                    f.valid(X as u32, Y as u32) && f.row < Y && f.frac == Fixed::spec_zero()
                },
    {
        let mut rng = seeded(SEED);
        let first = SnowFlake::new_random(&mut rng, X as u32, Y as u32);
        let mut snowflakes = SnowFlakes::<X, Y>::filled(first);
        let mut i: usize = 1;
        while i < NUM_SNOWFLAKES
            invariant
                1 <= i <= NUM_SNOWFLAKES,
                Self::grid_ok(),
                snowflakes@.len() == NUM_SNOWFLAKES,
                forall|j: int|
                    0 <= j < NUM_SNOWFLAKES ==> {
                        let f = #[trigger] snowflakes@[j];
                        f.valid(X as u32, Y as u32) && f.row < Y && f.frac == Fixed::spec_zero()
                    },
            decreases NUM_SNOWFLAKES - i,
        {
            let f = SnowFlake::new_random(&mut rng, X as u32, Y as u32);
            snowflakes.set(i, f);
            i += 1;
        }
        Self { snowflakes, rng }
    }

    /// The flake at place `i`, which lies in the grid or on its lower edge.
    pub fn flake(&self, i: usize) -> (f: SnowFlake)
        requires
            i < NUM_SNOWFLAKES,
        ensures
            f == self.flakes()[i as int],
            f.valid(X as u32, Y as u32),
    {
        self.snowflakes.get(i)
    }

    /// Lets every flake fall by its speed, and puts each that went past the
    /// lower edge back on the top row, in a column drawn at random.
    pub fn advance(&mut self)
        ensures
            old(self).steps_to(final(self)),
    {
        proof {
            use_type_invariant(&self.snowflakes);
        }
        let mut i: usize = 0;
        while i < NUM_SNOWFLAKES
            invariant
                i <= NUM_SNOWFLAKES,
                Self::grid_ok(),
                self.snowflakes@.len() == NUM_SNOWFLAKES,
                forall|j: int| i <= j < NUM_SNOWFLAKES ==> self.snowflakes@[j] == old(self).snowflakes@[j],
                forall|j: int|
                    0 <= j < i ==> (#[trigger] old(self).snowflakes@[j]).steps_to(
                        self.snowflakes@[j],
                        X as u32,
                        Y as u32,
                    ),
            decreases NUM_SNOWFLAKES - i,
        {
            let before = self.snowflakes.get(i);
            let mut flake = before.fallen();
            if flake.past_bottom(Y as u32) {
                flake.new_random_top(&mut self.rng, X as u32);
                assert(flake == before.spec_advanced(Y as u32, flake.x));
            } else {
                assert(flake == before.spec_advanced(Y as u32, 0));
            }
            self.snowflakes.set(i, flake);
            i += 1;
        }
    }

    /// Paints every flake: its colour goes to the row it is in and the row
    /// below, shared by how far it has fallen into the row, and where flakes
    /// meet the brighter one shows. The times and the blend mode are not
    /// consulted.
    pub fn paint<const S: usize>(
        &self,
        _t: Fixed,
        _dt: Fixed,
        buffer: &mut RenderBuffer<S, X, Y>,
        blend: Blend,
    )
        ensures
            final(buffer)@ == snow_painted::<S, X, Y>(old(buffer)@, self.flakes(), NUM_SNOWFLAKES as nat),
    {
        let mut i: usize = 0;
        while i < NUM_SNOWFLAKES
            invariant
                i <= NUM_SNOWFLAKES,
                buffer@ == snow_painted::<S, X, Y>(old(buffer)@, self.snowflakes@, i as nat),
            decreases NUM_SNOWFLAKES - i,
        {
            let flake = self.snowflakes.get(i);
            let phase = flake.frac;
            let upper = flake.color.scale(Fixed::one().saturating_sub(phase));
            buffer.safe_set_max_rgb(flake.x, flake.row, upper, blend);
            if phase.bits > 0 {
                buffer.safe_set_max_rgb(flake.x, flake.row + 1, flake.color.scale(phase), blend);
            }
            i += 1;
        }
    }
}

/// Raw bits of what the rainbow's phase gains per tick: 0.05.
pub const RAINBOW_STEP_BITS: i32 = 838861;

/// Raw bits of the span after which the rainbow repeats: twenty times pi, the
/// least span that holds a whole number of each of its three waves.
pub const RAINBOW_PERIOD_BITS: i32 = 1054143571;

/// Raw bits of the rate of the red wave: 2.
pub const RED_RATE_BITS: i32 = 0x0200_0000;

/// Raw bits of the rate of the green wave: 0.7.
pub const GREEN_RATE_BITS: i32 = 11744051;

/// Raw bits of the rate of the blue wave: 1.3.
pub const BLUE_RATE_BITS: i32 = 21810381;

/// The rainbow's phase one tick later, as raw bits: grown by the step, and
/// brought back by one period once it has reached it.
pub open spec fn rainbow_next_phase_bits(phase: int) -> int {
    if phase + RAINBOW_STEP_BITS >= RAINBOW_PERIOD_BITS {
        phase + RAINBOW_STEP_BITS - RAINBOW_PERIOD_BITS
    } else {
        phase + RAINBOW_STEP_BITS
    }
}

/// The angle of one wave in one column, as raw bits: the phase plus the
/// column's share of the width, times the wave's rate.
pub open spec fn rainbow_angle_bits(phase: int, x: int, width: int, rate: int) -> int {
    clamp_i32(crate::fixed::mul_bits(phase + crate::fixed::ratio_bits(x, width), rate))
}

/// The colour of column `x` of a rainbow of the given width at the given phase.
pub open spec fn rainbow_color(phase: Fixed, x: u32, width: u32) -> FixedColor {
    FixedColor {
        r: Fixed {
            bits: wave_level_bits(
                sine_bits(rainbow_angle_bits(phase.raw(), x as int, width as int, RED_RATE_BITS as int) as i32),
            ) as i32,
        },
        g: Fixed {
            bits: wave_level_bits(
                sine_bits(
                    rainbow_angle_bits(phase.raw(), x as int, width as int, GREEN_RATE_BITS as int) as i32,
                ),
            ) as i32,
        },
        b: Fixed {
            bits: wave_level_bits(
                sine_bits(rainbow_angle_bits(phase.raw(), x as int, width as int, BLUE_RATE_BITS as int) as i32),
            ) as i32,
        },
        a: Fixed::spec_one(),
    }
}

/// The grid a rainbow of the given phase paints: every cell in the colour of
/// its column.
pub open spec fn rainbow_painted<const S: usize, const X: usize, const Y: usize>(phase: Fixed) -> Seq<
    FixedColor,
> {
    Seq::new(S as nat, |i: int| rainbow_color(phase, (i % (X as int)) as u32, X as u32))
}

/// Three waves of colour that drift across a grid of `X` columns and `Y` rows.
pub struct Rainbow<const X: usize, const Y: usize> {
    phase: Fixed,
}

impl<const X: usize, const Y: usize> Rainbow<X, Y> {
    #[verifier::type_invariant]
    closed spec fn inv(&self) -> bool {
        0 <= self.phase.bits < RAINBOW_PERIOD_BITS
    }

    /// How far the waves have drifted: at least zero and less than one period.
    pub closed spec fn phase(&self) -> Fixed {
        self.phase
    }

    /// Whether `next` comes of this generator by one tick.
    pub open spec fn steps_to(&self, next: &Self) -> bool {
        next.phase().raw() == rainbow_next_phase_bits(self.phase().raw())
    }

    /// A rainbow that has not drifted yet.
    pub fn new() -> (r: Self)
        ensures
            r.phase() == Fixed::spec_zero(),
    {
        Self { phase: Fixed::zero() }
    }

    /// How far the waves have drifted: at least zero and less than one period.
    pub fn current_phase(&self) -> (p: Fixed)
        ensures
            p == self.phase(),
            0 <= p.bits < RAINBOW_PERIOD_BITS,
    {
        proof {
            use_type_invariant(self);
        }
        self.phase
    }

    /// Lets the waves drift by one step.
    pub fn advance(&mut self)
        ensures
            old(self).steps_to(final(self)),
            0 <= final(self).phase().bits < RAINBOW_PERIOD_BITS,
    {
        proof {
            use_type_invariant(&*self);
        }
        let grown: i32 = self.phase.bits + RAINBOW_STEP_BITS;
        if grown >= RAINBOW_PERIOD_BITS {
            self.phase = Fixed::from_bits(grown - RAINBOW_PERIOD_BITS);
        } else {
            self.phase = Fixed::from_bits(grown);
        }
    }

    /// The colour of column `x` at the present phase.
    fn column_color(&self, x: u32) -> (c: FixedColor)
        requires
            x < X <= u32::MAX,
        ensures
            c == rainbow_color(self.phase(), x, X as u32),
    {
        proof {
            use_type_invariant(self);
        }
        let offset = Fixed::from_ratio(x, X as u32);
        let t = Fixed::from_bits(self.phase.bits + offset.bits);
        let r = wave(t.saturating_mul(Fixed::from_bits(RED_RATE_BITS)));
        let g = wave(t.saturating_mul(Fixed::from_bits(GREEN_RATE_BITS)));
        let b = wave(t.saturating_mul(Fixed::from_bits(BLUE_RATE_BITS)));
        FixedColor::rgb(r, g, b)
    }

    /// Paints every cell: each column in the colour of its three waves, the
    /// same in every row. The times and the blend mode are not consulted.
    pub fn paint<const S: usize>(
        &self,
        _t: Fixed,
        _dt: Fixed,
        buffer: &mut RenderBuffer<S, X, Y>,
        _blend: Blend,
    )
        ensures
            final(buffer)@ == rainbow_painted::<S, X, Y>(self.phase()),
            forall|x: u32, y: u32|
                RenderBuffer::<S, X, Y>::in_bounds(x, y) ==> final(buffer)@[#[trigger] RenderBuffer::<
                    S,
                    X,
                    Y,
                >::cell(x, y)] == rainbow_color(self.phase(), x, X as u32),
    {
        let size = buffer.size();
        let mut x: u32 = 0;
        while x < size.x
            invariant
                size.x == X,
                size.y == Y,
                RenderBuffer::<S, X, Y>::dimensions_ok(),
                x <= size.x,
                buffer@.len() == S,
                forall|i: u32, j: u32|
                    i < x && j < Y ==> buffer@[#[trigger] RenderBuffer::<S, X, Y>::cell(i, j)]
                        == rainbow_color(self.phase(), i, X as u32),
            decreases size.x - x,
        {
            let c = self.column_color(x);
            let mut y: u32 = 0;
            while y < size.y
                invariant
                    size.x == X,
                    size.y == Y,
                    RenderBuffer::<S, X, Y>::dimensions_ok(),
                    x < size.x,
                    y <= size.y,
                    buffer@.len() == S,
                    c == rainbow_color(self.phase(), x, X as u32),
                    forall|i: u32, j: u32|
                        i < x && j < Y ==> buffer@[#[trigger] RenderBuffer::<S, X, Y>::cell(i, j)]
                            == rainbow_color(self.phase(), i, X as u32),
                    forall|j: u32|
                        j < y ==> buffer@[#[trigger] RenderBuffer::<S, X, Y>::cell(x, j)] == c,
                decreases size.y - y,
            {
                proof {
                    RenderBuffer::<S, X, Y>::lemma_cells_differ(x, y);
                }
                buffer.safe_set_pixel(x, y, c);
                y += 1;
            }
            x += 1;
        }
        proof {
            let painted = rainbow_painted::<S, X, Y>(self.phase());
            assert forall|i: int| 0 <= i < S implies buffer@[i] == painted[i] by {
                let w = X as int;
                let col = i % w;
                let row = i / w;
                assert(0 <= col < w && 0 <= row < Y && i == col + row * w) by (nonlinear_arith)
                    requires
                        0 <= i < w * Y,
                        w > 0,
                        col == i % w,
                        row == i / w,
                ;
                assert(RenderBuffer::<S, X, Y>::cell(col as u32, row as u32) == i);
            }
            assert(buffer@ =~= painted);
        }
    }
}

/// What every generator offers: a tick, and a painting that changes nothing
/// but the grid.
pub trait Render<const S: usize, const X: usize, const Y: usize>: Sized {
    /// Whether `next` can come of this generator by one tick.
    spec fn may_become(&self, next: &Self) -> bool;

    /// The grid after this generator has painted onto `cells`.
    spec fn paints(&self, cells: Seq<FixedColor>) -> Seq<FixedColor>;

    /// Advances the generator by exactly one tick.
    fn step(&mut self)
        ensures
            old(self).may_become(final(self)),
    ;

    /// Paints what the generator holds; the generator stays as it is.
    fn render(&self, t: Fixed, dt: Fixed, buffer: &mut RenderBuffer<S, X, Y>, blend: Blend)
        ensures
            final(buffer)@ == self.paints(old(buffer)@),
    ;
}

impl<const S: usize, const X: usize, const Y: usize> Render<S, X, Y> for Sparkle<X, Y> {
    open spec fn may_become(&self, next: &Self) -> bool {
        self.steps_to(next)
    }

    open spec fn paints(&self, cells: Seq<FixedColor>) -> Seq<FixedColor> {
        sparkle_painted::<S, X, Y>(cells, self.points(), NUM_SPARKLE_POINTS as nat)
    }

    fn step(&mut self) {
        self.advance();
    }

    fn render(&self, t: Fixed, dt: Fixed, buffer: &mut RenderBuffer<S, X, Y>, blend: Blend) {
        self.paint(t, dt, buffer, blend);
    }
}

impl<const S: usize, const X: usize, const Y: usize> Render<S, X, Y> for Snow<X, Y> {
    open spec fn may_become(&self, next: &Self) -> bool {
        self.steps_to(next)
    }

    open spec fn paints(&self, cells: Seq<FixedColor>) -> Seq<FixedColor> {
        snow_painted::<S, X, Y>(cells, self.flakes(), NUM_SNOWFLAKES as nat)
    }

    fn step(&mut self) {
        self.advance();
    }

    fn render(&self, t: Fixed, dt: Fixed, buffer: &mut RenderBuffer<S, X, Y>, blend: Blend) {
        self.paint(t, dt, buffer, blend);
    }
}

impl<const S: usize, const X: usize, const Y: usize> Render<S, X, Y> for Rainbow<X, Y> {
    open spec fn may_become(&self, next: &Self) -> bool {
        self.steps_to(next)
    }

    open spec fn paints(&self, cells: Seq<FixedColor>) -> Seq<FixedColor> {
        rainbow_painted::<S, X, Y>(self.phase())
    }

    fn step(&mut self) {
        self.advance();
    }

    fn render(&self, t: Fixed, dt: Fixed, buffer: &mut RenderBuffer<S, X, Y>, blend: Blend) {
        self.paint(t, dt, buffer, blend);
    }
}

/// The three generators of one grid, each with its own state.
pub struct Renderers<const S: usize, const X: usize, const Y: usize> {
    pub sparkle: Sparkle<X, Y>,
    pub snow: Snow<X, Y>,
    pub rainbow: Rainbow<X, Y>,
}

impl<const S: usize, const X: usize, const Y: usize> Renderers<S, X, Y> {
    /// Whether a grid of this size has a cell, and coordinates that fit.
    pub open spec fn grid_ok() -> bool {
        0 < X <= u32::MAX && 0 < Y <= u32::MAX
    }

    /// Whether `next` can come of these generators by one tick of the one
    /// named, the other two staying as they are.
    pub open spec fn steps_to(&self, renderer: RenderType, next: &Self) -> bool {
        match renderer {
            RenderType::Sparkle => self.sparkle.steps_to(&next.sparkle) && next.snow == self.snow
                && next.rainbow == self.rainbow,
            RenderType::Snow => self.snow.steps_to(&next.snow) && next.sparkle == self.sparkle
                && next.rainbow == self.rainbow,
            RenderType::Rainbow => self.rainbow.steps_to(&next.rainbow) && next.sparkle
                == self.sparkle && next.snow == self.snow,
        }
    }

    /// The grid after the generator named has painted onto `cells`.
    pub open spec fn painted(&self, renderer: RenderType, cells: Seq<FixedColor>) -> Seq<FixedColor> {
        match renderer {
            RenderType::Sparkle => sparkle_painted::<S, X, Y>(
                cells,
                self.sparkle.points(),
                NUM_SPARKLE_POINTS as nat,
            ),
            RenderType::Snow => snow_painted::<S, X, Y>(cells, self.snow.flakes(), NUM_SNOWFLAKES as nat),
            RenderType::Rainbow => rainbow_painted::<S, X, Y>(self.rainbow.phase()),
        }
    }

    /// Whether the generators are as they are made: every sparkle point and
    /// every flake in the grid, and the rainbow not drifted yet.
    pub open spec fn is_fresh(&self) -> bool {
        &&& self.sparkle.points().len() == NUM_SPARKLE_POINTS
        &&& forall|i: int|
            0 <= i < NUM_SPARKLE_POINTS ==> (#[trigger] self.sparkle.points()[i]).valid(X as u32, Y as u32)
        &&& self.snow.flakes().len() == NUM_SNOWFLAKES
        &&& forall|i: int|
            0 <= i < NUM_SNOWFLAKES ==> {
                let f = #[trigger] self.snow.flakes()[i];
                f.valid(X as u32, Y as u32) && f.row < Y && f.frac == Fixed::spec_zero()
            }
        &&& self.rainbow.phase() == Fixed::spec_zero()
    }

    /// The three generators, each in its first state.
    pub fn new() -> (r: Self)
        requires
            Self::grid_ok(),
        ensures
            r.is_fresh(),
    {
        Self { sparkle: Sparkle::new(), snow: Snow::new(), rainbow: Rainbow::new() }
    }

    /// Advances the generator named by one tick.
    pub fn step(&mut self, renderer: RenderType)
        ensures
            old(self).steps_to(renderer, final(self)),
    {
        match renderer {
            RenderType::Sparkle => <Sparkle<X, Y> as Render<S, X, Y>>::step(&mut self.sparkle),
            RenderType::Snow => <Snow<X, Y> as Render<S, X, Y>>::step(&mut self.snow),
            RenderType::Rainbow => <Rainbow<X, Y> as Render<S, X, Y>>::step(&mut self.rainbow),
        }
    }

    /// Lets the generator named paint onto the grid.
    pub fn render(
        &self,
        renderer: RenderType,
        t: Fixed,
        dt: Fixed,
        buffer: &mut RenderBuffer<S, X, Y>,
        blend: Blend,
    )
        ensures
            final(buffer)@ == self.painted(renderer, old(buffer)@),
    {
        match renderer {
            RenderType::Sparkle => self.sparkle.render(t, dt, buffer, blend),
            RenderType::Snow => self.snow.render(t, dt, buffer, blend),
            RenderType::Rainbow => self.rainbow.render(t, dt, buffer, blend),
        }
    }
}

} // verus!
