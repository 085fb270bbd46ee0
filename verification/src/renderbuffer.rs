//! The off-screen pixel grid and the laws by which colours are combined in it.

use vstd::prelude::*;
use crate::fixed::Fixed;
use crate::fixedcolor::FixedColor;
use crate::geometry::UVec2;

verus! {

/// How an incoming colour is combined with the one a pixel already holds.
#[derive(Clone, Copy, Debug, PartialEq, Eq, Structural)]
pub enum Blend {
    /// The incoming colour replaces the existing one.
    Src,
    /// The existing colour is kept.
    Dest,
    /// A weighted mix: the existing colour scaled by one minus the phase, plus
    /// the incoming colour scaled by the phase.
    Merge(Fixed),
}

/// The weighted mix of two colours, in specifications.
pub open spec fn spec_blend_merge(existing: FixedColor, incoming: FixedColor, phase: Fixed) -> FixedColor {
    existing.spec_scale(Fixed { bits: crate::fixed::clamp_i32(crate::fixed::ONE_BITS - phase.raw()) as i32 })
        .spec_saturating_add(incoming.spec_scale(phase))
}

/// Mixes two colours: `existing` scaled by one minus `phase`, plus `incoming`
/// scaled by `phase`, saturated channel by channel.
#[verifier::when_used_as_spec(spec_blend_merge)]
pub fn blend_merge(existing: FixedColor, incoming: FixedColor, phase: Fixed) -> (c: FixedColor)
    ensures
        c == spec_blend_merge(existing, incoming, phase),
        c.in_unit(),
        c.a == existing.a,
{
    let a = existing.scale(Fixed::one().saturating_sub(phase));
    let b = incoming.scale(phase);
    a.saturating_add(b)
}

impl Blend {
    /// The colour a pixel holds after blending, in specifications.
    pub open spec fn spec_blend(&self, existing: FixedColor, incoming: FixedColor) -> FixedColor {
        match *self {
            Blend::Src => incoming,
            Blend::Dest => existing,
            Blend::Merge(phase) => spec_blend_merge(existing, incoming, phase),
        }
    }

    /// The colour a pixel holds after `incoming` is blended onto `existing`.
    #[verifier::when_used_as_spec(spec_blend)]
    pub fn blend(&self, existing: FixedColor, incoming: FixedColor) -> (c: FixedColor)
        ensures
            c == self.spec_blend(existing, incoming),
    {
        match *self {
            Blend::Src => incoming,
            Blend::Dest => existing,
            Blend::Merge(phase) => blend_merge(existing, incoming, phase),
        }
    }
}

/// The colour with the larger of each of red, green and blue, and full alpha.
pub open spec fn max_rgb(incoming: FixedColor, existing: FixedColor) -> FixedColor {
    FixedColor {
        r: incoming.r.spec_max(existing.r),
        g: incoming.g.spec_max(existing.g),
        b: incoming.b.spec_max(existing.b),
        a: Fixed::spec_one(),
    }
}

/// A grid of `X` columns and `Y` rows, held row by row in `S` cells.
pub struct RenderBuffer<const S: usize, const X: usize, const Y: usize> {
    size: UVec2,
    buffer: [FixedColor; S],
}

impl<const S: usize, const X: usize, const Y: usize> View for RenderBuffer<S, X, Y> {
    type V = Seq<FixedColor>;

    closed spec fn view(&self) -> Seq<FixedColor> {
        self.buffer@
    }
}

impl<const S: usize, const X: usize, const Y: usize> RenderBuffer<S, X, Y> {
    /// Whether the three dimensions agree and fit the coordinate type.
    pub open spec fn dimensions_ok() -> bool {
        X * Y == S && X <= u32::MAX && Y <= u32::MAX
    }

    #[verifier::type_invariant]
    closed spec fn inv(&self) -> bool {
        Self::dimensions_ok() && self.size.x == X && self.size.y == Y
    }

    /// Whether `(x, y)` names a cell of the grid.
    pub open spec fn in_bounds(x: u32, y: u32) -> bool {
        x < X && y < Y
    }

    /// The place of cell `(x, y)` in the row-major sequence of cells.
    pub open spec fn cell(x: u32, y: u32) -> int {
        x + y * X
    }

    /// The cells after `color` is written to `(x, y)`: unchanged outside the grid.
    pub open spec fn with_pixel(cells: Seq<FixedColor>, x: u32, y: u32, color: FixedColor) -> Seq<
        FixedColor,
    > {
        if Self::in_bounds(x, y) {
            cells.update(Self::cell(x, y), color)
        } else {
            cells
        }
    }

    /// The cells after `(x, y)` is raised to `color`: unchanged outside the grid.
    pub open spec fn with_max_rgb(cells: Seq<FixedColor>, x: u32, y: u32, color: FixedColor) -> Seq<
        FixedColor,
    > {
        if Self::in_bounds(x, y) {
            cells.update(Self::cell(x, y), max_rgb(color, cells[Self::cell(x, y)]))
        } else {
            cells
        }
    }

    /// The cells after `color` is blended onto `(x, y)`: unchanged outside the grid.
    pub open spec fn with_blend(
        cells: Seq<FixedColor>,
        x: u32,
        y: u32,
        color: FixedColor,
        b: Blend,
    ) -> Seq<FixedColor> {
        if Self::in_bounds(x, y) {
            cells.update(Self::cell(x, y), b.spec_blend(cells[Self::cell(x, y)], color))
        } else {
            cells
        }
    }

    /// A grid whose cells all hold the zero colour.
    pub fn new() -> (b: Self)
        requires
            Self::dimensions_ok(),
        ensures
            b@ == Seq::new(S as nat, |i: int| FixedColor::spec_default()),
    {
        let b = Self { size: UVec2::new(X as u32, Y as u32), buffer: [FixedColor::default(); S] };
        assert(b@ =~= Seq::new(S as nat, |i: int| FixedColor::spec_default()));
        b
    }

    /// Width and height of the grid.
    pub fn size(&self) -> (s: UVec2)
        ensures
            s.x == X,
            s.y == Y,
            Self::dimensions_ok(),
            self@.len() == S,
    {
        proof {
            use_type_invariant(self);
        }
        self.size
    }

    /// A grid has as many cells as its type says.
    pub proof fn lemma_len(&self)
        ensures
            self@.len() == S,
    {
    }

    /// The cells, row by row.
    pub fn buffer(&self) -> (cells: &[FixedColor])
        ensures
            cells@ == self@,
    {
        self.buffer.as_slice()
    }

    /// The cells, row by row, open to be overwritten in place.
    pub fn buffer_mut(&mut self) -> (cells: &mut [FixedColor])
        ensures
            cells@ == old(self)@,
            final(self)@ == final(cells)@,
    {
        proof {
            use_type_invariant(&*self);
        }
        &mut self.buffer
    }

    /// Sets every cell to the zero colour.
    pub fn clear(&mut self)
        ensures
            final(self)@ == Seq::new(S as nat, |i: int| FixedColor::spec_default()),
    {
        self.clear_to_color(FixedColor::default());
    }

    /// Sets every cell to `color`.
    pub fn clear_to_color(&mut self, color: FixedColor)
        ensures
            final(self)@ == Seq::new(S as nat, |i: int| color),
    {
        proof {
            use_type_invariant(&*self);
        }
        let mut i: usize = 0;
        while i < S
            invariant
                i <= S,
                Self::dimensions_ok(),
                self.size.x == X,
                self.size.y == Y,
                forall|k: int| 0 <= k < i ==> self.buffer@[k] == color,
            decreases S - i,
        {
            self.buffer[i] = color;
            i += 1;
        }
        assert(self@ =~= Seq::new(S as nat, |i: int| color));
    }

    /// The place of cell `(x, y)` in the array.
    fn index(&self, x: u32, y: u32) -> (i: usize)
        requires
            Self::in_bounds(x, y),
        ensures
            i == Self::cell(x, y),
            i < S,
    {
        proof {
            use_type_invariant(self);
            Self::lemma_cell_in_range(x, y);
        }
        (x as usize) + (y as usize) * (self.size.x as usize)
    }

    /// A cell inside the grid has its place inside the array.
    pub proof fn lemma_cell_in_range(x: u32, y: u32)
        requires
            Self::in_bounds(x, y),
        ensures
            0 <= Self::cell(x, y) < X * Y,
            y * X <= Self::cell(x, y),
    {
        assert(0 <= y * X && x + y * X < X * Y) by (nonlinear_arith)
            requires
                0 <= x < X,
                0 <= y < Y,
        ;
    }

    /// Every cell of the grid has its place inside the array, and no other
    /// cell has the place of `(x, y)`.
    pub proof fn lemma_cells_differ(x: u32, y: u32)
        requires
            Self::in_bounds(x, y),
        ensures
            forall|i: u32, j: u32|
                Self::in_bounds(i, j) ==> 0 <= #[trigger] Self::cell(i, j) < X * Y && (Self::cell(i, j)
                    == Self::cell(x, y) ==> i == x && j == y),
    {
        assert forall|i: u32, j: u32| Self::in_bounds(i, j) implies 0 <= #[trigger] Self::cell(i, j) < X
            * Y && (Self::cell(i, j) == Self::cell(x, y) ==> i == x && j == y) by {
            Self::lemma_cell_in_range(i, j);
            if Self::cell(i, j) == Self::cell(x, y) {
                assert(j == y) by (nonlinear_arith)
                    requires
                        i + j * X == x + y * X,
                        0 <= i < X,
                        0 <= x < X,
                        0 <= j,
                        0 <= y,
                ;
                assert(j * X == y * X);
            }
        }
    }

    /// The colour of cell `(x, y)`, which the caller has checked to lie in the grid.
    pub fn get_pixel(&self, x: u32, y: u32) -> (c: FixedColor)
        requires
            Self::in_bounds(x, y),
        ensures
            c == self@[Self::cell(x, y)],
    {
        let i = self.index(x, y);
        self.buffer[i]
    }

    /// Writes `color` to cell `(x, y)`; outside the grid nothing happens.
    pub fn safe_set_pixel(&mut self, x: u32, y: u32, color: FixedColor)
        ensures
            final(self)@ == Self::with_pixel(old(self)@, x, y, color),
            !Self::in_bounds(x, y) ==> final(self)@ == old(self)@,
    {
        proof {
            use_type_invariant(&*self);
        }
        if (x as usize) < X && (y as usize) < Y {
            let index = self.index(x, y);
            self.buffer[index] = color;
        }
    }

    /// Raises each of red, green and blue of cell `(x, y)` to that of `color`
    /// where `color` has more, and sets alpha to one; outside the grid nothing
    /// happens. The blend mode is not consulted.
    pub fn safe_set_max_rgb(&mut self, x: u32, y: u32, color: FixedColor, _blend: Blend)
        ensures
            final(self)@ == Self::with_max_rgb(old(self)@, x, y, color),
            !Self::in_bounds(x, y) ==> final(self)@ == old(self)@,
    {
        proof {
            use_type_invariant(&*self);
        }
        if (x as usize) < X && (y as usize) < Y {
            let current = self.get_pixel(x, y);
            let new_color = FixedColor::rgb(
                color.r.max(current.r),
                color.g.max(current.g),
                color.b.max(current.b),
            );
            let index = self.index(x, y);
            self.buffer[index] = new_color;
        }
    }

    /// Blends a whole grid onto this one, cell by cell, by the law `b`.
    pub fn blend_with(&mut self, incoming: &Self, b: Blend)
        ensures
            final(self)@ == Seq::new(S as nat, |i: int| b.spec_blend(old(self)@[i], incoming@[i])),
    {
        proof {
            use_type_invariant(&*self);
        }
        let mut i: usize = 0;
        while i < S
            invariant
                i <= S,
                Self::dimensions_ok(),
                self.size.x == X,
                self.size.y == Y,
                forall|k: int| 0 <= k < i ==> self.buffer@[k] == b.spec_blend(old(self).buffer@[k], incoming.buffer@[k]),
                forall|k: int| i <= k < S ==> self.buffer@[k] == old(self).buffer@[k],
            decreases S - i,
        {
            let mixed = b.blend(self.buffer[i], incoming.buffer[i]);
            self.buffer[i] = mixed;
            i += 1;
        }
        assert(self@ =~= Seq::new(S as nat, |i: int| b.spec_blend(old(self)@[i], incoming@[i])));
    }

    /// Blends `color` onto cell `(x, y)` by the law `b`; outside the grid
    /// nothing happens. The phase is not consulted: a merge carries its own.
    pub fn blend_rgb(&mut self, x: u32, y: u32, color: FixedColor, _phase: Fixed, b: Blend)
        ensures
            final(self)@ == Self::with_blend(old(self)@, x, y, color, b),
            !Self::in_bounds(x, y) ==> final(self)@ == old(self)@,
    {
        if (x as usize) < X && (y as usize) < Y {
            let existing = self.get_pixel(x, y);
            let new_color = b.blend(existing, color);
            self.safe_set_pixel(x, y, new_color);
        }
    }
}

/// Raising a colour to two others gives the same colour in either order, and
/// raising it twice to one colour is raising it once.
pub proof fn lemma_max_rgb_commutative_idempotent(p: FixedColor, a: FixedColor, b: FixedColor)
    ensures
        max_rgb(b, max_rgb(a, p)) == max_rgb(a, max_rgb(b, p)),
        max_rgb(a, max_rgb(a, p)) == max_rgb(a, p),
{
}

/// On a whole grid: raising one cell to colour `a` and then to `b` leaves the
/// grid that raising it to `b` and then to `a` leaves, and raising it twice to
/// `a` leaves the grid that raising it once leaves. Outside the grid all of
/// these leave it as it was.
pub proof fn lemma_set_max_rgb_commutative_idempotent<const S: usize, const X: usize, const Y: usize>(
    cells: Seq<FixedColor>,
    x: u32,
    y: u32,
    a: FixedColor,
    b: FixedColor,
)
    requires
        RenderBuffer::<S, X, Y>::dimensions_ok(),
        cells.len() == S,
    ensures
        RenderBuffer::<S, X, Y>::with_max_rgb(RenderBuffer::<S, X, Y>::with_max_rgb(cells, x, y, a), x, y, b)
            == RenderBuffer::<S, X, Y>::with_max_rgb(
            RenderBuffer::<S, X, Y>::with_max_rgb(cells, x, y, b),
            x,
            y,
            a,
        ),
        RenderBuffer::<S, X, Y>::with_max_rgb(RenderBuffer::<S, X, Y>::with_max_rgb(cells, x, y, a), x, y, a)
            == RenderBuffer::<S, X, Y>::with_max_rgb(cells, x, y, a),
        !RenderBuffer::<S, X, Y>::in_bounds(x, y) ==> RenderBuffer::<S, X, Y>::with_max_rgb(cells, x, y, a)
            == cells,
{
    if RenderBuffer::<S, X, Y>::in_bounds(x, y) {
        RenderBuffer::<S, X, Y>::lemma_cell_in_range(x, y);
        let i = RenderBuffer::<S, X, Y>::cell(x, y);
        lemma_max_rgb_commutative_idempotent(cells[i], a, b);
        assert(RenderBuffer::<S, X, Y>::with_max_rgb(
            RenderBuffer::<S, X, Y>::with_max_rgb(cells, x, y, a),
            x,
            y,
            b,
        ) =~= RenderBuffer::<S, X, Y>::with_max_rgb(
            RenderBuffer::<S, X, Y>::with_max_rgb(cells, x, y, b),
            x,
            y,
            a,
        ));
        assert(RenderBuffer::<S, X, Y>::with_max_rgb(
            RenderBuffer::<S, X, Y>::with_max_rgb(cells, x, y, a),
            x,
            y,
            a,
        ) =~= RenderBuffer::<S, X, Y>::with_max_rgb(cells, x, y, a));
    }
}

/// A merge with phase zero gives the existing colour and nothing of the
/// incoming one; a merge with phase one gives the red, green and blue of the
/// incoming colour, under the alpha of the existing one. Both hold of colours
/// whose channels lie between zero and one.
pub proof fn lemma_merge_ends(existing: FixedColor, incoming: FixedColor)
    requires
        existing.in_unit(),
        incoming.in_unit(),
    ensures
        Blend::Merge(Fixed::spec_zero()).spec_blend(existing, incoming) == Blend::Dest.spec_blend(
            existing,
            incoming,
        ),
        Blend::Merge(Fixed::spec_zero()).spec_blend(existing, incoming) == existing,
        Blend::Merge(Fixed::spec_one()).spec_blend(existing, incoming) == (FixedColor {
            a: existing.a,
            ..incoming
        }),
        existing.a == incoming.a ==> Blend::Merge(Fixed::spec_one()).spec_blend(existing, incoming)
            == Blend::Src.spec_blend(existing, incoming),
{
    crate::fixed::lemma_mul_bits_identities(existing.r.raw());
    crate::fixed::lemma_mul_bits_identities(existing.g.raw());
    crate::fixed::lemma_mul_bits_identities(existing.b.raw());
    crate::fixed::lemma_mul_bits_identities(incoming.r.raw());
    crate::fixed::lemma_mul_bits_identities(incoming.g.raw());
    crate::fixed::lemma_mul_bits_identities(incoming.b.raw());
}

} // verus!
