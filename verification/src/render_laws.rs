//! Laws of the pattern generators: painting twice is painting once.

use vstd::prelude::*;
use crate::fixed::{Fixed, ONE_BITS};
use crate::fixedcolor::FixedColor;
use crate::render::{
    flake_brightness_bits, flake_painted, snow_painted, sparkle_painted, RenderType, Renderers,
    SnowFlake, SparklePoint, MAX_SNOWFLAKE_SPEED_BITS, MIN_SNOWFLAKE_SPEED_BITS, NUM_SNOWFLAKES,
    NUM_SPARKLE_POINTS,
};
use crate::renderbuffer::{max_rgb, RenderBuffer};
use crate::transition::lemma_div_bits_monotone;

verus! {

/// The place of the last of the first `n` points that lies on cell `i`, or
/// minus one where none does.
pub open spec fn last_on_cell<const S: usize, const X: usize, const Y: usize>(
    points: Seq<SparklePoint>,
    n: nat,
    i: int,
) -> int
    decreases n,
{
    if n == 0 {
        -1
    } else {
        let p = points[n - 1];
        if RenderBuffer::<S, X, Y>::in_bounds(p.pos.x, p.pos.y) && RenderBuffer::<S, X, Y>::cell(
            p.pos.x,
            p.pos.y,
        ) == i {
            n - 1
        } else {
            last_on_cell::<S, X, Y>(points, (n - 1) as nat, i)
        }
    }
}

/// After the sparkle points are painted, a cell shows the last point that
/// lies on it, and is as it was where none does.
pub proof fn lemma_sparkle_cell<const S: usize, const X: usize, const Y: usize>(
    cells: Seq<FixedColor>,
    points: Seq<SparklePoint>,
    n: nat,
    i: int,
)
    requires
        RenderBuffer::<S, X, Y>::dimensions_ok(),
        cells.len() == S,
        0 <= i < S,
    ensures
        sparkle_painted::<S, X, Y>(cells, points, n).len() == S,
        -1 <= last_on_cell::<S, X, Y>(points, n, i) < n,
        sparkle_painted::<S, X, Y>(cells, points, n)[i] == (if last_on_cell::<S, X, Y>(points, n, i) < 0 {
            cells[i]
        } else {
            points[last_on_cell::<S, X, Y>(points, n, i)].shown()
        }),
    decreases n,
{
    if n > 0 {
        lemma_sparkle_cell::<S, X, Y>(cells, points, (n - 1) as nat, i);
        let p = points[n - 1];
        if RenderBuffer::<S, X, Y>::in_bounds(p.pos.x, p.pos.y) {
            RenderBuffer::<S, X, Y>::lemma_cell_in_range(p.pos.x, p.pos.y);
        }
    }
}

/// Painting the sparkle points a second time changes nothing.
pub proof fn lemma_sparkle_paint_idempotent<const S: usize, const X: usize, const Y: usize>(
    cells: Seq<FixedColor>,
    points: Seq<SparklePoint>,
    n: nat,
)
    requires
        RenderBuffer::<S, X, Y>::dimensions_ok(),
        cells.len() == S,
    ensures
        sparkle_painted::<S, X, Y>(sparkle_painted::<S, X, Y>(cells, points, n), points, n)
            == sparkle_painted::<S, X, Y>(cells, points, n),
{
    let once = sparkle_painted::<S, X, Y>(cells, points, n);
    let twice = sparkle_painted::<S, X, Y>(once, points, n);
    lemma_sparkle_len::<S, X, Y>(cells, points, n);
    lemma_sparkle_len::<S, X, Y>(once, points, n);
    assert forall|i: int| 0 <= i < S implies twice[i] == once[i] by {
        lemma_sparkle_cell::<S, X, Y>(cells, points, n, i);
        lemma_sparkle_cell::<S, X, Y>(once, points, n, i);
    }
    assert(twice =~= once);
}

/// Painting the sparkle points keeps the number of cells.
pub proof fn lemma_sparkle_len<const S: usize, const X: usize, const Y: usize>(
    cells: Seq<FixedColor>,
    points: Seq<SparklePoint>,
    n: nat,
)
    requires
        RenderBuffer::<S, X, Y>::dimensions_ok(),
        cells.len() == S,
    ensures
        sparkle_painted::<S, X, Y>(cells, points, n).len() == S,
    decreases n,
{
    if n > 0 {
        lemma_sparkle_len::<S, X, Y>(cells, points, (n - 1) as nat);
        let p = points[n - 1];
        if RenderBuffer::<S, X, Y>::in_bounds(p.pos.x, p.pos.y) {
            RenderBuffer::<S, X, Y>::lemma_cell_in_range(p.pos.x, p.pos.y);
        }
    }
}

/// Whether the colour `v` has full alpha and at least as much of red, green
/// and blue as `c`.
pub open spec fn dominates(v: FixedColor, c: FixedColor) -> bool {
    v.r.bits >= c.r.bits && v.g.bits >= c.g.bits && v.b.bits >= c.b.bits && v.a == Fixed::spec_one()
}

/// What a flake gives to the row it is in.
pub open spec fn flake_upper(f: SnowFlake) -> FixedColor {
    f.color.spec_scale(Fixed { bits: crate::fixed::clamp_i32(ONE_BITS - f.frac.raw()) as i32 })
}

/// What a flake gives to the row below.
pub open spec fn flake_lower(f: SnowFlake) -> FixedColor {
    f.color.spec_scale(f.frac)
}

/// Whether the cells already show at least what the flake `f` would give them.
pub open spec fn shows_flake<const S: usize, const X: usize, const Y: usize>(
    cells: Seq<FixedColor>,
    f: SnowFlake,
) -> bool {
    &&& RenderBuffer::<S, X, Y>::in_bounds(f.x, f.row) ==> dominates(
        cells[RenderBuffer::<S, X, Y>::cell(f.x, f.row)],
        flake_upper(f),
    )
    &&& f.frac.bits > 0 && RenderBuffer::<S, X, Y>::in_bounds(f.x, (f.row + 1) as u32) ==> dominates(
        cells[RenderBuffer::<S, X, Y>::cell(f.x, (f.row + 1) as u32)],
        flake_lower(f),
    )
}

/// Raising a colour leaves it with full alpha and at least what it was raised
/// to and what it had; a colour that already has that much stays as it is.
pub proof fn lemma_max_rgb_dominates(c: FixedColor, v: FixedColor, d: FixedColor)
    ensures
        dominates(max_rgb(c, v), c),
        dominates(v, d) ==> dominates(max_rgb(c, v), d),
        dominates(v, c) ==> max_rgb(c, v) == v,
{
}

/// Painting one flake keeps the number of cells, leaves the cells showing the
/// flake, and leaves them showing every flake they showed before.
pub proof fn lemma_flake_painted<const S: usize, const X: usize, const Y: usize>(
    cells: Seq<FixedColor>,
    f: SnowFlake,
    g: SnowFlake,
)
    requires
        RenderBuffer::<S, X, Y>::dimensions_ok(),
        cells.len() == S,
    ensures
        flake_painted::<S, X, Y>(cells, f).len() == S,
        shows_flake::<S, X, Y>(flake_painted::<S, X, Y>(cells, f), f),
        shows_flake::<S, X, Y>(cells, g) ==> shows_flake::<S, X, Y>(flake_painted::<S, X, Y>(cells, f), g),
        shows_flake::<S, X, Y>(cells, f) ==> flake_painted::<S, X, Y>(cells, f) == cells,
{
    let below = (f.row + 1) as u32;
    let g_below = (g.row + 1) as u32;
    let upper = RenderBuffer::<S, X, Y>::with_max_rgb(cells, f.x, f.row, flake_upper(f));
    let painted = flake_painted::<S, X, Y>(cells, f);
    if RenderBuffer::<S, X, Y>::in_bounds(f.x, f.row) {
        RenderBuffer::<S, X, Y>::lemma_cells_differ(f.x, f.row);
    }
    if RenderBuffer::<S, X, Y>::in_bounds(f.x, below) {
        RenderBuffer::<S, X, Y>::lemma_cells_differ(f.x, below);
    }
    if RenderBuffer::<S, X, Y>::in_bounds(g.x, g.row) {
        RenderBuffer::<S, X, Y>::lemma_cells_differ(g.x, g.row);
    }
    if RenderBuffer::<S, X, Y>::in_bounds(g.x, g_below) {
        RenderBuffer::<S, X, Y>::lemma_cells_differ(g.x, g_below);
    }
    assert forall|i: int| 0 <= i < S implies dominates(#[trigger] upper[i], flake_upper(f)) || upper[i]
        == cells[i] by {}
    if RenderBuffer::<S, X, Y>::in_bounds(f.x, f.row) {
        let i = RenderBuffer::<S, X, Y>::cell(f.x, f.row);
        lemma_max_rgb_dominates(flake_upper(f), cells[i], flake_upper(f));
        lemma_max_rgb_dominates(flake_lower(f), upper[i], flake_upper(f));
    }
    if f.frac.bits > 0 && RenderBuffer::<S, X, Y>::in_bounds(f.x, below) {
        let j = RenderBuffer::<S, X, Y>::cell(f.x, below);
        lemma_max_rgb_dominates(flake_lower(f), upper[j], flake_lower(f));
    }
    if shows_flake::<S, X, Y>(cells, f) {
        if RenderBuffer::<S, X, Y>::in_bounds(f.x, f.row) {
            let i = RenderBuffer::<S, X, Y>::cell(f.x, f.row);
            lemma_max_rgb_dominates(flake_upper(f), cells[i], flake_upper(f));
        }
        assert(upper =~= cells);
        if f.frac.bits > 0 && RenderBuffer::<S, X, Y>::in_bounds(f.x, below) {
            let j = RenderBuffer::<S, X, Y>::cell(f.x, below);
            lemma_max_rgb_dominates(flake_lower(f), cells[j], flake_lower(f));
        }
        assert(painted =~= cells);
    }
    if shows_flake::<S, X, Y>(cells, g) {
        if RenderBuffer::<S, X, Y>::in_bounds(g.x, g.row) {
            let i = RenderBuffer::<S, X, Y>::cell(g.x, g.row);
            lemma_max_rgb_dominates(flake_upper(f), cells[i], flake_upper(g));
            lemma_max_rgb_dominates(flake_lower(f), upper[i], flake_upper(g));
            assert(dominates(painted[i], flake_upper(g)));
        }
        if g.frac.bits > 0 && RenderBuffer::<S, X, Y>::in_bounds(g.x, g_below) {
            let j = RenderBuffer::<S, X, Y>::cell(g.x, g_below);
            lemma_max_rgb_dominates(flake_upper(f), cells[j], flake_lower(g));
            lemma_max_rgb_dominates(flake_lower(f), upper[j], flake_lower(g));
            assert(dominates(painted[j], flake_lower(g)));
        }
    }
}

/// After the first `n` flakes are painted, the cells show each of them.
pub proof fn lemma_snow_shows_all<const S: usize, const X: usize, const Y: usize>(
    cells: Seq<FixedColor>,
    flakes: Seq<SnowFlake>,
    n: nat,
    k: int,
)
    requires
        RenderBuffer::<S, X, Y>::dimensions_ok(),
        cells.len() == S,
        0 <= k < n,
    ensures
        snow_painted::<S, X, Y>(cells, flakes, n).len() == S,
        shows_flake::<S, X, Y>(snow_painted::<S, X, Y>(cells, flakes, n), flakes[k]),
    decreases n,
{
    let before = snow_painted::<S, X, Y>(cells, flakes, (n - 1) as nat);
    lemma_snow_len::<S, X, Y>(cells, flakes, (n - 1) as nat);
    if k < n - 1 {
        lemma_snow_shows_all::<S, X, Y>(cells, flakes, (n - 1) as nat, k);
    }
    lemma_flake_painted::<S, X, Y>(before, flakes[n - 1], flakes[k]);
}

/// Painting flakes keeps the number of cells.
pub proof fn lemma_snow_len<const S: usize, const X: usize, const Y: usize>(
    cells: Seq<FixedColor>,
    flakes: Seq<SnowFlake>,
    n: nat,
)
    requires
        RenderBuffer::<S, X, Y>::dimensions_ok(),
        cells.len() == S,
    ensures
        snow_painted::<S, X, Y>(cells, flakes, n).len() == S,
    decreases n,
{
    if n > 0 {
        lemma_snow_len::<S, X, Y>(cells, flakes, (n - 1) as nat);
        let before = snow_painted::<S, X, Y>(cells, flakes, (n - 1) as nat);
        lemma_flake_painted::<S, X, Y>(before, flakes[n - 1], flakes[n - 1]);
    }
}

/// Cells that show each of the first `n` flakes are left as they are when
/// those flakes are painted.
pub proof fn lemma_snow_nothing_to_add<const S: usize, const X: usize, const Y: usize>(
    cells: Seq<FixedColor>,
    flakes: Seq<SnowFlake>,
    n: nat,
)
    requires
        RenderBuffer::<S, X, Y>::dimensions_ok(),
        cells.len() == S,
        forall|k: int| 0 <= k < n ==> shows_flake::<S, X, Y>(cells, #[trigger] flakes[k]),
    ensures
        snow_painted::<S, X, Y>(cells, flakes, n) == cells,
    decreases n,
{
    if n > 0 {
        lemma_snow_nothing_to_add::<S, X, Y>(cells, flakes, (n - 1) as nat);
        assert(shows_flake::<S, X, Y>(cells, flakes[n - 1]));
        lemma_flake_painted::<S, X, Y>(cells, flakes[n - 1], flakes[n - 1]);
    }
}

/// Painting the flakes a second time changes nothing.
pub proof fn lemma_snow_paint_idempotent<const S: usize, const X: usize, const Y: usize>(
    cells: Seq<FixedColor>,
    flakes: Seq<SnowFlake>,
    n: nat,
)
    requires
        RenderBuffer::<S, X, Y>::dimensions_ok(),
        cells.len() == S,
    ensures
        snow_painted::<S, X, Y>(snow_painted::<S, X, Y>(cells, flakes, n), flakes, n) == snow_painted::<
            S,
            X,
            Y,
        >(cells, flakes, n),
{
    let once = snow_painted::<S, X, Y>(cells, flakes, n);
    lemma_snow_len::<S, X, Y>(cells, flakes, n);
    assert forall|k: int| 0 <= k < n implies shows_flake::<S, X, Y>(once, #[trigger] flakes[k]) by {
        lemma_snow_shows_all::<S, X, Y>(cells, flakes, n, k);
    }
    lemma_snow_nothing_to_add::<S, X, Y>(once, flakes, n);
}

/// Painting is idempotent: whichever generator paints, painting a second
/// time without a tick in between changes nothing. The rainbow paints every
/// cell whatever the grid held; sparkle and snow leave every cell they wrote
/// as they wrote it.
pub proof fn lemma_paint_idempotent<const S: usize, const X: usize, const Y: usize>(
    generators: Renderers<S, X, Y>,
    renderer: RenderType,
    cells: Seq<FixedColor>,
)
    requires
        RenderBuffer::<S, X, Y>::dimensions_ok(),
        cells.len() == S,
    ensures
        generators.painted(renderer, generators.painted(renderer, cells)) == generators.painted(
            renderer,
            cells,
        ),
{
    match renderer {
        RenderType::Sparkle => {
            lemma_sparkle_paint_idempotent::<S, X, Y>(
                cells,
                generators.sparkle.points(),
                NUM_SPARKLE_POINTS as nat,
            );
        },
        RenderType::Snow => {
            lemma_snow_paint_idempotent::<S, X, Y>(cells, generators.snow.flakes(), NUM_SNOWFLAKES as nat);
        },
        RenderType::Rainbow => {},
    }
}

/// A faster flake is at least as bright as a slower one, and the brightness
/// of a speed in the range lies from zero up to, and not including, one.
pub proof fn lemma_flake_brightness_monotone(slow: int, fast: int)
    requires
        MIN_SNOWFLAKE_SPEED_BITS <= slow <= fast < MAX_SNOWFLAKE_SPEED_BITS,
    ensures
        0 <= flake_brightness_bits(slow) <= flake_brightness_bits(fast) < ONE_BITS,
        flake_brightness_bits(MIN_SNOWFLAKE_SPEED_BITS as int) == 0,
{
    lemma_div_bits_monotone(
        slow - MIN_SNOWFLAKE_SPEED_BITS,
        fast - MIN_SNOWFLAKE_SPEED_BITS,
        MAX_SNOWFLAKE_SPEED_BITS - MIN_SNOWFLAKE_SPEED_BITS,
    );
}

} // verus!
