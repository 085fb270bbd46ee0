//! The render engine: which pattern is drawn, and the cross-fade to the next.
//!
//! The engine is idle while no pattern is set, active while one is, and in
//! transition while a cross-fade towards another is under way. A tick first
//! lets the cross-fade advance and, once its time is up, makes its target the
//! active pattern. It then paints the active pattern and, while a cross-fade
//! is still under way, paints its target as a second frame and mixes the two
//! by the progress of the cross-fade.

use vstd::prelude::*;
use crate::fixed::Fixed;
use crate::fixedcolor::FixedColor;
use crate::render::{Renderer, Renderers};
use crate::renderbuffer::{Blend, RenderBuffer};
use crate::transition::Transition;

verus! {

/// The active renderer and the cross-fade after `dt` more time has passed: a
/// cross-fade whose time is up hands its target over and is gone.
pub open spec fn after_tick(renderer: Renderer, transition: Option<Transition>, dt: Fixed) -> (
    Renderer,
    Option<Transition>,
) {
    match transition {
        Some(tr) => {
            let stepped = tr.spec_step(dt);
            if stepped.spec_is_done() {
                (stepped.renderer, None)
            } else {
                (renderer, Some(stepped))
            }
        },
        None => (renderer, None),
    }
}

/// A grid of `len` cells of the zero colour.
pub open spec fn blank(len: nat) -> Seq<FixedColor> {
    Seq::new(len, |i: int| FixedColor::spec_default())
}

/// Whether `next` can come of the generators by one tick of the renderer
/// named; no renderer, no change.
pub open spec fn ticked<const S: usize, const X: usize, const Y: usize>(
    generators: Renderers<S, X, Y>,
    renderer: Renderer,
    next: Renderers<S, X, Y>,
) -> bool {
    match renderer {
        Renderer::Basic(kind) => generators.steps_to(kind, &next),
        Renderer::Off => next == generators,
    }
}

/// The frame of a renderer: what its generator paints onto a blank grid, or,
/// for no renderer, the cells as they were.
pub open spec fn frame_of<const S: usize, const X: usize, const Y: usize>(
    generators: Renderers<S, X, Y>,
    renderer: Renderer,
    cells: Seq<FixedColor>,
) -> Seq<FixedColor> {
    match renderer {
        Renderer::Basic(kind) => generators.painted(kind, blank(S as nat)),
        Renderer::Off => cells,
    }
}

/// Two frames mixed cell by cell: the first scaled by one minus `progress`,
/// plus the second scaled by `progress`.
pub open spec fn cross_fade(from: Seq<FixedColor>, to: Seq<FixedColor>, progress: Fixed) -> Seq<
    FixedColor,
> {
    Seq::new(from.len(), |i: int| Blend::Merge(progress).spec_blend(from[i], to[i]))
}

/// The engine of a grid of `X` columns and `Y` rows in `S` cells.
pub struct RenderEngine<const S: usize, const X: usize, const Y: usize> {
    renderer: Renderer,
    transition: Option<Transition>,
    render_engine: Renderers<S, X, Y>,
    front: RenderBuffer<S, X, Y>,
}

impl<const S: usize, const X: usize, const Y: usize> RenderEngine<S, X, Y> {
    /// Whether the three dimensions agree, the grid has a cell, and its
    /// coordinates fit.
    pub open spec fn dimensions_ok() -> bool {
        X * Y == S && 0 < X <= u32::MAX && 0 < Y <= u32::MAX
    }

    /// The active renderer.
    pub closed spec fn spec_renderer(&self) -> Renderer {
        self.renderer
    }

    /// The cross-fade under way, if there is one.
    pub closed spec fn spec_transition(&self) -> Option<Transition> {
        self.transition
    }

    /// The generators.
    pub closed spec fn generators(&self) -> Renderers<S, X, Y> {
        self.render_engine
    }

    /// Whether the engine is idle: no renderer, and no cross-fade.
    pub open spec fn is_idle(&self) -> bool {
        self.spec_renderer() == Renderer::Off && self.spec_transition() is None
    }

    /// What a tick leaves in the grid. `mid` holds the generators after the
    /// active renderer has had its tick, `last` after the target of a
    /// cross-fade has had its own.
    pub open spec fn frame_after(
        before: Renderers<S, X, Y>,
        mid: Renderers<S, X, Y>,
        last: Renderers<S, X, Y>,
        renderer: Renderer,
        transition: Option<Transition>,
        cells: Seq<FixedColor>,
        painted: Seq<FixedColor>,
    ) -> bool {
        &&& ticked(before, renderer, mid)
        &&& match transition {
            None => last == mid && painted == frame_of(mid, renderer, cells),
            Some(tr) => ticked(mid, tr.renderer, last) && painted == cross_fade(
                frame_of(mid, renderer, cells),
                frame_of(last, tr.renderer, blank(S as nat)),
                tr.spec_progress(),
            ),
        }
    }

    /// An idle engine.
    pub fn new() -> (e: Self)
        requires
            Self::dimensions_ok(),
        ensures
            e.is_idle(),
            e.generators().is_fresh(),
    {
        Self {
            renderer: Renderer::Off,
            transition: None,
            render_engine: Renderers::new(),
            front: RenderBuffer::new(),
        }
    }

    /// Makes `renderer` the active one at once; a cross-fade under way is
    /// called off.
    pub fn set_renderer(&mut self, renderer: Renderer)
        ensures
            final(self).spec_renderer() == renderer,
            final(self).spec_transition() is None,
            final(self).generators() == old(self).generators(),
    {
        self.renderer = renderer;
        self.transition = None;
    }

    /// The active renderer.
    pub fn get_renderer(&self) -> (r: Renderer)
        ensures
            r == self.spec_renderer(),
    {
        self.renderer
    }

    /// The progress of the cross-fade under way; zero where there is none.
    pub fn tx_progress(&self) -> (p: Fixed)
        ensures
            p == (match self.spec_transition() {
                Some(tr) => tr.spec_progress(),
                None => Fixed::spec_zero(),
            }),
    {
        match &self.transition {
            Some(tr) => tr.progress(),
            None => Fixed::zero(),
        }
    }

    /// Whether a cross-fade is under way.
    pub fn in_transition(&self) -> (b: bool)
        ensures
            b == self.spec_transition() is Some,
    {
        self.transition.is_some()
    }

    /// Begins a cross-fade of the given duration from the active renderer
    /// towards `renderer`.
    pub fn set_transition_to_renderer(&mut self, renderer: Renderer, duration: Fixed)
        ensures
            final(self).spec_renderer() == old(self).spec_renderer(),
            final(self).spec_transition() == Some(
                Transition { renderer, duration, current: Fixed::spec_zero() },
            ),
            final(self).generators() == old(self).generators(),
    {
        self.transition = Some(Transition::new(renderer, duration));
    }

    /// One tick: `dt` is the time since the last one.
    ///
    /// The cross-fade, if there is one, advances by `dt`; if its time is up,
    /// its target becomes the active renderer and the cross-fade is gone. The
    /// active renderer then has its tick and paints a blank grid; with no
    /// renderer the grid is left as it is. While a cross-fade is still under
    /// way its target has a tick too and paints a second blank grid, and the
    /// grid becomes the mix of the two frames by the progress of the
    /// cross-fade. The time `t` is handed on to the generators.
    pub fn render(&mut self, t: Fixed, dt: Fixed, b: &mut RenderBuffer<S, X, Y>)
        ensures
            (final(self).spec_renderer(), final(self).spec_transition()) == after_tick(
                old(self).spec_renderer(),
                old(self).spec_transition(),
                dt,
            ),
            exists|mid: Renderers<S, X, Y>| #[trigger]
                Self::frame_after(
                    old(self).generators(),
                    mid,
                    final(self).generators(),
                    final(self).spec_renderer(),
                    final(self).spec_transition(),
                    old(b)@,
                    final(b)@,
                ),
            final(self).is_idle() ==> final(b)@ == old(b)@,
    {
        match self.transition {
            Some(tr) => {
                let mut stepped = tr;
                stepped.step(dt);
                if stepped.is_done() {
                    self.renderer = stepped.renderer;
                    self.transition = None;
                } else {
                    self.transition = Some(stepped);
                }
            },
            None => {},
        }
        match self.renderer {
            Renderer::Basic(kind) => {
                // The grid is cleared only where there is something to paint.
                b.clear();
                self.render_engine.step(kind);
                self.render_engine.render(kind, t, dt, b, Blend::Dest);
            },
            Renderer::Off => {},
        }
        let ghost mid = self.render_engine;
        let ghost active = b@;
        proof {
            b.lemma_len();
            self.front.lemma_len();
        }
        match self.transition {
            Some(tr) => {
                self.front.clear();
                match tr.renderer {
                    Renderer::Basic(kind) => {
                        self.render_engine.step(kind);
                        self.render_engine.render(kind, t, dt, &mut self.front, Blend::Dest);
                    },
                    Renderer::Off => {},
                }
                b.blend_with(&self.front, Blend::Merge(tr.progress()));
                assert(b@ =~= cross_fade(active, self.front@, tr.spec_progress()));
            },
            None => {},
        }
        assert(Self::frame_after(
            old(self).generators(),
            mid,
            self.generators(),
            self.spec_renderer(),
            self.spec_transition(),
            old(b)@,
            b@,
        ));
    }
}

/// A cross-fade whose duration has been reached hands over: after the tick
/// that takes its elapsed time to its duration or beyond, its target is the
/// active renderer and no cross-fade is left. A cross-fade of duration zero,
/// or less, hands over at its first tick.
pub proof fn lemma_transition_commits(renderer: Renderer, tr: Transition, dt: Fixed)
    requires
        tr.spec_step(dt).current.raw() >= tr.duration.raw(),
    ensures
        after_tick(renderer, Some(tr), dt) == (tr.renderer, None::<Transition>),
{
}

/// A cross-fade from no renderer to a target, begun with nothing elapsed and
/// stepped once by its whole duration, leaves the target active and no
/// cross-fade in progress.
pub proof fn lemma_transition_after_duration(target: Renderer, duration: Fixed)
    ensures
        after_tick(
            Renderer::Off,
            Some(Transition { renderer: target, duration, current: Fixed::spec_zero() }),
            duration,
        ) == (target, None::<Transition>),
{
}

/// While its duration has not been reached, a cross-fade leaves the active
/// renderer as it is and goes on, its elapsed time grown by `dt`.
pub proof fn lemma_transition_continues(renderer: Renderer, tr: Transition, dt: Fixed)
    requires
        tr.spec_step(dt).current.raw() < tr.duration.raw(),
    ensures
        after_tick(renderer, Some(tr), dt) == (renderer, Some(tr.spec_step(dt))),
{
}

} // verus!
