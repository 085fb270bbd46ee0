//! The decisions of the render-tick task and of the output task.
//!
//! The tasks themselves wait for a timer, a message or a signal, and take the
//! locks; what they do between two waits is decided here.

use vstd::prelude::*;
use crate::engine::{after_tick, RenderEngine};
use crate::fixed::Fixed;
use crate::fixedcolor::FixedColor;
use crate::render::{RenderType, Renderer, Renderers};
use crate::renderbuffer::RenderBuffer;

verus! {

/// The period of the render tick, in milliseconds.
pub const TICK_MILLIS: u64 = 40;

/// LEDs per drop of the installed matrix: the rows of its grid.
pub const LEDS_PER_DROP: usize = 24;

/// Drops of the installed matrix: the columns of its grid.
pub const NUM_DROPS: usize = 5;

/// LEDs of the installed matrix: the cells of its grid.
pub const NUM_LEDS: usize = 120;

/// What wakes the render-tick task.
#[derive(Clone, Copy, Debug, PartialEq, Eq, Structural)]
pub enum RenderEvent {
    /// A request to draw with another renderer.
    Control(Renderer),
    /// The timer has run out: `t` is the time, `dt` the time since the last tick.
    Tick(Fixed, Fixed),
}

/// The render-tick task between two waits.
pub struct RenderTask {
    paused: bool,
}

impl RenderTask {
    /// Whether ticks are passed over: so it is while no renderer is set.
    pub closed spec fn is_paused(&self) -> bool {
        self.paused
    }

    /// The task at start-up: snow falls, and ticks are not passed over.
    pub fn start<const S: usize, const X: usize, const Y: usize>(engine: &mut RenderEngine<S, X, Y>) -> (task:
        Self)
        ensures
            !task.is_paused(),
            final(engine).spec_renderer() == Renderer::Basic(RenderType::Snow),
            final(engine).spec_transition() is None,
            final(engine).generators() == old(engine).generators(),
    {
        engine.set_renderer(Renderer::Basic(RenderType::Snow));
        RenderTask { paused: false }
    }

    /// Handles one event. The result says whether the grid is to be handed to
    /// the LED hardware.
    ///
    /// A control message sets the renderer at once, and ticks are passed over
    /// from then on exactly if it set none. A tick that is not passed over
    /// lets the engine render, and the grid is handed on; one that is passed
    /// over changes nothing.
    pub fn handle<const S: usize, const X: usize, const Y: usize>(
        &mut self,
        event: RenderEvent,
        engine: &mut RenderEngine<S, X, Y>,
        buffer: &mut RenderBuffer<S, X, Y>,
    ) -> (flush: bool)
        ensures
            match event {
                RenderEvent::Control(r) => {
                    &&& !flush
                    &&& final(self).is_paused() == (r == Renderer::Off)
                    &&& final(engine).spec_renderer() == r
                    &&& final(engine).spec_transition() is None
                    &&& final(engine).generators() == old(engine).generators()
                    &&& final(buffer)@ == old(buffer)@
                },
                RenderEvent::Tick(t, dt) => {
                    &&& flush == !old(self).is_paused()
                    &&& final(self).is_paused() == old(self).is_paused()
                    &&& if old(self).is_paused() {
                        *final(engine) == *old(engine) && final(buffer)@ == old(buffer)@
                    } else {
                        &&& (final(engine).spec_renderer(), final(engine).spec_transition()) == after_tick(
                            old(engine).spec_renderer(),
                            old(engine).spec_transition(),
                            dt,
                        )
                        &&& exists|mid: Renderers<S, X, Y>| #[trigger]
                            RenderEngine::<S, X, Y>::frame_after(
                                old(engine).generators(),
                                mid,
                                final(engine).generators(),
                                final(engine).spec_renderer(),
                                final(engine).spec_transition(),
                                old(buffer)@,
                                final(buffer)@,
                            )
                    }
                },
            },
    {
        match event {
            RenderEvent::Control(r) => {
                engine.set_renderer(r);
                self.paused = r == Renderer::Off;
                false
            },
            RenderEvent::Tick(t, dt) => {
                if !self.paused {
                    engine.render(t, dt, buffer);
                    true
                } else {
                    false
                }
            },
        }
    }
}

/// The three 8-bit channels of every cell, in the order of the cells: what
/// the output task writes to the LED hardware.
pub fn frame_rgb8<const S: usize, const X: usize, const Y: usize>(buffer: &RenderBuffer<S, X, Y>) -> (out:
    Vec<(u8, u8, u8)>)
    ensures
        out@.len() == S,
        forall|i: int| 0 <= i < S ==> out@[i] == (#[trigger] buffer@[i]).spec_as_rgb8(),
{
    let cells = buffer.buffer();
    let mut out: Vec<(u8, u8, u8)> = Vec::new();
    let mut i: usize = 0;
    proof {
        buffer.lemma_len();
    }
    while i < cells.len()
        invariant
            i <= cells@.len(),
            cells@ == buffer@,
            cells@.len() == S,
            out@.len() == i,
            forall|k: int| 0 <= k < i ==> out@[k] == (#[trigger] buffer@[k]).spec_as_rgb8(),
        decreases cells@.len() - i,
    {
        out.push(cells[i].as_rgb8());
        i += 1;
    }
    out
}

/// The grid of the installed matrix.
pub struct Buffer50x24(pub RenderBuffer<NUM_LEDS, NUM_DROPS, LEDS_PER_DROP>);

impl Buffer50x24 {
    /// A grid whose cells all hold the zero colour.
    pub fn new() -> (b: Self)
        ensures
            b.0@ == Seq::new(NUM_LEDS as nat, |i: int| FixedColor::spec_default()),
    {
        Buffer50x24(RenderBuffer::new())
    }

    /// The grid, open to be painted.
    pub fn get_mut_buffer(&mut self) -> (b: &mut RenderBuffer<NUM_LEDS, NUM_DROPS, LEDS_PER_DROP>)
        ensures
            *b == old(self).0,
            final(self).0 == *final(b),
    {
        &mut self.0
    }

    /// A walk over the cells from the first.
    pub fn iter(&self) -> (it: BufferIterator<'_>)
        ensures
            it.buffer@ == self.0@,
            it.index == 0,
    {
        BufferIterator { buffer: &self.0, index: 0 }
    }
}

impl Default for Buffer50x24 {
    /// A grid whose cells all hold the zero colour.
    fn default() -> (b: Self)
        ensures
            b.0@ == Seq::new(NUM_LEDS as nat, |i: int| FixedColor::spec_default()),
    {
        Self::new()
    }
}

/// A walk over the cells of the installed matrix, in the order of the cells.
pub struct BufferIterator<'a> {
    pub buffer: &'a RenderBuffer<NUM_LEDS, NUM_DROPS, LEDS_PER_DROP>,
    pub index: u32,
}

impl<'a> BufferIterator<'a> {
    /// The three 8-bit channels of the next cell, or `None` once every cell
    /// has been given.
    pub fn next(&mut self) -> (item: Option<(u8, u8, u8)>)
        ensures
            final(self).buffer == old(self).buffer,
            old(self).index < NUM_LEDS ==> final(self).index == old(self).index + 1 && item == Some(
                old(self).buffer@[old(self).index as int].spec_as_rgb8(),
            ),
            old(self).index >= NUM_LEDS ==> final(self).index == old(self).index && item is None,
    {
        let size = self.buffer.size();
        let len: u32 = size.x * size.y;
        if self.index < len {
            let x = self.index % size.x;
            let y = self.index / size.x;
            assert(x + y * size.x == self.index && y < size.y) by (nonlinear_arith)
                requires
                    x == self.index % size.x,
                    y == self.index / size.x,
                    self.index < size.x * size.y,
                    size.x > 0,
            ;
            let (r, g, b) = self.buffer.get_pixel(x, y).as_rgb8();
            self.index += 1;
            Some((r, g, b))
        } else {
            None
        }
    }
}

} // verus!
