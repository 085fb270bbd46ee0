//! What each command does to the engine and the grid.

use vstd::prelude::*;
use crate::command::{Animation, Command};
use crate::engine::RenderEngine;
use crate::fixedcolor::FixedColor;
use crate::render::{RenderType, Renderer};
use crate::renderbuffer::RenderBuffer;
use crate::stream::{decode_stream, min_int, status_of, StreamDecoder, StreamStatus};
use crate::transition::Transition;

verus! {

/// The renderer an animation stands for, in specifications.
pub open spec fn spec_renderer_for(command: Animation) -> Renderer {
    match command {
        Animation::Off => Renderer::Off,
        Animation::Snow => Renderer::Basic(RenderType::Snow),
        Animation::Sparkle => Renderer::Basic(RenderType::Sparkle),
        Animation::Rainbow => Renderer::Basic(RenderType::Rainbow),
    }
}

/// The renderer an animation stands for.
#[verifier::when_used_as_spec(spec_renderer_for)]
pub fn get_renderer_for(command: Animation) -> (r: Renderer)
    ensures
        r == spec_renderer_for(command),
{
    match command {
        Animation::Off => Renderer::Off,
        Animation::Snow => Renderer::Basic(RenderType::Snow),
        Animation::Sparkle => Renderer::Basic(RenderType::Sparkle),
        Animation::Rainbow => Renderer::Basic(RenderType::Rainbow),
    }
}

/// The cells of a grid of `X` columns after one command: `Clear` fills them,
/// `SetPixel` writes one of them where it lies in the grid, the others leave
/// them alone.
pub open spec fn cells_after<const S: usize, const X: usize, const Y: usize>(
    command: Command,
    cells: Seq<FixedColor>,
) -> Seq<FixedColor> {
    match command {
        Command::Clear(r, g, b) => Seq::new(S as nat, |i: int| FixedColor::spec_from_rgb8(r, g, b)),
        Command::SetPixel(x, y, r, g, b) => RenderBuffer::<S, X, Y>::with_pixel(
            cells,
            x as u32,
            y as u32,
            FixedColor::spec_from_rgb8(r, g, b),
        ),
        _ => cells,
    }
}

/// The active renderer and the cross-fade after one command: `Animate` sets
/// the one and calls off the other, the others leave both alone.
pub open spec fn selection_after(command: Command, selection: (Renderer, Option<Transition>)) -> (
    Renderer,
    Option<Transition>,
) {
    match command {
        Command::Animate(a) => (spec_renderer_for(a), None),
        _ => selection,
    }
}

/// The cells after a run of commands, each applied in turn.
pub open spec fn cells_after_all<const S: usize, const X: usize, const Y: usize>(
    commands: Seq<Command>,
    cells: Seq<FixedColor>,
) -> Seq<FixedColor>
    decreases commands.len(),
{
    if commands.len() == 0 {
        cells
    } else {
        cells_after::<S, X, Y>(commands.last(), cells_after_all::<S, X, Y>(commands.drop_last(), cells))
    }
}

/// The active renderer and the cross-fade after a run of commands.
pub open spec fn selection_after_all(commands: Seq<Command>, selection: (Renderer, Option<Transition>)) -> (
    Renderer,
    Option<Transition>,
)
    decreases commands.len(),
{
    if commands.len() == 0 {
        selection
    } else {
        selection_after(commands.last(), selection_after_all(commands.drop_last(), selection))
    }
}

/// How many of a run of commands are `Flush`.
pub open spec fn flushes_in(commands: Seq<Command>) -> nat
    decreases commands.len(),
{
    if commands.len() == 0 {
        0
    } else {
        flushes_in(commands.drop_last()) + if commands.last() is Flush {
            1nat
        } else {
            0nat
        }
    }
}

/// Carries out one command. The result says whether the grid is to be handed
/// to the LED hardware.
pub fn process_command<const S: usize, const X: usize, const Y: usize>(
    command: Command,
    engine: &mut RenderEngine<S, X, Y>,
    buffer: &mut RenderBuffer<S, X, Y>,
) -> (flush: bool)
    ensures
        flush == (command is Flush),
        final(buffer)@ == cells_after::<S, X, Y>(command, old(buffer)@),
        (final(engine).spec_renderer(), final(engine).spec_transition()) == selection_after(
            command,
            (old(engine).spec_renderer(), old(engine).spec_transition()),
        ),
        final(engine).generators() == old(engine).generators(),
{
    match command {
        Command::Animate(anim) => {
            engine.set_renderer(get_renderer_for(anim));
            false
        },
        Command::Clear(r, g, b) => {
            buffer.clear_to_color(FixedColor::from_rgb8(r, g, b));
            false
        },
        Command::SetPixel(x, y, r, g, b) => {
            buffer.safe_set_pixel(x as u32, y as u32, FixedColor::from_rgb8(r, g, b));
            false
        },
        Command::Flush => true,
    }
}

/// What one piece of the stream did.
pub struct IngestOutcome {
    /// How many bytes of the piece found room in the receive buffer.
    pub accepted: usize,
    /// How many commands were decoded and carried out.
    pub commands: usize,
    /// How many of them asked for the grid to be handed to the LED hardware.
    pub flushes: usize,
    /// How the bytes left in the receive buffer stand.
    pub status: StreamStatus,
}

/// Takes in one piece of the stream, decodes what has become whole, and
/// carries out each command in the order of the stream.
pub fn ingest<const S: usize, const X: usize, const Y: usize>(
    decoder: &mut StreamDecoder,
    data: &[u8],
    engine: &mut RenderEngine<S, X, Y>,
    buffer: &mut RenderBuffer<S, X, Y>,
) -> (out: IngestOutcome)
    ensures
        final(decoder).spec_capacity() == old(decoder).spec_capacity(),
        out.accepted == min_int(data@.len() as int, old(decoder).spec_capacity() - old(decoder)@.len()),
        ({
            let decoded = decode_stream(old(decoder)@ + data@.subrange(0, out.accepted as int));
            &&& final(decoder)@ == decoded.1
            &&& out.status == status_of(decoded.1)
            &&& out.commands == decoded.0.len()
            &&& out.flushes == flushes_in(decoded.0)
            &&& final(buffer)@ == cells_after_all::<S, X, Y>(decoded.0, old(buffer)@)
            &&& (final(engine).spec_renderer(), final(engine).spec_transition()) == selection_after_all(
                decoded.0,
                (old(engine).spec_renderer(), old(engine).spec_transition()),
            )
            &&& final(engine).generators() == old(engine).generators()
        }),
{
    let fed = decoder.feed(data);
    let ghost commands = fed.commands@;
    let n: usize = fed.commands.len();
    let mut flushes: usize = 0;
    let mut i: usize = 0;
    assert(commands.subrange(0, 0) =~= Seq::<Command>::empty());
    while i < n
        invariant
            i <= n,
            n == commands.len(),
            fed.commands@ == commands,
            flushes == flushes_in(commands.subrange(0, i as int)),
            flushes <= i,
            buffer@ == cells_after_all::<S, X, Y>(commands.subrange(0, i as int), old(buffer)@),
            (engine.spec_renderer(), engine.spec_transition()) == selection_after_all(
                commands.subrange(0, i as int),
                (old(engine).spec_renderer(), old(engine).spec_transition()),
            ),
            engine.generators() == old(engine).generators(),
        decreases n - i,
    {
        assert(commands.subrange(0, i + 1).drop_last() =~= commands.subrange(0, i as int));
        assert(commands.subrange(0, i + 1).last() == commands[i as int]);
        if process_command(fed.commands[i], engine, buffer) {
            flushes += 1;
        }
        i += 1;
    }
    assert(commands.subrange(0, n as int) =~= commands);
    IngestOutcome { accepted: fed.accepted, commands: n, flushes, status: fed.status }
}

/// What is written is what is read back. After a `Clear`, a `SetPixel` inside
/// the grid and a `Flush`, whatever the grid held before, the pixel set reads
/// back the three bytes it was set to and every other pixel reads back the
/// three bytes of the `Clear`.
pub proof fn lemma_clear_set_pixel_reads_back<const S: usize, const X: usize, const Y: usize>(
    cells: Seq<FixedColor>,
    clear: (u8, u8, u8),
    x: u8,
    y: u8,
    pixel: (u8, u8, u8),
)
    requires
        RenderBuffer::<S, X, Y>::dimensions_ok(),
        RenderBuffer::<S, X, Y>::in_bounds(x as u32, y as u32),
    ensures
        ({
            let after = cells_after_all::<S, X, Y>(
                seq![
                    Command::Clear(clear.0, clear.1, clear.2),
                    Command::SetPixel(x, y, pixel.0, pixel.1, pixel.2),
                    Command::Flush,
                ],
                cells,
            );
            &&& after.len() == S
            &&& forall|i: int|
                0 <= i < S ==> (#[trigger] after[i]).spec_as_rgb8() == (if i == RenderBuffer::<
                    S,
                    X,
                    Y,
                >::cell(x as u32, y as u32) {
                    pixel
                } else {
                    clear
                })
        }),
{
    let c1 = Command::Clear(clear.0, clear.1, clear.2);
    let c2 = Command::SetPixel(x, y, pixel.0, pixel.1, pixel.2);
    let run = seq![c1, c2, Command::Flush];
    let s1 = cells_after::<S, X, Y>(c1, cells);
    let s2 = cells_after::<S, X, Y>(c2, s1);
    assert(run.drop_last() =~= seq![c1, c2]);
    assert(seq![c1, c2].drop_last() =~= seq![c1]);
    assert(seq![c1].drop_last() =~= Seq::<Command>::empty());
    assert(cells_after_all::<S, X, Y>(Seq::<Command>::empty(), cells) == cells);
    assert(cells_after_all::<S, X, Y>(seq![c1], cells) == s1);
    assert(cells_after_all::<S, X, Y>(seq![c1, c2], cells) == s2);
    assert(cells_after_all::<S, X, Y>(run, cells) == s2);
    RenderBuffer::<S, X, Y>::lemma_cell_in_range(x as u32, y as u32);
    crate::fixedcolor::lemma_rgb8_round_trip(clear.0, clear.1, clear.2);
    crate::fixedcolor::lemma_rgb8_round_trip(pixel.0, pixel.1, pixel.2);
    assert forall|i: int| 0 <= i < S implies (#[trigger] s2[i]).spec_as_rgb8() == (if i
        == RenderBuffer::<S, X, Y>::cell(x as u32, y as u32) {
        pixel
    } else {
        clear
    }) by {
        if i != RenderBuffer::<S, X, Y>::cell(x as u32, y as u32) {
            assert(s2[i] == s1[i]);
            assert(s1[i] == FixedColor::spec_from_rgb8(clear.0, clear.1, clear.2));
        } else {
            assert(s2[i] == FixedColor::spec_from_rgb8(pixel.0, pixel.1, pixel.2));
        }
    }
}

} // verus!
