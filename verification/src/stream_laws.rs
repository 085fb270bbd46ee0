//! Laws of the streaming decoder: where the transport cuts the stream does not matter.

use vstd::prelude::*;
use crate::codec::spec_encode;
use crate::command::Command;
use crate::decoder::{begins_with, parse, Decoded};
use crate::dispatch::{cells_after_all, flushes_in, selection_after_all};
use crate::fixedcolor::FixedColor;
use crate::render::Renderer;
use crate::stream::decode_stream;
use crate::transition::Transition;
use crate::wire_laws::{lemma_parse_complete, lemma_parse_is_decoding, lemma_parse_sound};

verus! {

/// The bytes of a run of commands, one after another.
pub open spec fn encode_all(commands: Seq<Command>) -> Seq<u8>
    decreases commands.len(),
{
    if commands.len() == 0 {
        Seq::empty()
    } else {
        spec_encode(commands[0]) + encode_all(commands.skip(1))
    }
}

/// Bytes that follow a whole command change neither the command decoded nor
/// its length.
pub proof fn lemma_parse_extends(a: Seq<u8>, b: Seq<u8>)
    ensures
        parse(a) is Complete ==> parse(a + b) == parse(a),
{
    if let Decoded::Complete(c, n) = parse(a) {
        lemma_parse_sound(a);
        let e = spec_encode(c);
        assert(begins_with(a + b, e)) by {
            assert forall|i: int| 0 <= i < e.len() implies (a + b)[0 + i] == #[trigger] e[i] by {
                assert((a + b)[i] == a[0 + i]);
            }
        }
        lemma_parse_complete(a + b, c);
    }
}

/// Feeding a stream in two pieces gives what feeding it whole gives: the
/// commands of the first piece followed by those decoded once the second piece
/// has joined what the first left over, and the same bytes left at the end.
/// This holds of every stream and every cut, well-formed or not.
pub proof fn lemma_feed_in_pieces(a: Seq<u8>, b: Seq<u8>)
    ensures
        ({
            let first = decode_stream(a);
            let second = decode_stream(first.1 + b);
            decode_stream(a + b) == (first.0 + second.0, second.1)
        }),
    decreases a.len(),
{
    let first = decode_stream(a);
    let second = decode_stream(first.1 + b);
    match parse(a) {
        Decoded::Complete(c, n) => {
            lemma_parse_is_decoding(a);
            lemma_parse_extends(a, b);
            assert((a + b).skip(n as int) =~= a.skip(n as int) + b);
            lemma_feed_in_pieces(a.skip(n as int), b);
            let inner = decode_stream(a.skip(n as int));
            assert((seq![c] + inner.0) + second.0 =~= seq![c] + (inner.0 + second.0));
        },
        _ => {
            assert(first.0 + second.0 =~= second.0);
        },
    }
}

/// The bytes of a run of commands decode to that run, and nothing is left.
pub proof fn lemma_decode_encode_all(commands: Seq<Command>)
    ensures
        decode_stream(encode_all(commands)) == (commands, Seq::<u8>::empty()),
    decreases commands.len(),
{
    let s = encode_all(commands);
    if commands.len() == 0 {
        lemma_parse_is_decoding(s);
        assert(decode_stream(s).0 =~= commands);
    } else {
        let c = commands[0];
        let e = spec_encode(c);
        let rest = encode_all(commands.skip(1));
        assert(begins_with(s, e)) by {
            assert forall|i: int| 0 <= i < e.len() implies s[0 + i] == #[trigger] e[i] by {
                assert(s[i] == e[i]);
            }
        }
        lemma_parse_complete(s, c);
        assert(s.skip(e.len() as int) =~= rest);
        lemma_decode_encode_all(commands.skip(1));
        assert(seq![c] + commands.skip(1) =~= commands);
    }
}

/// Split-frame equivalence. Cut the bytes of any run of commands at any
/// place and feed the two pieces one after the other: the commands decoded
/// from the first piece, followed by those decoded once the second piece has
/// joined what the first left over, are the run itself, in order, and nothing
/// is left. Feeding the bytes whole gives the same.
pub proof fn lemma_split_frame_equivalence(commands: Seq<Command>, cut: int)
    requires
        0 <= cut <= encode_all(commands).len(),
    ensures
        ({
            let bytes = encode_all(commands);
            let first = decode_stream(bytes.subrange(0, cut));
            let second = decode_stream(first.1 + bytes.subrange(cut, bytes.len() as int));
            &&& first.0 + second.0 == commands
            &&& second.1 == Seq::<u8>::empty()
            &&& decode_stream(bytes) == (commands, Seq::<u8>::empty())
        }),
{
    let bytes = encode_all(commands);
    let a = bytes.subrange(0, cut);
    let b = bytes.subrange(cut, bytes.len() as int);
    assert(a + b =~= bytes);
    lemma_feed_in_pieces(a, b);
    lemma_decode_encode_all(commands);
}

/// Carrying out one run of commands and then another is carrying out the
/// two runs joined: for the cells, for the renderer and the cross-fade, and
/// for the number of flushes.
pub proof fn lemma_dispatch_in_runs<const S: usize, const X: usize, const Y: usize>(
    first: Seq<Command>,
    second: Seq<Command>,
    cells: Seq<FixedColor>,
    selection: (Renderer, Option<Transition>),
)
    ensures
        cells_after_all::<S, X, Y>(first + second, cells) == cells_after_all::<S, X, Y>(
            second,
            cells_after_all::<S, X, Y>(first, cells),
        ),
        selection_after_all(first + second, selection) == selection_after_all(
            second,
            selection_after_all(first, selection),
        ),
        flushes_in(first + second) == flushes_in(first) + flushes_in(second),
    decreases second.len(),
{
    if second.len() == 0 {
        assert(first + second =~= first);
    } else {
        assert((first + second).drop_last() =~= first + second.drop_last());
        assert((first + second).last() == second.last());
        lemma_dispatch_in_runs::<S, X, Y>(first, second.drop_last(), cells, selection);
    }
}

/// Where the transport cuts the stream does not matter to what the commands
/// do: taking in a stream in two pieces, and carrying out after each piece
/// what it made whole, leaves the cells, the renderer and the cross-fade that
/// taking it in whole leaves, with as many flushes asked for.
pub proof fn lemma_ingest_in_pieces<const S: usize, const X: usize, const Y: usize>(
    a: Seq<u8>,
    b: Seq<u8>,
    cells: Seq<FixedColor>,
    selection: (Renderer, Option<Transition>),
)
    ensures
        ({
            let first = decode_stream(a);
            let second = decode_stream(first.1 + b);
            let whole = decode_stream(a + b);
            &&& whole.1 == second.1
            &&& cells_after_all::<S, X, Y>(whole.0, cells) == cells_after_all::<S, X, Y>(
                second.0,
                cells_after_all::<S, X, Y>(first.0, cells),
            )
            &&& selection_after_all(whole.0, selection) == selection_after_all(
                second.0,
                selection_after_all(first.0, selection),
            )
            &&& flushes_in(whole.0) == flushes_in(first.0) + flushes_in(second.0)
        }),
{
    let first = decode_stream(a);
    let second = decode_stream(first.1 + b);
    lemma_feed_in_pieces(a, b);
    lemma_dispatch_in_runs::<S, X, Y>(first.0, second.0, cells, selection);
}

} // verus!
