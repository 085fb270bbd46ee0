//! The wire form of a command.
//!
//! A command travels as one self-describing binary object. A variant without
//! fields is the text of its name; a variant with fields is a map of one entry
//! from the text of its name to its fields: an array of small unsigned
//! integers, or, for `Animate`, the text of the pattern's name. Texts and
//! arrays carry their length in their first byte; an integer below 24 is one
//! byte, a larger one follows the byte `0x18`.

use vstd::prelude::*;
use crate::command::{Animation, Command};

verus! {

/// The text `Flush`.
pub open spec fn flush_bytes() -> Seq<u8> {
    seq![0x65u8, 0x46u8, 0x6cu8, 0x75u8, 0x73u8, 0x68u8]
}

/// A map of one entry, the text `Clear`, and the head of an array of three.
pub open spec fn clear_header() -> Seq<u8> {
    seq![0xa1u8, 0x65u8, 0x43u8, 0x6cu8, 0x65u8, 0x61u8, 0x72u8, 0x83u8]
}

/// A map of one entry, the text `SetPixel`, and the head of an array of five.
pub open spec fn set_pixel_header() -> Seq<u8> {
    seq![0xa1u8, 0x68u8, 0x53u8, 0x65u8, 0x74u8, 0x50u8, 0x69u8, 0x78u8, 0x65u8, 0x6cu8, 0x85u8]
}

/// A map of one entry and the text `Animate`.
pub open spec fn animate_header() -> Seq<u8> {
    seq![0xa1u8, 0x67u8, 0x41u8, 0x6eu8, 0x69u8, 0x6du8, 0x61u8, 0x74u8, 0x65u8]
}

/// The text of a pattern's name: `None`, `Snow`, `Sparkle` or `Rainbow`.
pub open spec fn animation_bytes(a: Animation) -> Seq<u8> {
    match a {
        Animation::Off => seq![0x64u8, 0x4eu8, 0x6fu8, 0x6eu8, 0x65u8],
        Animation::Snow => seq![0x64u8, 0x53u8, 0x6eu8, 0x6fu8, 0x77u8],
        Animation::Sparkle => seq![0x67u8, 0x53u8, 0x70u8, 0x61u8, 0x72u8, 0x6bu8, 0x6cu8, 0x65u8],
        Animation::Rainbow => seq![0x67u8, 0x52u8, 0x61u8, 0x69u8, 0x6eu8, 0x62u8, 0x6fu8, 0x77u8],
    }
}

/// One unsigned byte as an integer of the wire form.
pub open spec fn item_bytes(v: u8) -> Seq<u8> {
    if v < 24 {
        seq![v]
    } else {
        seq![0x18u8, v]
    }
}

/// A run of unsigned bytes as integers of the wire form, one after another.
pub open spec fn items_bytes(vals: Seq<u8>) -> Seq<u8>
    decreases vals.len(),
{
    if vals.len() == 0 {
        Seq::empty()
    } else {
        items_bytes(vals.drop_last()) + item_bytes(vals.last())
    }
}

/// The bytes that carry a command.
pub open spec fn spec_encode(c: Command) -> Seq<u8> {
    match c {
        Command::Flush => flush_bytes(),
        Command::Clear(r, g, b) => clear_header() + items_bytes(seq![r, g, b]),
        Command::Animate(a) => animate_header() + animation_bytes(a),
        Command::SetPixel(x, y, r, g, b) => set_pixel_header() + items_bytes(seq![x, y, r, g, b]),
    }
}

/// A run of items with one more item at its end is the run followed by that item.
pub proof fn lemma_items_bytes_push(vals: Seq<u8>, v: u8)
    ensures
        items_bytes(vals.push(v)) == items_bytes(vals) + item_bytes(v),
        1 <= item_bytes(v).len() <= 2,
{
    assert(vals.push(v).drop_last() =~= vals);
}

/// The runs of three and of five items, written out.
pub proof fn lemma_items_bytes_unfold(x: u8, y: u8, r: u8, g: u8, b: u8)
    ensures
        items_bytes(seq![r, g, b]) == item_bytes(r) + item_bytes(g) + item_bytes(b),
        items_bytes(seq![x, y, r, g, b]) == item_bytes(x) + item_bytes(y) + item_bytes(r) + item_bytes(g)
            + item_bytes(b),
        3 <= items_bytes(seq![r, g, b]).len() <= 6,
        5 <= items_bytes(seq![x, y, r, g, b]).len() <= 10,
{
    let e = Seq::<u8>::empty();
    assert(items_bytes(e) =~= e);
    lemma_items_bytes_push(e, r);
    assert(e.push(r) =~= seq![r]);
    lemma_items_bytes_push(seq![r], g);
    assert(seq![r].push(g) =~= seq![r, g]);
    lemma_items_bytes_push(seq![r, g], b);
    assert(seq![r, g].push(b) =~= seq![r, g, b]);
    assert(items_bytes(seq![r, g, b]) =~= item_bytes(r) + item_bytes(g) + item_bytes(b));
    lemma_items_bytes_push(e, x);
    assert(e.push(x) =~= seq![x]);
    lemma_items_bytes_push(seq![x], y);
    assert(seq![x].push(y) =~= seq![x, y]);
    lemma_items_bytes_push(seq![x, y], r);
    assert(seq![x, y].push(r) =~= seq![x, y, r]);
    lemma_items_bytes_push(seq![x, y, r], g);
    assert(seq![x, y, r].push(g) =~= seq![x, y, r, g]);
    lemma_items_bytes_push(seq![x, y, r, g], b);
    assert(seq![x, y, r, g].push(b) =~= seq![x, y, r, g, b]);
    assert(items_bytes(seq![x, y, r, g, b]) =~= item_bytes(x) + item_bytes(y) + item_bytes(r)
        + item_bytes(g) + item_bytes(b));
}

/// The longest a command's bytes can be.
pub const MAX_COMMAND_LEN: usize = 21;

/// Appends one unsigned byte as an integer of the wire form.
fn push_item(out: &mut Vec<u8>, v: u8)
    ensures
        final(out)@ == old(out)@ + item_bytes(v),
{
    if v < 24 {
        out.push(v);
        assert(out@ =~= old(out)@ + item_bytes(v));
    } else {
        out.push(0x18);
        out.push(v);
        assert(out@ =~= old(out)@ + item_bytes(v));
    }
}

/// Appends the bytes of a pattern, one by one.
fn push_all(out: &mut Vec<u8>, bytes: &[u8])
    ensures
        final(out)@ == old(out)@ + bytes@,
{
    let mut i: usize = 0;
    while i < bytes.len()
        invariant
            i <= bytes@.len(),
            out@ == old(out)@ + bytes@.subrange(0, i as int),
        decreases bytes@.len() - i,
    {
        out.push(bytes[i]);
        assert(out@ =~= old(out)@ + bytes@.subrange(0, i + 1));
        i += 1;
    }
    assert(bytes@.subrange(0, i as int) =~= bytes@);
}

/// The bytes that carry `command`.
pub fn encode(command: Command) -> (out: Vec<u8>)
    ensures
        out@ == spec_encode(command),
        0 < out@.len() <= MAX_COMMAND_LEN,
{
    let mut out: Vec<u8> = Vec::new();
    match command {
        Command::Flush => {
            let pat: [u8; 6] = [0x65, 0x46, 0x6c, 0x75, 0x73, 0x68];
            assert(pat@ =~= flush_bytes());
            push_all(&mut out, pat.as_slice());
            assert(out@ =~= spec_encode(command));
        },
        Command::Clear(r, g, b) => {
            let pat: [u8; 8] = [0xa1, 0x65, 0x43, 0x6c, 0x65, 0x61, 0x72, 0x83];
            assert(pat@ =~= clear_header());
            push_all(&mut out, pat.as_slice());
            push_item(&mut out, r);
            push_item(&mut out, g);
            push_item(&mut out, b);
            proof {
                lemma_items_bytes_unfold(r, g, r, g, b);
            }
            assert(out@ =~= spec_encode(command));
        },
        Command::Animate(a) => {
            let pat: [u8; 9] = [0xa1, 0x67, 0x41, 0x6e, 0x69, 0x6d, 0x61, 0x74, 0x65];
            assert(pat@ =~= animate_header());
            push_all(&mut out, pat.as_slice());
            match a {
                Animation::Off => {
                    let name: [u8; 5] = [0x64, 0x4e, 0x6f, 0x6e, 0x65];
                    assert(name@ =~= animation_bytes(a));
                    push_all(&mut out, name.as_slice());
                },
                Animation::Snow => {
                    let name: [u8; 5] = [0x64, 0x53, 0x6e, 0x6f, 0x77];
                    assert(name@ =~= animation_bytes(a));
                    push_all(&mut out, name.as_slice());
                },
                Animation::Sparkle => {
                    let name: [u8; 8] = [0x67, 0x53, 0x70, 0x61, 0x72, 0x6b, 0x6c, 0x65];
                    assert(name@ =~= animation_bytes(a));
                    push_all(&mut out, name.as_slice());
                },
                Animation::Rainbow => {
                    let name: [u8; 8] = [0x67, 0x52, 0x61, 0x69, 0x6e, 0x62, 0x6f, 0x77];
                    assert(name@ =~= animation_bytes(a));
                    push_all(&mut out, name.as_slice());
                },
            }
            assert(out@ =~= spec_encode(command));
        },
        Command::SetPixel(x, y, r, g, b) => {
            let pat: [u8; 11] = [0xa1, 0x68, 0x53, 0x65, 0x74, 0x50, 0x69, 0x78, 0x65, 0x6c, 0x85];
            assert(pat@ =~= set_pixel_header());
            push_all(&mut out, pat.as_slice());
            push_item(&mut out, x);
            push_item(&mut out, y);
            push_item(&mut out, r);
            push_item(&mut out, g);
            push_item(&mut out, b);
            proof {
                lemma_items_bytes_unfold(x, y, r, g, b);
            }
            assert(out@ =~= spec_encode(command));
        },
    }
    out
}

} // verus!
