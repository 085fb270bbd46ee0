//! What the decoder's answer means, stated over the encoder.

use vstd::prelude::*;
use crate::codec::{
    animate_header, animation_bytes, clear_header, flush_bytes, item_bytes, items_bytes,
    lemma_items_bytes_push, lemma_items_bytes_unfold, set_pixel_header, spec_encode,
};
use crate::command::{Animation, Command};
use crate::decoder::{
    begins_with, is_cut_short, matches_at, parse, parse_animate, parse_clear, parse_set_pixel,
    partial_at, spec_item, spec_items, Decoded, Item, Items,
};

verus! {

/// A pattern of two parts stands at a place exactly when its first part stands
/// there and its second part stands right after.
pub proof fn lemma_matches_concat(s: Seq<u8>, p: int, a: Seq<u8>, b: Seq<u8>)
    ensures
        matches_at(s, p, a + b) <==> matches_at(s, p, a) && matches_at(s, p + a.len(), b),
{
    let ab = a + b;
    if matches_at(s, p, ab) {
        assert forall|i: int| 0 <= i < a.len() implies s[p + i] == #[trigger] a[i] by {
            assert(ab[i] == a[i]);
        }
        assert forall|i: int| 0 <= i < b.len() implies s[p + a.len() + i] == #[trigger] b[i] by {
            assert(ab[a.len() + i] == b[i]);
        }
    }
    if matches_at(s, p, a) && matches_at(s, p + a.len(), b) {
        assert forall|i: int| 0 <= i < ab.len() implies s[p + i] == #[trigger] ab[i] by {
            if i < a.len() {
                assert(ab[i] == a[i]);
            } else {
                assert(ab[i] == b[i - a.len()]);
                assert(s[p + a.len() + (i - a.len())] == b[i - a.len()]);
            }
        }
    }
}

/// A stream ends inside a pattern of two parts exactly when it ends inside the
/// first part, or holds the first part whole and ends inside the second.
pub proof fn lemma_partial_concat(s: Seq<u8>, p: int, a: Seq<u8>, b: Seq<u8>)
    ensures
        partial_at(s, p, a + b) <==> partial_at(s, p, a) || (matches_at(s, p, a) && partial_at(
            s,
            p + a.len(),
            b,
        )),
{
    let ab = a + b;
    if partial_at(s, p, ab) {
        if s.len() < p + a.len() {
            assert forall|i: int| 0 <= i < s.len() - p implies s[p + i] == #[trigger] a[i] by {
                assert(ab[i] == a[i]);
            }
        } else {
            assert forall|i: int| 0 <= i < a.len() implies s[p + i] == #[trigger] a[i] by {
                assert(ab[i] == a[i]);
            }
            assert forall|i: int| 0 <= i < s.len() - (p + a.len()) implies s[p + a.len() + i]
                == #[trigger] b[i] by {
                assert(ab[a.len() + i] == b[i]);
            }
        }
    }
    if partial_at(s, p, a) {
        assert forall|i: int| 0 <= i < s.len() - p implies s[p + i] == #[trigger] ab[i] by {
            assert(ab[i] == a[i]);
        }
    }
    if matches_at(s, p, a) && partial_at(s, p + a.len(), b) {
        assert forall|i: int| 0 <= i < s.len() - p implies s[p + i] == #[trigger] ab[i] by {
            if i < a.len() {
                assert(ab[i] == a[i]);
            } else {
                assert(ab[i] == b[i - a.len()]);
                assert(s[p + a.len() + (i - a.len())] == b[i - a.len()]);
            }
        }
    }
}

/// An integer is read at a place exactly when its bytes stand there; the read
/// is short exactly when the stream ends inside the bytes of some integer.
pub proof fn lemma_item(s: Seq<u8>, p: int, v: u8)
    requires
        0 <= p <= s.len(),
    ensures
        matches_at(s, p, item_bytes(v)) <==> spec_item(s, p) == Item::Value(
            v,
            item_bytes(v).len() as usize,
        ),
        spec_item(s, p) matches Item::Value(u, w) ==> w == item_bytes(u).len(),
        partial_at(s, p, item_bytes(v)) ==> spec_item(s, p) is Short,
        spec_item(s, p) is Short ==> partial_at(s, p, item_bytes(0u8)) || partial_at(
            s,
            p,
            item_bytes(24u8),
        ),
{
    let e = item_bytes(v);
    if matches_at(s, p, e) {
        assert(s[p + 0] == e[0]);
        if v >= 24 {
            assert(s[p + 1] == e[1]);
        }
    }
    if partial_at(s, p, e) {
        if p < s.len() {
            assert(s[p + 0] == e[0]);
        }
    }
    if spec_item(s, p) is Short {
        if p < s.len() {
            assert(item_bytes(24u8)[0] == 0x18u8);
        }
    }
}

/// A run of integers is read from a place exactly when its bytes stand there.
pub proof fn lemma_items_read(s: Seq<u8>, p: int, vals: Seq<u8>)
    requires
        0 <= p <= s.len(),
    ensures
        matches_at(s, p, items_bytes(vals)) <==> spec_items(s, p, vals.len()) == Items::Values(
            vals,
            p + items_bytes(vals).len(),
        ),
    decreases vals.len(),
{
    if vals.len() == 0 {
        assert(spec_items(s, p, 0).arrow_Values_0() =~= vals);
    } else {
        let init = vals.drop_last();
        let v = vals.last();
        assert(init.push(v) =~= vals);
        lemma_items_bytes_push(init, v);
        lemma_items_read(s, p, init);
        lemma_matches_concat(s, p, items_bytes(init), item_bytes(v));
        let e = p + items_bytes(init).len();
        if matches_at(s, p, items_bytes(init)) {
            lemma_item(s, e, v);
        }
        if spec_items(s, p, vals.len()) == Items::Values(vals, p + items_bytes(vals).len()) {
            lemma_items_values(s, p, vals.len());
            let got = spec_items(s, p, init.len());
            assert(got is Values);
            let gv = got.arrow_Values_0();
            let ge = got.arrow_Values_1();
            let it = spec_item(s, ge);
            assert(it is Value);
            assert(gv.push(it.arrow_Value_0()) == vals);
            assert(gv =~= init) by {
                assert(gv.push(it.arrow_Value_0()).drop_last() =~= gv);
            }
            assert(it.arrow_Value_0() == v) by {
                assert(gv.push(it.arrow_Value_0()).last() == it.arrow_Value_0());
            }
            lemma_items_values(s, p, init.len());
            lemma_item(s, ge, v);
        }
    }
}

/// Where a run of integers is read, there are as many values as were asked
/// for, their bytes stand at the place the run began, and the run ends right
/// after them.
pub proof fn lemma_items_values(s: Seq<u8>, p: int, n: nat)
    requires
        0 <= p <= s.len(),
    ensures
        spec_items(s, p, n) matches Items::Values(vals, e) ==> vals.len() == n && e == p
            + items_bytes(vals).len() && e <= s.len() && matches_at(s, p, items_bytes(vals)),
    decreases n,
{
    if n > 0 {
        lemma_items_values(s, p, (n - 1) as nat);
        if let Items::Values(init, e0) = spec_items(s, p, (n - 1) as nat) {
            if let Item::Value(v, w) = spec_item(s, e0) {
                lemma_items_bytes_push(init, v);
                lemma_item(s, e0, v);
                lemma_matches_concat(s, p, items_bytes(init), item_bytes(v));
            }
        }
    } else {
        assert(items_bytes(Seq::<u8>::empty()) =~= Seq::<u8>::empty());
    }
}

/// A stream that ends inside the bytes of a run of integers reads short.
pub proof fn lemma_items_short(s: Seq<u8>, p: int, vals: Seq<u8>)
    requires
        0 <= p <= s.len(),
        partial_at(s, p, items_bytes(vals)),
    ensures
        spec_items(s, p, vals.len()) is Short,
    decreases vals.len(),
{
    if vals.len() == 0 {
        assert(items_bytes(vals) =~= Seq::<u8>::empty());
    } else {
        let init = vals.drop_last();
        let v = vals.last();
        assert(init.push(v) =~= vals);
        lemma_items_bytes_push(init, v);
        lemma_partial_concat(s, p, items_bytes(init), item_bytes(v));
        if partial_at(s, p, items_bytes(init)) {
            lemma_items_short(s, p, init);
        } else {
            lemma_items_read(s, p, init);
            lemma_item(s, p + items_bytes(init).len(), v);
        }
    }
}

/// A run of `n` integers reads short only where the stream ends inside the
/// bytes of some run of `n` integers.
pub proof fn lemma_items_short_witness(s: Seq<u8>, p: int, n: nat) -> (vals: Seq<u8>)
    requires
        0 <= p <= s.len(),
        spec_items(s, p, n) is Short,
    ensures
        vals.len() == n,
        partial_at(s, p, items_bytes(vals)),
    decreases n,
{
    let before = spec_items(s, p, (n - 1) as nat);
    if before is Short {
        let init = lemma_items_short_witness(s, p, (n - 1) as nat);
        lemma_items_bytes_push(init, 0u8);
        lemma_partial_concat(s, p, items_bytes(init), item_bytes(0u8));
        init.push(0u8)
    } else {
        lemma_items_values(s, p, (n - 1) as nat);
        let init = before.arrow_Values_0();
        let e = before.arrow_Values_1();
        lemma_item(s, e, 0u8);
        let v: u8 = if partial_at(s, e, item_bytes(0u8)) {
            0u8
        } else {
            24u8
        };
        lemma_items_bytes_push(init, v);
        lemma_partial_concat(s, p, items_bytes(init), item_bytes(v));
        init.push(v)
    }
}

/// The first two bytes of a stream that holds a header or the text `Flush`,
/// whole or in part.
proof fn lemma_header_bytes(s: Seq<u8>)
    ensures
        matches_at(s, 0, flush_bytes()) ==> s.len() >= 6 && s[0] == 0x65,
        matches_at(s, 0, clear_header()) ==> s.len() >= 8 && s[0] == 0xa1 && s[1] == 0x65,
        matches_at(s, 0, set_pixel_header()) ==> s.len() >= 11 && s[0] == 0xa1 && s[1] == 0x68,
        matches_at(s, 0, animate_header()) ==> s.len() >= 9 && s[0] == 0xa1 && s[1] == 0x67,
        partial_at(s, 0, flush_bytes()) ==> s.len() < 6 && (s.len() > 0 ==> s[0] == 0x65),
        partial_at(s, 0, clear_header()) ==> s.len() < 8 && (s.len() > 0 ==> s[0] == 0xa1) && (s.len()
            > 1 ==> s[1] == 0x65),
        partial_at(s, 0, set_pixel_header()) ==> s.len() < 11 && (s.len() > 0 ==> s[0] == 0xa1) && (
        s.len() > 1 ==> s[1] == 0x68),
        partial_at(s, 0, animate_header()) ==> s.len() < 9 && (s.len() > 0 ==> s[0] == 0xa1) && (s.len()
            > 1 ==> s[1] == 0x67),
{
    assert(flush_bytes()[0] == 0x65u8 && flush_bytes().len() == 6);
    assert(clear_header()[0] == 0xa1u8 && clear_header()[1] == 0x65u8 && clear_header().len() == 8);
    assert(set_pixel_header()[0] == 0xa1u8 && set_pixel_header()[1] == 0x68u8
        && set_pixel_header().len() == 11);
    assert(animate_header()[0] == 0xa1u8 && animate_header()[1] == 0x67u8 && animate_header().len()
        == 9);
    assert(s.len() > 0 ==> s[0int + 0int] == s[0]);
    assert(s.len() > 1 ==> s[0int + 1int] == s[1]);
}

/// The first two bytes of a pattern's name that stands, whole or in part,
/// after the header of an `Animate`.
proof fn lemma_name_bytes(s: Seq<u8>, a: Animation)
    ensures
        animation_bytes(a).len() == (match a {
            Animation::Off => 5int,
            Animation::Snow => 5int,
            Animation::Sparkle => 8int,
            Animation::Rainbow => 8int,
        }),
        animation_bytes(a)[0] == (match a {
            Animation::Off => 0x64u8,
            Animation::Snow => 0x64u8,
            Animation::Sparkle => 0x67u8,
            Animation::Rainbow => 0x67u8,
        }),
        animation_bytes(a)[1] == (match a {
            Animation::Off => 0x4eu8,
            Animation::Snow => 0x53u8,
            Animation::Sparkle => 0x53u8,
            Animation::Rainbow => 0x52u8,
        }),
        matches_at(s, 9, animation_bytes(a)) ==> s.len() >= 9 + animation_bytes(a).len() && s[9]
            == animation_bytes(a)[0] && s[10] == animation_bytes(a)[1],
        partial_at(s, 9, animation_bytes(a)) ==> 9 <= s.len() < 9 + animation_bytes(a).len() && (s.len()
            > 9 ==> s[9] == animation_bytes(a)[0]) && (s.len() > 10 ==> s[10] == animation_bytes(a)[1]),
{
    let n = animation_bytes(a);
    assert(n[0] == n[0] && n[1] == n[1]);
    assert(s.len() > 9 ==> s[9int + 0int] == s[9]);
    assert(s.len() > 10 ==> s[9int + 1int] == s[10]);
}

/// A stream that begins with the bytes of a command decodes to that command
/// and the number of those bytes.
pub proof fn lemma_parse_complete(s: Seq<u8>, c: Command)
    requires
        begins_with(s, spec_encode(c)),
    ensures
        parse(s) == Decoded::Complete(c, spec_encode(c).len() as usize),
        0 < spec_encode(c).len() <= crate::codec::MAX_COMMAND_LEN,
{
    lemma_header_bytes(s);
    match c {
        Command::Flush => {},
        Command::Clear(r, g, b) => {
            let vals = seq![r, g, b];
            lemma_items_bytes_unfold(r, g, r, g, b);
            lemma_matches_concat(s, 0, clear_header(), items_bytes(vals));
            lemma_items_read(s, 8, vals);
        },
        Command::SetPixel(x, y, r, g, b) => {
            let vals = seq![x, y, r, g, b];
            lemma_items_bytes_unfold(x, y, r, g, b);
            lemma_matches_concat(s, 0, set_pixel_header(), items_bytes(vals));
            lemma_items_read(s, 11, vals);
        },
        Command::Animate(a) => {
            lemma_matches_concat(s, 0, animate_header(), animation_bytes(a));
            lemma_name_bytes(s, Animation::Off);
            lemma_name_bytes(s, Animation::Snow);
            lemma_name_bytes(s, Animation::Sparkle);
            lemma_name_bytes(s, Animation::Rainbow);
        },
    }
}

/// Where a stream decodes to a command, it begins with the bytes of that
/// command, and the length given is the number of those bytes.
pub proof fn lemma_parse_sound(s: Seq<u8>)
    ensures
        parse(s) matches Decoded::Complete(c, n) ==> begins_with(s, spec_encode(c)) && n
            == spec_encode(c).len(),
{
    if let Decoded::Complete(c, n) = parse(s) {
        lemma_header_bytes(s);
        if matches_at(s, 0, flush_bytes()) {
        } else if matches_at(s, 0, clear_header()) {
            lemma_items_values(s, 8, 3);
            let vals = spec_items(s, 8, 3).arrow_Values_0();
            assert(vals =~= seq![vals[0], vals[1], vals[2]]);
            lemma_items_bytes_unfold(vals[0], vals[1], vals[0], vals[1], vals[2]);
            lemma_matches_concat(s, 0, clear_header(), items_bytes(vals));
        } else if matches_at(s, 0, set_pixel_header()) {
            lemma_items_values(s, 11, 5);
            let vals = spec_items(s, 11, 5).arrow_Values_0();
            assert(vals =~= seq![vals[0], vals[1], vals[2], vals[3], vals[4]]);
            lemma_items_bytes_unfold(vals[0], vals[1], vals[2], vals[3], vals[4]);
            lemma_matches_concat(s, 0, set_pixel_header(), items_bytes(vals));
        } else {
            let a = c.arrow_Animate_0();
            lemma_name_bytes(s, a);
            lemma_matches_concat(s, 0, animate_header(), animation_bytes(a));
        }
    }
}

/// A stream that is a beginning of the bytes of a command, and shorter than
/// them, is incomplete.
pub proof fn lemma_parse_cut_short(s: Seq<u8>, c: Command)
    requires
        is_cut_short(s, spec_encode(c)),
    ensures
        parse(s) == Decoded::Incomplete,
{
    lemma_header_bytes(s);
    match c {
        Command::Flush => {},
        Command::Clear(r, g, b) => {
            let vals = seq![r, g, b];
            lemma_partial_concat(s, 0, clear_header(), items_bytes(vals));
            if matches_at(s, 0, clear_header()) {
                lemma_items_short(s, 8, vals);
            }
        },
        Command::SetPixel(x, y, r, g, b) => {
            let vals = seq![x, y, r, g, b];
            lemma_partial_concat(s, 0, set_pixel_header(), items_bytes(vals));
            if matches_at(s, 0, set_pixel_header()) {
                lemma_items_short(s, 11, vals);
            }
        },
        Command::Animate(a) => {
            lemma_partial_concat(s, 0, animate_header(), animation_bytes(a));
            lemma_name_bytes(s, Animation::Off);
            lemma_name_bytes(s, Animation::Snow);
            lemma_name_bytes(s, Animation::Sparkle);
            lemma_name_bytes(s, Animation::Rainbow);
        },
    }
}

/// An incomplete stream is a beginning of the bytes of the command returned,
/// and shorter than them.
pub proof fn lemma_parse_incomplete_witness(s: Seq<u8>) -> (c: Command)
    requires
        parse(s) is Incomplete,
    ensures
        is_cut_short(s, spec_encode(c)),
{
    lemma_header_bytes(s);
    if matches_at(s, 0, clear_header()) {
        let vals = lemma_items_short_witness(s, 8, 3);
        assert(vals =~= seq![vals[0], vals[1], vals[2]]);
        lemma_partial_concat(s, 0, clear_header(), items_bytes(vals));
        Command::Clear(vals[0], vals[1], vals[2])
    } else if matches_at(s, 0, set_pixel_header()) {
        let vals = lemma_items_short_witness(s, 11, 5);
        assert(vals =~= seq![vals[0], vals[1], vals[2], vals[3], vals[4]]);
        lemma_partial_concat(s, 0, set_pixel_header(), items_bytes(vals));
        Command::SetPixel(vals[0], vals[1], vals[2], vals[3], vals[4])
    } else if matches_at(s, 0, animate_header()) {
        let a = if partial_at(s, 9, animation_bytes(Animation::Off)) {
            Animation::Off
        } else if partial_at(s, 9, animation_bytes(Animation::Snow)) {
            Animation::Snow
        } else if partial_at(s, 9, animation_bytes(Animation::Sparkle)) {
            Animation::Sparkle
        } else {
            Animation::Rainbow
        };
        lemma_partial_concat(s, 0, animate_header(), animation_bytes(a));
        Command::Animate(a)
    } else if partial_at(s, 0, flush_bytes()) {
        Command::Flush
    } else if partial_at(s, 0, clear_header()) {
        let c = Command::Clear(0, 0, 0);
        lemma_partial_concat(s, 0, clear_header(), items_bytes(seq![0u8, 0u8, 0u8]));
        c
    } else if partial_at(s, 0, set_pixel_header()) {
        let c = Command::SetPixel(0, 0, 0, 0, 0);
        lemma_partial_concat(s, 0, set_pixel_header(), items_bytes(seq![0u8, 0u8, 0u8, 0u8, 0u8]));
        c
    } else {
        let c = Command::Animate(Animation::Off);
        lemma_partial_concat(s, 0, animate_header(), animation_bytes(Animation::Off));
        c
    }
}

/// What decoding means. A stream decodes to a command exactly when it begins
/// with the bytes of that command; it is incomplete exactly when it is a
/// beginning of the bytes of some command and shorter than them; and it is
/// malformed exactly when neither holds of any command.
pub proof fn lemma_parse_is_decoding(s: Seq<u8>)
    ensures
        forall|c: Command|
            #![trigger spec_encode(c)]
            begins_with(s, spec_encode(c)) <==> parse(s) == Decoded::Complete(
                c,
                spec_encode(c).len() as usize,
            ),
        parse(s) matches Decoded::Complete(c, n) ==> n == spec_encode(c).len() && 0 < n <= s.len(),
        parse(s) is Incomplete <==> exists|c: Command|
            #![trigger spec_encode(c)]
            is_cut_short(s, spec_encode(c)),
        parse(s) is Malformed <==> forall|c: Command|
            #![trigger spec_encode(c)]
            !begins_with(s, spec_encode(c)) && !is_cut_short(s, spec_encode(c)),
{
    lemma_parse_sound(s);
    assert forall|c: Command|
        #![trigger spec_encode(c)]
        begins_with(s, spec_encode(c)) <==> parse(s) == Decoded::Complete(
            c,
            spec_encode(c).len() as usize,
        ) by {
        if begins_with(s, spec_encode(c)) {
            lemma_parse_complete(s, c);
        }
    }
    if let Decoded::Complete(c, n) = parse(s) {
        lemma_parse_complete(s, c);
    }
    if parse(s) is Incomplete {
        let c = lemma_parse_incomplete_witness(s);
        assert(is_cut_short(s, spec_encode(c)));
    }
    assert forall|c: Command|
        #![trigger spec_encode(c)]
        is_cut_short(s, spec_encode(c)) implies parse(s) is Incomplete by {
        lemma_parse_cut_short(s, c);
    }
    if parse(s) is Malformed {
        assert forall|c: Command|
            #![trigger spec_encode(c)]
            !begins_with(s, spec_encode(c)) && !is_cut_short(s, spec_encode(c)) by {
            if begins_with(s, spec_encode(c)) {
                lemma_parse_complete(s, c);
            }
            if is_cut_short(s, spec_encode(c)) {
                lemma_parse_cut_short(s, c);
            }
        }
    }
}

} // verus!
