//! Decoding one command from the front of a byte stream.
//!
//! A stream that begins with the bytes of a command decodes to that command
//! and the number of bytes it took. A stream that could still grow into the
//! bytes of a command is incomplete. Any other stream is malformed.

use vstd::prelude::*;
use crate::codec::{
    animate_header, animation_bytes, clear_header, flush_bytes, set_pixel_header, spec_encode,
};
use crate::command::{Animation, Command};

verus! {

/// What the front of a stream holds.
#[derive(Clone, Copy, Debug, PartialEq, Eq, Structural)]
pub enum Decoded {
    /// A whole command, and the number of bytes that carried it.
    Complete(Command, usize),
    /// The beginning of a command, and nothing that contradicts it.
    Incomplete,
    /// Bytes that no command begins with.
    Malformed,
}

/// One integer read from a stream.
#[derive(Clone, Copy, Debug, PartialEq, Eq, Structural)]
pub enum Item {
    /// The value, and the number of bytes that carried it.
    Value(u8, usize),
    /// The stream ends before the integer does.
    Short,
    /// The bytes are not an unsigned byte in its shortest form.
    Bad,
}

/// A run of integers read from a stream: in specifications.
pub enum Items {
    /// The values, and the place in the stream after the last of them.
    Values(Seq<u8>, int),
    /// The stream ends before the run does.
    Short,
    /// Some integer of the run is not well-formed.
    Bad,
}

/// Whether `pat` stands in `s` at place `p`, whole.
pub open spec fn matches_at(s: Seq<u8>, p: int, pat: Seq<u8>) -> bool {
    &&& 0 <= p
    &&& p + pat.len() <= s.len()
    &&& forall|i: int| 0 <= i < pat.len() ==> s[p + i] == #[trigger] pat[i]
}

/// Whether `s` ends inside `pat`, having agreed with it from place `p` on.
pub open spec fn partial_at(s: Seq<u8>, p: int, pat: Seq<u8>) -> bool {
    &&& 0 <= p <= s.len()
    &&& s.len() < p + pat.len()
    &&& forall|i: int| 0 <= i < s.len() - p ==> s[p + i] == #[trigger] pat[i]
}

/// Whether the stream `s` begins with all of `e`.
pub open spec fn begins_with(s: Seq<u8>, e: Seq<u8>) -> bool {
    matches_at(s, 0, e)
}

/// Whether the stream `s` is a beginning of `e`, and shorter than `e`.
pub open spec fn is_cut_short(s: Seq<u8>, e: Seq<u8>) -> bool {
    partial_at(s, 0, e)
}

/// The integer at place `p` of a stream.
pub open spec fn spec_item(s: Seq<u8>, p: int) -> Item {
    if p >= s.len() {
        Item::Short
    } else if s[p] < 24 {
        Item::Value(s[p], 1)
    } else if s[p] == 0x18 {
        if p + 1 >= s.len() {
            Item::Short
        } else if s[p + 1] >= 24 {
            Item::Value(s[p + 1], 2)
        } else {
            Item::Bad
        }
    } else {
        Item::Bad
    }
}

/// The run of `n` integers that begins at place `p` of a stream.
pub open spec fn spec_items(s: Seq<u8>, p: int, n: nat) -> Items
    decreases n,
{
    if n == 0 {
        Items::Values(Seq::empty(), p)
    } else {
        match spec_items(s, p, (n - 1) as nat) {
            Items::Values(vals, e) => match spec_item(s, e) {
                Item::Value(v, w) => Items::Values(vals.push(v), e + w),
                Item::Short => Items::Short,
                Item::Bad => Items::Bad,
            },
            Items::Short => Items::Short,
            Items::Bad => Items::Bad,
        }
    }
}

/// What follows the header of a `Clear`.
pub open spec fn parse_clear(s: Seq<u8>) -> Decoded {
    match spec_items(s, 8, 3) {
        Items::Values(v, e) => Decoded::Complete(Command::Clear(v[0], v[1], v[2]), e as usize),
        Items::Short => Decoded::Incomplete,
        Items::Bad => Decoded::Malformed,
    }
}

/// What follows the header of a `SetPixel`.
pub open spec fn parse_set_pixel(s: Seq<u8>) -> Decoded {
    match spec_items(s, 11, 5) {
        Items::Values(v, e) => Decoded::Complete(
            Command::SetPixel(v[0], v[1], v[2], v[3], v[4]),
            e as usize,
        ),
        Items::Short => Decoded::Incomplete,
        Items::Bad => Decoded::Malformed,
    }
}

/// What follows the header of an `Animate`.
pub open spec fn parse_animate(s: Seq<u8>) -> Decoded {
    if matches_at(s, 9, animation_bytes(Animation::Off)) {
        Decoded::Complete(Command::Animate(Animation::Off), 14)
    } else if matches_at(s, 9, animation_bytes(Animation::Snow)) {
        Decoded::Complete(Command::Animate(Animation::Snow), 14)
    } else if matches_at(s, 9, animation_bytes(Animation::Sparkle)) {
        Decoded::Complete(Command::Animate(Animation::Sparkle), 17)
    } else if matches_at(s, 9, animation_bytes(Animation::Rainbow)) {
        Decoded::Complete(Command::Animate(Animation::Rainbow), 17)
    } else if partial_at(s, 9, animation_bytes(Animation::Off)) || partial_at(
        s,
        9,
        animation_bytes(Animation::Snow),
    ) || partial_at(s, 9, animation_bytes(Animation::Sparkle)) || partial_at(
        s,
        9,
        animation_bytes(Animation::Rainbow),
    ) {
        Decoded::Incomplete
    } else {
        Decoded::Malformed
    }
}

/// What the front of the stream `s` holds.
pub open spec fn parse(s: Seq<u8>) -> Decoded {
    if matches_at(s, 0, flush_bytes()) {
        Decoded::Complete(Command::Flush, 6)
    } else if matches_at(s, 0, clear_header()) {
        parse_clear(s)
    } else if matches_at(s, 0, set_pixel_header()) {
        parse_set_pixel(s)
    } else if matches_at(s, 0, animate_header()) {
        parse_animate(s)
    } else if partial_at(s, 0, flush_bytes()) || partial_at(s, 0, clear_header()) || partial_at(
        s,
        0,
        set_pixel_header(),
    ) || partial_at(s, 0, animate_header()) {
        Decoded::Incomplete
    } else {
        Decoded::Malformed
    }
}

/// How a stream stands to a pattern at one place.
#[derive(Clone, Copy, Debug, PartialEq, Eq, Structural)]
pub enum Match {
    /// The pattern stands there, whole.
    Full,
    /// The stream ends inside the pattern.
    Partial,
    /// A byte differs.
    Conflict,
}

/// A run of integers read from a stream.
pub enum ItemsRead {
    /// The values, and the place in the stream after the last of them.
    Values(Vec<u8>, usize),
    /// The stream ends before the run does.
    Short,
    /// Some integer of the run is not well-formed.
    Bad,
}

/// A run that has failed after `k` integers has failed after any more.
pub proof fn lemma_items_failure_stays(s: Seq<u8>, p: int, k: nat, n: nat)
    requires
        k <= n,
    ensures
        spec_items(s, p, k) is Short ==> spec_items(s, p, n) is Short,
        spec_items(s, p, k) is Bad ==> spec_items(s, p, n) is Bad,
    decreases n,
{
    if k < n {
        lemma_items_failure_stays(s, p, k, (n - 1) as nat);
    }
}

/// Compares the stream from place `pos` on with a pattern.
pub fn classify(bytes: &[u8], pos: usize, pat: &[u8]) -> (m: Match)
    requires
        pos <= bytes@.len(),
    ensures
        m is Full <==> matches_at(bytes@, pos as int, pat@),
        m is Partial <==> partial_at(bytes@, pos as int, pat@),
{
    let len: usize = bytes.len();
    let avail: usize = len - pos;
    let mut i: usize = 0;
    while i < pat.len() && i < avail
        invariant
            i <= pat@.len(),
            i <= avail,
            len == bytes@.len(),
            avail == len - pos,
            forall|k: int| 0 <= k < i ==> bytes@[pos + k] == #[trigger] pat@[k],
        decreases pat@.len() - i,
    {
        if bytes[pos + i] != pat[i] {
            assert(bytes@[pos + i] != pat@[i as int]);
            return Match::Conflict;
        }
        i += 1;
    }
    if i == pat.len() {
        Match::Full
    } else {
        Match::Partial
    }
}

/// Reads the integer at place `pos` of the stream.
pub fn read_item(bytes: &[u8], pos: usize) -> (r: Item)
    requires
        pos <= bytes@.len(),
    ensures
        r == spec_item(bytes@, pos as int),
        r matches Item::Value(_, w) ==> 1 <= w <= 2 && pos + w <= bytes@.len(),
{
    if pos >= bytes.len() {
        Item::Short
    } else if bytes[pos] < 24 {
        Item::Value(bytes[pos], 1)
    } else if bytes[pos] == 0x18 {
        if pos + 1 >= bytes.len() {
            Item::Short
        } else if bytes[pos + 1] >= 24 {
            Item::Value(bytes[pos + 1], 2)
        } else {
            Item::Bad
        }
    } else {
        Item::Bad
    }
}

/// Reads the run of `n` integers that begins at place `pos` of the stream.
pub fn read_items(bytes: &[u8], pos: usize, n: usize) -> (r: ItemsRead)
    requires
        pos <= bytes@.len(),
    ensures
        match r {
            ItemsRead::Values(v, e) => spec_items(bytes@, pos as int, n as nat) == Items::Values(
                v@,
                e as int,
            ) && v@.len() == n && e <= bytes@.len(),
            ItemsRead::Short => spec_items(bytes@, pos as int, n as nat) is Short,
            ItemsRead::Bad => spec_items(bytes@, pos as int, n as nat) is Bad,
        },
{
    let len: usize = bytes.len();
    let mut vals: Vec<u8> = Vec::new();
    let mut at: usize = pos;
    let mut k: usize = 0;
    while k < n
        invariant
            k <= n,
            len == bytes@.len(),
            pos <= at <= bytes@.len(),
            vals@.len() == k,
            spec_items(bytes@, pos as int, k as nat) == Items::Values(vals@, at as int),
        decreases n - k,
    {
        match read_item(bytes, at) {
            Item::Value(v, w) => {
                vals.push(v);
                at = at + w;
            },
            Item::Short => {
                proof {
                    lemma_items_failure_stays(bytes@, pos as int, (k + 1) as nat, n as nat);
                }
                return ItemsRead::Short;
            },
            Item::Bad => {
                proof {
                    lemma_items_failure_stays(bytes@, pos as int, (k + 1) as nat, n as nat);
                }
                return ItemsRead::Bad;
            },
        }
        k += 1;
    }
    ItemsRead::Values(vals, at)
}

/// Reads what follows the header of a `Clear`.
fn decode_clear(bytes: &[u8]) -> (r: Decoded)
    requires
        8 <= bytes@.len(),
    ensures
        r == parse_clear(bytes@),
{
    match read_items(bytes, 8, 3) {
        ItemsRead::Values(v, e) => Decoded::Complete(Command::Clear(v[0], v[1], v[2]), e),
        ItemsRead::Short => Decoded::Incomplete,
        ItemsRead::Bad => Decoded::Malformed,
    }
}

/// Reads what follows the header of a `SetPixel`.
fn decode_set_pixel(bytes: &[u8]) -> (r: Decoded)
    requires
        11 <= bytes@.len(),
    ensures
        r == parse_set_pixel(bytes@),
{
    match read_items(bytes, 11, 5) {
        ItemsRead::Values(v, e) => Decoded::Complete(
            Command::SetPixel(v[0], v[1], v[2], v[3], v[4]),
            e,
        ),
        ItemsRead::Short => Decoded::Incomplete,
        ItemsRead::Bad => Decoded::Malformed,
    }
}

/// Reads what follows the header of an `Animate`.
fn decode_animate(bytes: &[u8]) -> (r: Decoded)
    requires
        9 <= bytes@.len(),
    ensures
        r == parse_animate(bytes@),
{
    let off: [u8; 5] = [0x64, 0x4e, 0x6f, 0x6e, 0x65];
    let snow: [u8; 5] = [0x64, 0x53, 0x6e, 0x6f, 0x77];
    let sparkle: [u8; 8] = [0x67, 0x53, 0x70, 0x61, 0x72, 0x6b, 0x6c, 0x65];
    let rainbow: [u8; 8] = [0x67, 0x52, 0x61, 0x69, 0x6e, 0x62, 0x6f, 0x77];
    assert(off@ =~= animation_bytes(Animation::Off));
    assert(snow@ =~= animation_bytes(Animation::Snow));
    assert(sparkle@ =~= animation_bytes(Animation::Sparkle));
    assert(rainbow@ =~= animation_bytes(Animation::Rainbow));
    let m_off = classify(bytes, 9, off.as_slice());
    let m_snow = classify(bytes, 9, snow.as_slice());
    let m_sparkle = classify(bytes, 9, sparkle.as_slice());
    let m_rainbow = classify(bytes, 9, rainbow.as_slice());
    if m_off == Match::Full {
        Decoded::Complete(Command::Animate(Animation::Off), 14)
    } else if m_snow == Match::Full {
        Decoded::Complete(Command::Animate(Animation::Snow), 14)
    } else if m_sparkle == Match::Full {
        Decoded::Complete(Command::Animate(Animation::Sparkle), 17)
    } else if m_rainbow == Match::Full {
        Decoded::Complete(Command::Animate(Animation::Rainbow), 17)
    } else if m_off == Match::Partial || m_snow == Match::Partial || m_sparkle == Match::Partial
        || m_rainbow == Match::Partial {
        Decoded::Incomplete
    } else {
        Decoded::Malformed
    }
}

/// Decodes one command from the front of `bytes`.
///
/// The result is `Complete` with a command and a length exactly when `bytes`
/// begins with the bytes of that command, which are that many; `Incomplete`
/// exactly when `bytes` is a beginning of the bytes of some command and
/// shorter than them; `Malformed` in every other case.
pub fn decode(bytes: &[u8]) -> (r: Decoded)
    ensures
        r == parse(bytes@),
        forall|c: Command|
            #![trigger spec_encode(c)]
            begins_with(bytes@, spec_encode(c)) <==> r == Decoded::Complete(
                c,
                spec_encode(c).len() as usize,
            ),
        r matches Decoded::Complete(c, n) ==> n == spec_encode(c).len() && 0 < n <= bytes@.len(),
        r is Incomplete <==> exists|c: Command|
            #![trigger spec_encode(c)]
            is_cut_short(bytes@, spec_encode(c)),
        r is Malformed <==> forall|c: Command|
            #![trigger spec_encode(c)]
            !begins_with(bytes@, spec_encode(c)) && !is_cut_short(bytes@, spec_encode(c)),
{
    proof {
        crate::wire_laws::lemma_parse_is_decoding(bytes@);
    }
    let flush: [u8; 6] = [0x65, 0x46, 0x6c, 0x75, 0x73, 0x68];
    let clear: [u8; 8] = [0xa1, 0x65, 0x43, 0x6c, 0x65, 0x61, 0x72, 0x83];
    let set_pixel: [u8; 11] = [0xa1, 0x68, 0x53, 0x65, 0x74, 0x50, 0x69, 0x78, 0x65, 0x6c, 0x85];
    let animate: [u8; 9] = [0xa1, 0x67, 0x41, 0x6e, 0x69, 0x6d, 0x61, 0x74, 0x65];
    assert(flush@ =~= flush_bytes());
    assert(clear@ =~= clear_header());
    assert(set_pixel@ =~= set_pixel_header());
    assert(animate@ =~= animate_header());
    let m_flush = classify(bytes, 0, flush.as_slice());
    let m_clear = classify(bytes, 0, clear.as_slice());
    let m_set_pixel = classify(bytes, 0, set_pixel.as_slice());
    let m_animate = classify(bytes, 0, animate.as_slice());
    if m_flush == Match::Full {
        Decoded::Complete(Command::Flush, 6)
    } else if m_clear == Match::Full {
        decode_clear(bytes)
    } else if m_set_pixel == Match::Full {
        decode_set_pixel(bytes)
    } else if m_animate == Match::Full {
        decode_animate(bytes)
    } else if m_flush == Match::Partial || m_clear == Match::Partial || m_set_pixel
        == Match::Partial || m_animate == Match::Partial {
        Decoded::Incomplete
    } else {
        Decoded::Malformed
    }
}

} // verus!
