//! The streaming decoder: commands out of a byte stream that arrives in pieces.
//!
//! Bytes are gathered in a buffer of fixed capacity. After each piece the
//! decoder takes whole commands off the front for as long as there are any,
//! and keeps what is left for the next piece. A command cut in two by the
//! transport is therefore decoded once its second half has arrived.

use vstd::prelude::*;
use vstd::slice::slice_subrange;
use crate::command::Command;
use crate::decoder::{decode, parse, Decoded};

verus! {

/// The capacity the receive buffer is given where none is asked for.
pub const DEFAULT_CAPACITY: usize = 4096;

/// How the bytes left in the buffer stand after a piece has been decoded.
#[derive(Clone, Copy, Debug, PartialEq, Eq, Structural)]
pub enum StreamStatus {
    /// Nothing is left.
    Drained,
    /// The beginning of a command is left.
    Incomplete,
    /// Bytes are left that no command begins with.
    Malformed,
}

/// What one piece of the stream gave.
pub struct FeedOutcome {
    /// The commands decoded, in the order of the stream.
    pub commands: Vec<Command>,
    /// How many bytes of the piece found room in the buffer.
    pub accepted: usize,
    /// How the bytes left in the buffer stand.
    pub status: StreamStatus,
}

/// The commands at the front of a stream, in order, and the bytes after the
/// last of them.
pub open spec fn decode_stream(s: Seq<u8>) -> (Seq<Command>, Seq<u8>)
    decreases s.len(),
{
    match parse(s) {
        Decoded::Complete(c, n) => if 0 < n <= s.len() {
            let (commands, rest) = decode_stream(s.skip(n as int));
            (seq![c] + commands, rest)
        } else {
            (Seq::empty(), s)
        },
        _ => (Seq::empty(), s),
    }
}

/// How bytes that do not begin with a whole command stand.
pub open spec fn status_of(rest: Seq<u8>) -> StreamStatus {
    if rest.len() == 0 {
        StreamStatus::Drained
    } else if parse(rest) is Malformed {
        StreamStatus::Malformed
    } else {
        StreamStatus::Incomplete
    }
}

/// The smaller of two counts.
pub open spec fn min_int(a: int, b: int) -> int {
    if a <= b {
        a
    } else {
        b
    }
}

/// A receive buffer of fixed capacity and the undecoded bytes it holds.
pub struct StreamDecoder {
    buf: Vec<u8>,
    write_offset: usize,
}

impl View for StreamDecoder {
    type V = Seq<u8>;

    /// The bytes received and not yet decoded.
    closed spec fn view(&self) -> Seq<u8> {
        self.buf@.subrange(0, self.write_offset as int)
    }
}

impl StreamDecoder {
    #[verifier::type_invariant]
    closed spec fn inv(&self) -> bool {
        self.write_offset <= self.buf@.len()
    }

    /// The number of bytes the buffer has room for.
    pub closed spec fn spec_capacity(&self) -> nat {
        self.buf@.len()
    }

    /// A decoder with an empty buffer of the given capacity.
    pub fn new(capacity: usize) -> (d: StreamDecoder)
        ensures
            d@ == Seq::<u8>::empty(),
            d.spec_capacity() == capacity,
    {
        let mut buf: Vec<u8> = Vec::new();
        let mut i: usize = 0;
        while i < capacity
            invariant
                i <= capacity,
                buf@.len() == i,
            decreases capacity - i,
        {
            buf.push(0);
            i += 1;
        }
        let d = StreamDecoder { buf, write_offset: 0 };
        assert(d@ =~= Seq::<u8>::empty());
        d
    }

    /// The number of bytes the buffer has room for.
    pub fn capacity(&self) -> (n: usize)
        ensures
            n == self.spec_capacity(),
            self@.len() <= n,
    {
        proof {
            use_type_invariant(self);
        }
        self.buf.len()
    }

    /// The number of undecoded bytes held.
    pub fn pending(&self) -> (n: usize)
        ensures
            n == self@.len(),
            n <= self.spec_capacity(),
    {
        proof {
            use_type_invariant(self);
        }
        self.write_offset
    }

    /// Forgets the undecoded bytes, as at the start of a new connection.
    pub fn reset(&mut self)
        ensures
            final(self)@ == Seq::<u8>::empty(),
            final(self).spec_capacity() == old(self).spec_capacity(),
    {
        self.write_offset = 0;
        assert(self@ =~= Seq::<u8>::empty());
    }

    /// Takes in one piece of the stream and decodes what has become whole.
    ///
    /// As many bytes of `data` as the buffer has room for are put after the
    /// bytes already held. Whole commands are then taken off the front, in
    /// order, until what is left does not begin with one; what is left stays
    /// in the buffer, moved to its start.
    pub fn feed(&mut self, data: &[u8]) -> (out: FeedOutcome)
        ensures
            final(self).spec_capacity() == old(self).spec_capacity(),
            out.accepted == min_int(data@.len() as int, old(self).spec_capacity() - old(self)@.len()),
            out.commands@ == decode_stream(old(self)@ + data@.subrange(0, out.accepted as int)).0,
            final(self)@ == decode_stream(old(self)@ + data@.subrange(0, out.accepted as int)).1,
            out.status == status_of(final(self)@),
    {
        proof {
            use_type_invariant(&*self);
        }
        let capacity: usize = self.buf.len();
        let start: usize = self.write_offset;
        let room: usize = capacity - start;
        let accepted: usize = if data.len() <= room {
            data.len()
        } else {
            room
        };
        let ghost stream = old(self)@ + data@.subrange(0, accepted as int);
        // The piece goes in after the bytes already held.
        let ghost held = self.buf@;
        let mut i: usize = 0;
        while i < accepted
            invariant
                i <= accepted,
                accepted <= data@.len(),
                start + accepted <= capacity,
                self.buf@.len() == capacity,
                self.write_offset == start,
                held.len() == capacity,
                forall|j: int| 0 <= j < start ==> #[trigger] self.buf@[j] == held[j],
                forall|j: int| 0 <= j < i ==> self.buf@[start + j] == #[trigger] data@[j],
            decreases accepted - i,
        {
            self.buf[start + i] = data[i];
            i += 1;
        }
        let end: usize = start + accepted;
        assert(self.buf@.subrange(0, end as int) =~= stream) by {
            assert forall|j: int| 0 <= j < end implies self.buf@.subrange(0, end as int)[j]
                == #[trigger] stream[j] by {
                if j < start {
                    assert(self.buf@[j] == held[j]);
                } else {
                    assert(self.buf@[start + (j - start)] == data@[j - start]);
                }
            }
        }
        // Whole commands come off the front.
        let mut commands: Vec<Command> = Vec::new();
        let mut cursor: usize = 0;
        let mut status = StreamStatus::Drained;
        let mut done = false;
        assert(stream.skip(0) =~= stream);
        assert(commands@ + decode_stream(stream).0 =~= decode_stream(stream).0);
        while !done
            invariant
                cursor <= end <= capacity,
                self.buf@.len() == capacity,
                self.write_offset == start,
                self.buf@.subrange(0, end as int) == stream,
                decode_stream(stream).0 == commands@ + decode_stream(stream.skip(cursor as int)).0,
                decode_stream(stream).1 == decode_stream(stream.skip(cursor as int)).1,
                done ==> decode_stream(stream.skip(cursor as int)) == (
                    Seq::<Command>::empty(),
                    stream.skip(cursor as int),
                ) && status == status_of(stream.skip(cursor as int)),
            decreases end - cursor + if done { 0int } else { 1int },
        {
            let window = slice_subrange(self.buf.as_slice(), cursor, end);
            assert(window@ =~= stream.skip(cursor as int));
            match decode(window) {
                Decoded::Complete(c, n) => {
                    let ghost tail = decode_stream(stream.skip(cursor as int));
                    let ghost next = decode_stream(stream.skip(cursor as int).skip(n as int));
                    assert(tail.0 == seq![c] + next.0);
                    assert(stream.skip(cursor as int).skip(n as int) =~= stream.skip(cursor + n));
                    let ghost sofar = commands@;
                    commands.push(c);
                    assert(commands@ + next.0 =~= sofar + tail.0);
                    cursor = cursor + n;
                },
                Decoded::Incomplete => {
                    status = if cursor == end {
                        StreamStatus::Drained
                    } else {
                        StreamStatus::Incomplete
                    };
                    done = true;
                },
                Decoded::Malformed => {
                    status = StreamStatus::Malformed;
                    done = true;
                },
            }
        }
        // What is left moves to the start of the buffer.
        let left: usize = end - cursor;
        let ghost rest = stream.skip(cursor as int);
        let ghost filled = self.buf@;
        let mut k: usize = 0;
        while k < left
            invariant
                k <= left,
                left == end - cursor,
                cursor <= end <= capacity,
                start <= capacity,
                self.buf@.len() == capacity,
                self.write_offset == start,
                filled.len() == capacity,
                forall|j: int| 0 <= j < k ==> self.buf@[j] == filled[cursor + j],
                forall|j: int| k <= j < capacity ==> self.buf@[j] == filled[j],
            decreases left - k,
        {
            let b = self.buf[cursor + k];
            self.buf[k] = b;
            k += 1;
        }
        self.write_offset = left;
        assert(self@ =~= rest) by {
            assert forall|j: int| 0 <= j < left implies self@[j] == rest[j] by {
                assert(filled.subrange(0, end as int)[cursor + j] == stream[cursor + j]);
            }
        }
        FeedOutcome { commands, accepted, status }
    }
}

} // verus!
