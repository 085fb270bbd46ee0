//! What a client sends to show one picture.

use vstd::prelude::*;
use crate::codec::{encode, spec_encode};
use crate::command::Command;
use crate::stream_laws::encode_all;

verus! {

/// The command that sets pixel number `i` of a picture `width` pixels wide to
/// the colour `p`. Coordinates are cut down to their low eight bits.
pub open spec fn pixel_command(i: int, width: int, p: (u8, u8, u8)) -> Command {
    Command::SetPixel(((i % width) % 256) as u8, ((i / width) % 256) as u8, p.0, p.1, p.2)
}

/// The commands that show a picture given row by row: a `Clear` to black,
/// one `SetPixel` for each pixel in order, and a `Flush`.
pub fn frame_commands(width: u32, pixels: &[(u8, u8, u8)]) -> (out: Vec<Command>)
    requires
        width > 0,
        pixels@.len() <= u32::MAX,
    ensures
        out@.len() == pixels@.len() + 2,
        out@[0] == Command::Clear(0, 0, 0),
        forall|i: int| 0 <= i < pixels@.len() ==> out@[i + 1] == pixel_command(i, width as int, #[trigger] pixels@[i]),
        out@[pixels@.len() as int + 1] == Command::Flush,
{
    let mut out: Vec<Command> = Vec::new();
    out.push(Command::Clear(0, 0, 0));
    let mut i: usize = 0;
    while i < pixels.len()
        invariant
            i <= pixels@.len() <= u32::MAX,
            width > 0,
            out@.len() == i + 1,
            out@[0] == Command::Clear(0, 0, 0),
            forall|k: int| 0 <= k < i ==> out@[k + 1] == pixel_command(k, width as int, #[trigger] pixels@[k]),
        decreases pixels@.len() - i,
    {
        let x: u32 = (i as u32) % width;
        let y: u32 = (i as u32) / width;
        let p = pixels[i];
        out.push(Command::SetPixel((x % 256) as u8, (y % 256) as u8, p.0, p.1, p.2));
        i += 1;
    }
    out.push(Command::Flush);
    out
}

/// The bytes of a run of commands, one command after another.
pub fn encode_commands(commands: &[Command]) -> (out: Vec<u8>)
    ensures
        out@ == encode_all(commands@),
{
    let mut out: Vec<u8> = Vec::new();
    let mut i: usize = commands.len();
    assert(commands@.skip(i as int) =~= Seq::<Command>::empty());
    // The bytes are gathered from the last command to the first, each put in
    // front of what follows it.
    while i > 0
        invariant
            i <= commands@.len(),
            out@ == encode_all(commands@.skip(i as int)),
        decreases i,
    {
        i -= 1;
        let mut bytes = encode(commands[i]);
        assert(commands@.skip(i as int)[0] == commands@[i as int]);
        assert(commands@.skip(i as int).skip(1) =~= commands@.skip(i + 1));
        bytes.append(&mut out);
        out = bytes;
    }
    assert(commands@.skip(0) =~= commands@);
    out
}

} // verus!
