//! Line framing of the TCP protocols: a message is one line of text ended
//! by a line feed; carriage returns are ignored.

use vstd::prelude::*;
use crate::dns::{utf8_lossy, lossy_string};

verus! {

/// Takes one received byte into the line being read: a line feed ends the
/// line and is not kept, a carriage return is dropped, any other byte is
/// appended. Returns whether the line is complete.
pub fn take_line_byte(line: &mut Vec<u8>, b: u8) -> (done: bool)
    ensures
        done == (b == 10),
        final(line)@ == (if b == 10 || b == 13 { old(line)@ } else { old(line)@.push(b) }),
{
    if b == 10 {
        true
    } else {
        if b != 13 {
            line.push(b);
        }
        false
    }
}

/// The text of a received line: its bytes decoded as UTF-8, invalid
/// sequences replaced.
pub fn line_text(line: &[u8]) -> (s: String)
    ensures
        s@ == utf8_lossy(line@),
{
    lossy_string(line)
}

} // verus!
