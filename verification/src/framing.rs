//! The framing of a connection's byte stream: requests end with a newline.

use vstd::prelude::*;

verus! {

/// The byte that ends a request.
pub const NEWLINE: u8 = 10;

/// `line` is the first message of `stream` with its delimiter, `rest` what follows it.
pub open spec fn splits_stream(stream: Seq<u8>, line: Seq<u8>, rest: Seq<u8>) -> bool {
    line.len() > 0 && line.last() == NEWLINE && !line.drop_last().contains(NEWLINE) && stream
        == line + rest
}

/// Takes the first complete message out of the buffer, delimiter included.
/// Without a delimiter the buffer is left as it is, to be added to.
pub fn take_line(buffer: &mut Vec<u8>) -> (line: Option<Vec<u8>>)
    ensures
        line is None <==> !old(buffer)@.contains(NEWLINE),
        line is None ==> final(buffer)@ == old(buffer)@,
        line matches Some(l) ==> splits_stream(old(buffer)@, l@, final(buffer)@),
{
    let mut pos: usize = 0;
    while pos < buffer.len() && buffer[pos] != NEWLINE
        invariant
            pos <= buffer.len(),
            forall|k: int| 0 <= k < pos ==> buffer@[k] != NEWLINE,
        decreases buffer.len() - pos,
    {
        pos += 1;
    }
    if pos == buffer.len() {
        return None;
    }
    let rest = buffer.split_off(pos + 1);
    let mut line = Vec::new();
    line.append(buffer);
    *buffer = rest;
    proof {
        assert(old(buffer)@[pos as int] == NEWLINE);
        assert(old(buffer)@ =~= line@ + buffer@);
    }
    Some(line)
}

} // verus!
