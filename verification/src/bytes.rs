//! Text as characters and as UTF-8 bytes, and comparisons on both.

use vstd::prelude::*;
use vstd::string::*;
use vstd::utf8::*;

verus! {

/// The views of a list of texts.
pub open spec fn texts(list: Seq<String>) -> Seq<Seq<char>> {
    Seq::new(list.len(), |i: int| list[i]@)
}

/// The view of an optional text.
pub open spec fn text_view(text: Option<String>) -> Option<Seq<char>> {
    match text {
        Some(t) => Some(t@),
        None => None,
    }
}

/// The characters of a text.
pub fn chars_of(text: &str) -> (chars: Vec<char>)
    ensures
        chars@ == text@,
{
    let n = text.unicode_len();
    let mut chars: Vec<char> = Vec::new();
    let mut i: usize = 0;
    while i < n
        invariant
            i <= n,
            n == text@.len(),
            chars@ == text@.take(i as int),
        decreases n - i,
    {
        chars.push(text.get_char(i));
        proof {
            assert(chars@ =~= text@.take(i + 1));
        }
        i += 1;
    }
    proof {
        assert(text@.take(n as int) =~= text@);
    }
    chars
}

/// Tests whether the characters `pat` stand in `hay` at offset `pos`.
pub fn has_chars_at(hay: &[char], pos: usize, pat: &[char]) -> (b: bool)
    requires
        pos <= hay.len(),
    ensures
        b == (pos + pat.len() <= hay.len() && hay@.subrange(pos as int, pos + pat.len()) == pat@),
{
    if pat.len() > hay.len() - pos {
        return false;
    }
    let mut i: usize = 0;
    while i < pat.len()
        invariant
            pos + pat.len() <= hay.len(),
            i <= pat.len(),
            forall|k: int| 0 <= k < i ==> hay@[pos + k] == pat@[k],
        decreases pat.len() - i,
    {
        if hay[pos + i] != pat[i] {
            proof {
                let sub = hay@.subrange(pos as int, pos + pat.len());
                assert(sub[i as int] == hay@[pos + i]);
            }
            return false;
        }
        i += 1;
    }
    proof {
        assert(hay@.subrange(pos as int, pos + pat.len()) =~= pat@);
    }
    true
}

/// Whether `pat` occurs in `hay` at offset `pos`.
pub open spec fn occurs_at(hay: Seq<u8>, pos: int, pat: Seq<u8>) -> bool {
    pos + pat.len() <= hay.len() && hay.subrange(pos, pos + pat.len()) == pat
}

/// Tests whether `pat` occurs in `hay` at offset `pos`.
pub fn has_at(hay: &[u8], pos: usize, pat: &[u8]) -> (b: bool)
    requires
        pos <= hay.len(),
    ensures
        b == occurs_at(hay@, pos as int, pat@),
{
    if pat.len() > hay.len() - pos {
        return false;
    }
    let mut i: usize = 0;
    while i < pat.len()
        invariant
            pos + pat.len() <= hay.len(),
            i <= pat.len(),
            forall|k: int| 0 <= k < i ==> hay@[pos + k] == pat@[k],
        decreases pat.len() - i,
    {
        if hay[pos + i] != pat[i] {
            proof {
                let sub = hay@.subrange(pos as int, pos + pat.len());
                assert(sub[i as int] == hay@[pos + i]);
            }
            return false;
        }
        i += 1;
    }
    proof {
        assert(hay@.subrange(pos as int, pos + pat.len()) =~= pat@);
    }
    true
}

/// Tests whether two pieces of text are the same text.
pub fn same_text(a: &str, b: &str) -> (r: bool)
    ensures
        r == (a@ == b@),
{
    let x = a.as_bytes();
    let y = b.as_bytes();
    proof {
        encode_utf8_decode_utf8(a@);
        encode_utf8_decode_utf8(b@);
    }
    if x.len() != y.len() {
        return false;
    }
    let r = has_at(x, 0, y);
    proof {
        assert(x@.subrange(0, x@.len() as int) =~= x@);
    }
    r
}

} // verus!
