//! The key grammar: `cs:<producer>:<object>[:<instance-id>][:<function>]`.
//!
//! The grammar is stated over the characters of a key. Producer and object
//! names come from two allow-lists; the instance id and the function are
//! tokens of word characters: ASCII letters, digits and the underscore, and
//! beyond ASCII whatever the pattern class for word characters holds.

use vstd::prelude::*;
use vstd::string::*;
use crate::bytes::{chars_of, has_chars_at, texts};

verus! {

/// The character that separates the segments of a key.
pub const COLON: char = ':';

/// Whether a character beyond ASCII is a word character: a member of the
/// pattern class for word characters or of the one for digits.
pub uninterp spec fn unicode_word(c: char) -> bool;

/// An ASCII letter, a digit or the underscore.
pub open spec fn is_ascii_word(n: u32) -> bool {
    (48 <= n <= 57) || (65 <= n <= 90) || (97 <= n <= 122) || n == 95
}

/// A character that may stand in an instance id or a function name.
pub open spec fn is_word(c: char) -> bool {
    if (c as u32) < 128 {
        is_ascii_word(c as u32)
    } else {
        unicode_word(c)
    }
}

/// Matches the one character against the pattern `^[\w\d]$` with
/// `regex::Regex::new` and `Regex::is_match`. Trusted: the result says whether
/// the character belongs to the Unicode-aware classes for word characters
/// and digits, which depends on the character alone.
#[verifier::external_body]
fn in_word_class(c: char) -> (b: bool)
    ensures
        b == unicode_word(c),
{
    let mut buffer = [0u8; 4];
    let text: &str = c.encode_utf8(&mut buffer);
    match regex::Regex::new("^[\\w\\d]$") {
        Ok(class) => class.is_match(text),
        Err(_) => false,
    }
}

/// A non-empty run of word characters.
pub open spec fn is_token(s: Seq<char>) -> bool {
    s.len() > 0 && forall|i: int| 0 <= i < s.len() ==> is_word(#[trigger] s[i])
}

/// `t` is `:` token `:` token, the second colon standing at `k`.
pub open spec fn two_tokens(t: Seq<char>, k: int) -> bool {
    1 < k < t.len() && t[0] == COLON && t[k] == COLON && is_token(t.subrange(1, k)) && is_token(
        t.skip(k + 1),
    )
}

/// What may follow the object name: nothing, `:` token, or `:` token `:` token.
pub open spec fn is_suffix(t: Seq<char>) -> bool {
    t.len() == 0 || (t[0] == COLON && is_token(t.skip(1))) || exists|k: int| two_tokens(t, k)
}

/// The characters `cs:<producer>:<object>`.
pub open spec fn key_prefix(producer: Seq<char>, object: Seq<char>) -> Seq<char> {
    seq!['c', 's', COLON] + producer + seq![COLON] + object
}

/// `key` is `cs:<producer>:<object>` followed by a suffix, and by nothing else.
pub open spec fn matches_names(key: Seq<char>, producer: Seq<char>, object: Seq<char>) -> bool {
    let n = key_prefix(producer, object).len() as int;
    n <= key.len() && key.take(n) == key_prefix(producer, object) && is_suffix(key.skip(n))
}

/// `key` matches the grammar with producer `producers[i]` and object `objects[j]`.
pub open spec fn matches_at(
    producers: Seq<Seq<char>>,
    objects: Seq<Seq<char>>,
    key: Seq<char>,
    i: int,
    j: int,
) -> bool {
    0 <= i < producers.len() && 0 <= j < objects.len() && matches_names(
        key,
        producers[i],
        objects[j],
    )
}

/// The grammar itself: `key` matches with some producer and some object of the allow-lists.
pub open spec fn accepts(producers: Seq<Seq<char>>, objects: Seq<Seq<char>>, key: Seq<char>) -> bool {
    exists|i: int, j: int| matches_at(producers, objects, key, i, j)
}

/// A range of characters of a key: from `start` up to, not including, `end`.
#[derive(Clone, Copy, Debug, PartialEq, Eq, Structural)]
pub struct Span {
    pub start: usize,
    pub end: usize,
}

/// The optional fields of a key: where its instance id and its function stand.
#[derive(Clone, Copy, Debug, PartialEq, Eq)]
pub struct Tail {
    pub id: Option<Span>,
    pub function: Option<Span>,
}

/// A key taken apart: the producer and the object by their places in the
/// allow-lists, the instance id and the function by their places in the key.
#[derive(Clone, Copy, Debug, PartialEq, Eq)]
pub struct KeyMatch {
    pub producer: usize,
    pub object: usize,
    pub id: Option<Span>,
    pub function: Option<Span>,
}

/// `span` covers a token of `key` that a colon at `colon` introduces.
pub open spec fn token_after(key: Seq<char>, colon: int, span: Span) -> bool {
    0 <= colon < key.len() && key[colon] == COLON && span.start == colon + 1 && span.end
        <= key.len() && is_token(key.subrange(span.start as int, span.end as int))
}

/// `tail` describes what stands in `key` from `pos` on: a lone token is the
/// instance id, the second of two is the function.
pub open spec fn tail_at(key: Seq<char>, pos: int, tail: Tail) -> bool {
    match (tail.id, tail.function) {
        (None, None) => pos == key.len(),
        (Some(id), None) => token_after(key, pos, id) && id.end == key.len(),
        (Some(id), Some(function)) => token_after(key, pos, id) && token_after(
            key,
            id.end as int,
            function,
        ) && function.end == key.len(),
        (None, Some(_)) => false,
    }
}

/// Tests whether a character may stand in a token.
pub fn word_char(c: char) -> (r: bool)
    ensures
        r == is_word(c),
{
    let n = c as u32;
    if n < 128 {
        (48 <= n && n <= 57) || (65 <= n && n <= 90) || (97 <= n && n <= 122) || n == 95
    } else {
        in_word_class(c)
    }
}

/// The end of the longest run of word characters that starts at `from`.
fn token_end(key: &[char], from: usize) -> (end: usize)
    requires
        from <= key.len(),
    ensures
        from <= end <= key.len(),
        forall|i: int| from <= i < end ==> is_word(#[trigger] key@[i]),
        end < key.len() ==> !is_word(key@[end as int]),
{
    let mut end: usize = from;
    while end < key.len() && word_char(key[end])
        invariant
            from <= end <= key.len(),
            forall|i: int| from <= i < end ==> is_word(#[trigger] key@[i]),
        decreases key.len() - end,
    {
        end += 1;
    }
    end
}

/// Takes apart what stands in `key` from `pos` on: `None` where it is no
/// suffix of the grammar.
pub fn parse_suffix(key: &[char], pos: usize) -> (tail: Option<Tail>)
    requires
        pos <= key.len(),
    ensures
        tail is Some <==> is_suffix(key@.skip(pos as int)),
        tail matches Some(t) ==> tail_at(key@, pos as int, t),
{
    let ghost t = key@.skip(pos as int);
    if pos == key.len() {
        return Some(Tail { id: None, function: None });
    }
    if key[pos] != COLON {
        assert(t[0] == key@[pos as int]);
        return None;
    }
    let first = token_end(key, pos + 1);
    let ghost a = first - pos;
    assert forall|i: int| 1 <= i < a implies is_word(#[trigger] t[i]) by {
        assert(t[i] == key@[pos + i]);
    }
    if first == key.len() {
        if first == pos + 1 {
            assert(t.skip(1).len() == 0);
            assert(forall|k: int| !two_tokens(t, k));
            return None;
        }
        assert(is_token(t.skip(1))) by {
            assert forall|i: int| 0 <= i < t.skip(1).len() implies is_word(
                #[trigger] t.skip(1)[i],
            ) by {
                assert(t.skip(1)[i] == t[i + 1]);
            }
        }
        assert(key@.subrange(pos + 1, first as int) =~= t.skip(1));
        return Some(Tail { id: Some(Span { start: pos + 1, end: first }), function: None });
    }
    assert(t[a] == key@[first as int]);
    assert(!is_token(t.skip(1))) by {
        assert(t.skip(1)[a - 1] == t[a]);
    }
    // Only the character at `a` can be the second colon.
    assert forall|k: int| k != a implies !two_tokens(t, k) by {
        if 1 < k < a {
            assert(is_word(t[k]));
        } else if a < k < t.len() {
            assert(t.subrange(1, k)[a - 1] == t[a]);
        }
    }
    if first == pos + 1 || key[first] != COLON {
        assert(!two_tokens(t, a));
        return None;
    }
    let second = token_end(key, first + 1);
    let ghost rest = t.skip(a + 1);
    if second != key.len() {
        assert(rest[second - first - 1] == key@[second as int]);
        assert(!two_tokens(t, a));
        return None;
    }
    if second == first + 1 {
        assert(rest.len() == 0);
        assert(!two_tokens(t, a));
        return None;
    }
    assert(two_tokens(t, a)) by {
        assert forall|i: int| 0 <= i < t.subrange(1, a).len() implies is_word(
            #[trigger] t.subrange(1, a)[i],
        ) by {
            assert(t.subrange(1, a)[i] == t[i + 1]);
        }
        assert forall|i: int| 0 <= i < rest.len() implies is_word(#[trigger] rest[i]) by {
            assert(rest[i] == key@[first + 1 + i]);
        }
    }
    assert(key@.subrange(pos + 1, first as int) =~= t.subrange(1, a));
    assert(key@.subrange(first + 1, second as int) =~= rest);
    Some(
        Tail {
            id: Some(Span { start: pos + 1, end: first }),
            function: Some(Span { start: first + 1, end: second }),
        },
    )
}

/// Matches `key` against `cs:<producer>:<object>` followed by a suffix of
/// the grammar, and takes the suffix apart.
pub fn match_pair(key: &[char], producer: &[char], object: &[char]) -> (tail: Option<Tail>)
    ensures
        tail is Some <==> matches_names(key@, producer@, object@),
        tail matches Some(t) ==> tail_at(key@, key_prefix(producer@, object@).len() as int, t),
{
    let ghost pre = key_prefix(producer@, object@);
    let ghost n = pre.len() as int;
    let ghost pl = producer@.len() as int;
    proof {
        assert(pre[0] == 'c' && pre[1] == 's' && pre[2] == COLON);
        assert(pre[3 + pl] == COLON);
        assert(pre.subrange(3, 3 + pl) =~= producer@);
        assert(pre.subrange(4 + pl, n) =~= object@);
        if n <= key@.len() && key@.take(n) == pre {
            assert(key@[0] == key@.take(n)[0]);
            assert(key@[1] == key@.take(n)[1]);
            assert(key@[2] == key@.take(n)[2]);
            assert(key@[3 + pl] == key@.take(n)[3 + pl]);
            assert(key@.subrange(3, 3 + pl) =~= key@.take(n).subrange(
                3,
                3 + pl,
            ));
            assert(key@.subrange(4 + pl, n) =~= key@.take(n).subrange(
                4 + pl,
                n,
            ));
        }
    }
    if key.len() < 3 || key[0] != 'c' || key[1] != 's' || key[2] != COLON {
        return None;
    }
    if !has_chars_at(key, 3, producer) {
        return None;
    }
    let mid: usize = 3 + producer.len();
    if mid >= key.len() || key[mid] != COLON {
        return None;
    }
    if !has_chars_at(key, mid + 1, object) {
        return None;
    }
    let end: usize = mid + 1 + object.len();
    proof {
        assert(key@.take(n) =~= pre);
    }
    parse_suffix(key, end)
}

/// The allow-lists from which the key grammar is derived.
pub struct KeyGrammar {
    pub producers: Vec<String>,
    pub objects: Vec<String>,
}

impl KeyGrammar {
    /// The grammar over the given allow-lists.
    pub fn new(producers: Vec<String>, objects: Vec<String>) -> (g: KeyGrammar)
        ensures
            g.producers == producers,
            g.objects == objects,
    {
        KeyGrammar { producers, objects }
    }

    /// Whether the grammar accepts `key`.
    pub open spec fn accepts(&self, key: Seq<char>) -> bool {
        accepts(texts(self.producers@), texts(self.objects@), key)
    }

    /// `found` takes `key` apart: with the first producer and, for it, the
    /// first object of the allow-lists with which the key matches.
    pub open spec fn classified(&self, key: Seq<char>, found: KeyMatch) -> bool {
        let producers = texts(self.producers@);
        let objects = texts(self.objects@);
        &&& matches_at(producers, objects, key, found.producer as int, found.object as int)
        &&& tail_at(
            key,
            key_prefix(producers[found.producer as int], objects[found.object as int]).len() as int,
            Tail { id: found.id, function: found.function },
        )
        &&& forall|a: int, b: int|
            a < found.producer || (a == found.producer && b < found.object) ==> !matches_at(
                producers,
                objects,
                key,
                a,
                b,
            )
    }

    /// Takes `key` apart into producer, object, instance id and function:
    /// `None` where it does not match the grammar.
    pub fn classify(&self, key: &str) -> (found: Option<KeyMatch>)
        ensures
            found is Some <==> self.accepts(key@),
            found matches Some(m) ==> self.classified(key@, m),
    {
        let chars = chars_of(key);
        let ghost ps = texts(self.producers@);
        let ghost os = texts(self.objects@);
        let mut i: usize = 0;
        while i < self.producers.len()
            invariant
                i <= self.producers.len(),
                chars@ == key@,
                ps == texts(self.producers@),
                os == texts(self.objects@),
                forall|a: int, b: int| 0 <= a < i ==> !matches_at(ps, os, key@, a, b),
            decreases self.producers.len() - i,
        {
            let producer = chars_of(self.producers[i].as_str());
            let mut j: usize = 0;
            while j < self.objects.len()
                invariant
                    i < self.producers.len(),
                    j <= self.objects.len(),
                    chars@ == key@,
                    producer@ == self.producers[i as int]@,
                    ps == texts(self.producers@),
                    os == texts(self.objects@),
                    forall|a: int, b: int| 0 <= a < i ==> !matches_at(ps, os, key@, a, b),
                    forall|b: int| 0 <= b < j ==> !matches_at(ps, os, key@, i as int, b),
                decreases self.objects.len() - j,
            {
                let object = chars_of(self.objects[j].as_str());
                match match_pair(chars.as_slice(), producer.as_slice(), object.as_slice()) {
                    Some(tail) => {
                        assert(matches_at(ps, os, key@, i as int, j as int));
                        return Some(
                            KeyMatch { producer: i, object: j, id: tail.id, function: tail.function },
                        );
                    },
                    None => {},
                }
                j += 1;
            }
            i += 1;
        }
        None
    }

    /// Tests whether `key` matches the grammar: the whole of it, nothing left over.
    pub fn is_valid(&self, key: &str) -> (b: bool)
        ensures
            b == self.accepts(key@),
    {
        self.classify(key).is_some()
    }
}

} // verus!
