//! Cutting and comparing text, character by character.

use vstd::prelude::*;
use vstd::std_specs::iter::IteratorSpec;

verus! {

/// `i` is where the first `sep` of `s` stands.
pub open spec fn is_first_index(s: Seq<char>, sep: char, i: int) -> bool {
    &&& 0 <= i < s.len()
    &&& s[i] == sep
    &&& forall|j: int| 0 <= j < i ==> s[j] != sep
}

/// Where the first `sep` of `s` stands, if `s` holds one.
pub open spec fn first_index(s: Seq<char>, sep: char) -> Option<int> {
    if exists|i: int| is_first_index(s, sep, i) {
        Some(choose|i: int| is_first_index(s, sep, i))
    } else {
        None
    }
}

/// `s` cut at its first `sep`: what stands before it and what stands after
/// it, the `sep` itself dropped. `None` where `s` holds no `sep`.
pub open spec fn split_first(s: Seq<char>, sep: char) -> Option<(Seq<char>, Seq<char>)> {
    match first_index(s, sep) {
        Some(i) => Some((s.subrange(0, i), s.subrange(i + 1, s.len() as int))),
        None => None,
    }
}

/// `s` cut at every `sep`: the pieces between them, in order. There is one
/// piece more than `s` holds separators, so text without any is one piece,
/// and so is empty text.
pub open spec fn split_all(s: Seq<char>, sep: char) -> Seq<Seq<char>>
    decreases s.len(),
{
    match first_index(s, sep) {
        Some(i) => seq![s.subrange(0, i)] + split_all(s.subrange(i + 1, s.len() as int), sep),
        None => seq![s],
    }
}

/// `c`, made small where it is one of the capital letters `A` to `Z`.
pub open spec fn ascii_lower_char(c: char) -> char {
    if 'A' <= c <= 'Z' {
        ((c as u8) + 32) as char
    } else {
        c
    }
}

/// `s` with each of the capital letters `A` to `Z` made small.
pub open spec fn ascii_lower(s: Seq<char>) -> Seq<char> {
    Seq::new(s.len(), |i: int| ascii_lower_char(s[i]))
}

/// A sequence has at most one first `sep`, and `first_index` names it.
pub proof fn lemma_first_index_is(s: Seq<char>, sep: char, i: int)
    requires
        is_first_index(s, sep, i),
    ensures
        first_index(s, sep) == Some(i),
{
    let k = choose|k: int| is_first_index(s, sep, k);
    if k < i {
        assert(s[k] != sep);
    } else if i < k {
        assert(s[i] != sep);
    }
}

/// Somewhere at or before any `sep` of `s` stands its first one.
proof fn lemma_first_index_before(s: Seq<char>, sep: char, k: int)
    requires
        0 <= k < s.len(),
        s[k] == sep,
    ensures
        first_index(s, sep) is Some,
        first_index(s, sep)->Some_0 <= k,
    decreases k,
{
    if forall|j: int| 0 <= j < k ==> s[j] != sep {
        lemma_first_index_is(s, sep, k);
    } else {
        let j = choose|j: int| 0 <= j < k && s[j] == sep;
        lemma_first_index_before(s, sep, j);
    }
}

/// Text can be cut at `sep` exactly when it holds one.
pub proof fn lemma_split_first_some_iff_contains(s: Seq<char>, sep: char)
    ensures
        split_first(s, sep) is Some <==> s.contains(sep),
{
    if s.contains(sep) {
        let k = choose|k: int| 0 <= k < s.len() && s[k] == sep;
        lemma_first_index_before(s, sep, k);
    }
    if first_index(s, sep) is Some {
        let i = first_index(s, sep)->Some_0;
        assert(is_first_index(s, sep, i));
        assert(s[i] == sep);
    }
}

/// Cutting at the first `sep` loses nothing but that `sep`, and none is left
/// in what stood before it.
pub proof fn lemma_split_first_rejoins(s: Seq<char>, sep: char)
    requires
        split_first(s, sep) is Some,
    ensures
        ({
            let (head, tail) = split_first(s, sep)->Some_0;
            &&& s == head + seq![sep] + tail
            &&& !head.contains(sep)
        }),
{
    let i = first_index(s, sep)->Some_0;
    assert(is_first_index(s, sep, i));
    let (head, tail) = split_first(s, sep)->Some_0;
    assert(s =~= head + seq![sep] + tail);
}

/// Text put together from a head without `sep`, one `sep` and a tail is cut
/// back into that head and that tail.
pub proof fn lemma_split_first_of_joined(head: Seq<char>, sep: char, tail: Seq<char>)
    requires
        !head.contains(sep),
    ensures
        split_first(head + seq![sep] + tail, sep) == Some((head, tail)),
{
    let s = head + seq![sep] + tail;
    let i = head.len() as int;
    assert forall|j: int| 0 <= j < i implies s[j] != sep by {
        assert(s[j] == head[j]);
        assert(head.contains(head[j]));
    }
    assert(s[i] == sep);
    lemma_first_index_is(s, sep, i);
    assert(s.subrange(0, i) =~= head);
    assert(s.subrange(i + 1, s.len() as int) =~= tail);
}

/// The pieces put together again, with one `sep` between each two.
pub open spec fn joined(pieces: Seq<Seq<char>>, sep: char) -> Seq<char>
    decreases pieces.len(),
{
    if pieces.len() == 0 {
        Seq::empty()
    } else if pieces.len() == 1 {
        pieces[0]
    } else {
        pieces[0] + seq![sep] + joined(pieces.drop_first(), sep)
    }
}

/// Cutting at every `sep` loses nothing but the separators: there is at
/// least one piece, no piece holds a `sep`, and the pieces put together
/// again are the text that was cut.
pub proof fn lemma_split_all_rejoins(s: Seq<char>, sep: char)
    ensures
        split_all(s, sep).len() >= 1,
        forall|i: int| 0 <= i < split_all(s, sep).len() ==> !(#[trigger] split_all(s, sep)[i]).contains(sep),
        joined(split_all(s, sep), sep) == s,
    decreases s.len(),
{
    lemma_split_first_some_iff_contains(s, sep);
    match split_first(s, sep) {
        Some((head, tail)) => {
            lemma_split_first_rejoins(s, sep);
            lemma_split_all_rejoins(tail, sep);
            let pieces = split_all(s, sep);
            assert(pieces == seq![head] + split_all(tail, sep));
            assert(pieces.drop_first() =~= split_all(tail, sep));
            assert forall|i: int| 0 <= i < pieces.len() implies !(#[trigger] pieces[i]).contains(
                sep,
            ) by {
                if i > 0 {
                    assert(pieces[i] == split_all(tail, sep)[i - 1]);
                }
            }
        },
        None => {},
    }
}

/// Pieces that hold no `sep`, put together with one `sep` between each
/// two, are cut back into those pieces.
pub proof fn lemma_split_all_of_joined(pieces: Seq<Seq<char>>, sep: char)
    requires
        pieces.len() >= 1,
        forall|i: int| 0 <= i < pieces.len() ==> !(#[trigger] pieces[i]).contains(sep),
    ensures
        split_all(joined(pieces, sep), sep) == pieces,
    decreases pieces.len(),
{
    if pieces.len() == 1 {
        lemma_split_first_some_iff_contains(pieces[0], sep);
        assert(split_all(pieces[0], sep) =~= pieces);
    } else {
        let rest = pieces.drop_first();
        assert forall|i: int| 0 <= i < rest.len() implies !(#[trigger] rest[i]).contains(sep) by {
            assert(rest[i] == pieces[i + 1]);
        }
        lemma_split_all_of_joined(rest, sep);
        lemma_split_first_of_joined(pieces[0], sep, joined(rest, sep));
        assert(split_all(joined(pieces, sep), sep) =~= pieces);
    }
}

/// Cuts `string` at the first `pattern`.
pub fn split_at_str(string: &str, pattern: char) -> (parts: Option<(&str, &str)>)
    ensures
        match parts {
            Some((head, tail)) => split_first(string@, pattern) == Some((head@, tail@)),
            None => split_first(string@, pattern) is None,
        },
        parts is None <==> !string@.contains(pattern),
{
    proof {
        lemma_split_first_some_iff_contains(string@, pattern);
    }
    let n = string.unicode_len();
    let mut chars = string.chars();
    let mut i: usize = 0;
    loop
        invariant
            n == string@.len(),
            i <= n,
            chars.remaining() == string@.skip(i as int),
            forall|j: int| 0 <= j < i ==> string@[j] != pattern,
        decreases n - i,
    {
        match chars.next() {
            Some(c) => {
                if c == pattern {
                    proof {
                        lemma_first_index_is(string@, pattern, i as int);
                    }
                    return Some((string.substring_char(0, i), string.substring_char(i + 1, n)));
                }
                i = i + 1;
            },
            None => {
                return None;
            },
        }
    }
}

/// Whether `a` and `b` hold the same characters.
pub fn str_eq(a: &str, b: &str) -> (same: bool)
    ensures
        same == (a@ == b@),
{
    let x = a.as_bytes();
    let y = b.as_bytes();
    proof {
        // Text is told apart by its bytes: decoding gives the characters back.
        vstd::utf8::encode_utf8_decode_utf8(a@);
        vstd::utf8::encode_utf8_decode_utf8(b@);
    }
    if x.len() != y.len() {
        return false;
    }
    let mut i: usize = 0;
    while i < x.len()
        invariant
            x@.len() == y@.len(),
            i <= x@.len(),
            x@.take(i as int) == y@.take(i as int),
            x@ == y@ <==> a@ == b@,
        decreases x@.len() - i,
    {
        if x[i] != y[i] {
            assert(x@[i as int] != y@[i as int]);
            return false;
        }
        assert(x@.take(i + 1) == x@.take(i as int).push(x@[i as int]));
        assert(y@.take(i + 1) == y@.take(i as int).push(y@[i as int]));
        i = i + 1;
    }
    assert(x@ == x@.take(i as int));
    assert(y@ == y@.take(i as int));
    true
}

} // verus!
