//! Texts and byte strings: ASCII bytes as characters, searching, comparing and
//! splitting, and the specification of `String::push`.

use vstd::prelude::*;
use vstd::string::StringSliceAdditionalSpecFns;
use vstd::utf8::{is_ascii_chars, is_ascii_chars_encode_utf8};

verus! {

/// `String::push` appends one character, as std documents it.
pub assume_specification[ String::push ](s: &mut String, ch: char)
    ensures
        final(s)@ == old(s)@.push(ch),
;

/// The characters that a sequence of ASCII bytes stands for: for each byte the
/// character with that number.
pub open spec fn spec_ascii(bytes: Seq<u8>) -> Seq<char> {
    Seq::new(bytes.len(), |i: int| bytes[i] as char)
}

/// Whether every byte is below 128.
pub open spec fn spec_all_ascii(bytes: Seq<u8>) -> bool {
    forall|i: int| 0 <= i < bytes.len() ==> #[trigger] bytes[i] < 128
}

/// A string whose characters are those of ASCII bytes is encoded as these bytes.
pub proof fn lemma_ascii_bytes(s: &str, bytes: Seq<u8>)
    requires
        s@ == spec_ascii(bytes),
        spec_all_ascii(bytes),
    ensures
        s.spec_bytes() == bytes,
{
    assert(is_ascii_chars(s@)) by {
        assert forall|i: int| 0 <= i < s@.len() implies '\0' <= #[trigger] s@[i] <= '\u{7f}' by {
            assert(bytes[i] < 128);
        }
    }
    is_ascii_chars_encode_utf8(s@);
    assert(s.spec_bytes() =~= bytes) by {
        assert forall|i: int| 0 <= i < bytes.len() implies s.spec_bytes()[i] == bytes[i] by {
            assert(bytes[i] < 128);
            assert(s@[i] == bytes[i] as char);
        }
    }
}

/// Appends one byte as the character with that number.
pub fn push_ascii(out: &mut String, b: u8)
    ensures
        final(out)@ == old(out)@ + spec_ascii(seq![b]),
{
    out.push(b as char);
    assert(spec_ascii(seq![b]) =~= seq![b as char]);
    assert(old(out)@.push(b as char) =~= old(out)@ + seq![b as char]);
}

/// Whether the byte `b` occurs in `s`.
pub open spec fn spec_has_byte(s: Seq<u8>, b: u8) -> bool {
    exists|i: int| 0 <= i < s.len() && s[i] == b
}

/// Whether the first occurrence of `b` in `s` is at index `i`.
pub open spec fn spec_is_first_byte(s: Seq<u8>, b: u8, i: int) -> bool {
    &&& 0 <= i < s.len()
    &&& s[i] == b
    &&& forall|j: int| 0 <= j < i ==> s[j] != b
}

/// The index of the first occurrence of `b` in `s`, where there is one.
pub open spec fn spec_first_byte(s: Seq<u8>, b: u8) -> int {
    choose|i: int| spec_is_first_byte(s, b, i)
}

/// The first occurrence of a byte is at one index only.
pub proof fn lemma_first_byte(s: Seq<u8>, b: u8, i: int)
    requires
        spec_is_first_byte(s, b, i),
    ensures
        spec_has_byte(s, b),
        spec_first_byte(s, b) == i,
{
    let c = spec_first_byte(s, b);
    assert(spec_is_first_byte(s, b, c));
}

/// The index of the first `b` in `text` from `from` on and before `to`, or `to`
/// where there is none.
pub fn find_byte(text: &[u8], b: u8, from: usize, to: usize) -> (at: usize)
    requires
        from <= to <= text@.len(),
    ensures
        from <= at <= to,
        at < to ==> spec_is_first_byte(text@.subrange(from as int, to as int), b, at - from),
        at == to ==> !spec_has_byte(text@.subrange(from as int, to as int), b),
{
    let mut at: usize = from;
    while at < to && text[at] != b
        invariant
            from <= at <= to <= text@.len(),
            forall|j: int| from <= j < at ==> text@[j] != b,
        decreases to - at,
    {
        at += 1;
    }
    proof {
        let part = text@.subrange(from as int, to as int);
        assert forall|j: int| 0 <= j < at - from implies part[j] != b by {
            assert(part[j] == text@[from + j]);
        }
        if at < to {
            assert(part[at - from] == text@[at as int]);
        }
    }
    at
}

/// Tells whether two byte strings are equal.
pub fn bytes_eq(a: &[u8], b: &[u8]) -> (equal: bool)
    ensures
        equal == (a@ == b@),
{
    if a.len() != b.len() {
        return false;
    }
    let mut i: usize = 0;
    while i < a.len()
        invariant
            i <= a@.len() == b@.len(),
            forall|j: int| 0 <= j < i ==> a@[j] == b@[j],
        decreases a@.len() - i,
    {
        if a[i] != b[i] {
            return false;
        }
        i += 1;
    }
    assert(a@ =~= b@);
    true
}

/// `text` without the occurrences of the character `unwanted`.
pub open spec fn spec_remove_char(text: Seq<char>, unwanted: char) -> Seq<char> {
    text.filter(spec_other_than(unwanted))
}

/// The test that a character is another one than `unwanted`.
pub open spec fn spec_other_than(unwanted: char) -> spec_fn(char) -> bool {
    |c: char| c != unwanted
}

/// Copies `text`, leaving out each occurrence of the character `unwanted`.
pub fn remove_char(text: &str, unwanted: char) -> (out: String)
    ensures
        out@ == spec_remove_char(text@, unwanted),
{
    broadcast use vstd::string::group_string_axioms;

    let ghost keep = spec_other_than(unwanted);
    let mut out = String::new();
    assert(Seq::<char>::empty().filter(keep) =~= Seq::<char>::empty()) by {
        reveal(Seq::filter);
    }
    for c in it: text.chars()
        invariant
            it.seq() == text@,
            out@ == it.seq().take(it.index()).filter(keep),
            keep == spec_other_than(unwanted),
    {
        proof {
            let seen = it.seq().take(it.index());
            let longer = it.seq().take(it.index() + 1);
            assert(longer.drop_last() =~= seen);
            assert(longer.last() == c);
            assert(longer.filter(keep) == if keep(c) {
                seen.filter(keep).push(c)
            } else {
                seen.filter(keep)
            }) by {
                reveal(Seq::filter);
            }
        }
        if c != unwanted {
            out.push(c);
        }
    }
    assert(text@.take(text@.len() as int) =~= text@);
    out
}

/// Tells whether two strings hold the same characters.
pub fn str_eq(a: &str, b: &str) -> (equal: bool)
    ensures
        equal == (a@ == b@),
{
    let equal = bytes_eq(a.as_bytes(), b.as_bytes());
    proof {
        vstd::utf8::encode_utf8_decode_utf8(a@);
        vstd::utf8::encode_utf8_decode_utf8(b@);
    }
    equal
}

/// The number of characters of `text` that `split_chars` puts in the first part:
/// `count`, or all of them where there are fewer.
pub open spec fn spec_head_len(text: Seq<char>, count: int) -> int {
    if count < text.len() {
        count
    } else {
        text.len() as int
    }
}

/// Splits `text` after its first `count` characters, or at its end where it has
/// fewer.
pub fn split_chars(text: &str, count: usize) -> (parts: (String, String))
    ensures
        parts.0@ == text@.take(spec_head_len(text@, count as int)),
        parts.1@ == text@.skip(spec_head_len(text@, count as int)),
{
    broadcast use vstd::string::group_string_axioms;

    let mut head = String::new();
    let mut tail = String::new();
    let mut taken: usize = 0;
    for c in it: text.chars()
        invariant
            it.seq() == text@,
            taken as int == spec_head_len(it.seq().take(it.index()), count as int),
            head@ == it.seq().take(it.index()).take(taken as int),
            tail@ == it.seq().take(it.index()).skip(taken as int),
    {
        proof {
            let seen = it.seq().take(it.index());
            let longer = it.seq().take(it.index() + 1);
            assert(longer =~= seen.push(c));
            if taken < count {
                assert(longer.take(taken + 1) =~= seen.take(taken as int).push(c));
                assert(longer.skip(taken + 1) =~= seen.skip(taken as int));
            } else {
                assert(longer.take(taken as int) =~= seen.take(taken as int));
                assert(longer.skip(taken as int) =~= seen.skip(taken as int).push(c));
            }
        }
        if taken < count {
            head.push(c);
            taken += 1;
        } else {
            tail.push(c);
        }
    }
    assert(text@.take(text@.len() as int) =~= text@);
    (head, tail)
}

} // verus!
