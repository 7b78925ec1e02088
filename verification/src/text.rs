//! Operations on byte text: stripping, searching, splitting, and writing a
//! number in decimal.

use vstd::prelude::*;
use vstd::slice::slice_subrange;

verus! {

/// The number of bytes at the front of `s` that equal `a` or `b`.
pub open spec fn leading(s: Seq<u8>, a: u8, b: u8) -> nat
    decreases s.len(),
{
    if s.len() == 0 || !(s[0] == a || s[0] == b) {
        0
    } else {
        1 + leading(s.drop_first(), a, b)
    }
}

/// The number of bytes at the back of `s` that equal `a` or `b`.
pub open spec fn trailing(s: Seq<u8>, a: u8, b: u8) -> nat
    decreases s.len(),
{
    if s.len() == 0 || !(s.last() == a || s.last() == b) {
        0
    } else {
        1 + trailing(s.drop_last(), a, b)
    }
}

/// `s` without the bytes at its front and at its back that equal `a` or `b`.
pub open spec fn stripped(s: Seq<u8>, a: u8, b: u8) -> Seq<u8> {
    if leading(s, a, b) == s.len() {
        Seq::empty()
    } else {
        s.subrange(leading(s, a, b) as int, s.len() - trailing(s, a, b))
    }
}

/// Whether `pattern` stands in `s` at index `at`.
pub open spec fn matches_at(s: Seq<u8>, pattern: Seq<u8>, at: int) -> bool {
    0 <= at && at + pattern.len() <= s.len() && s.subrange(at, at + pattern.len()) == pattern
}

/// The least index not below `from` at which `pattern` stands in `s`.
pub open spec fn first_match(s: Seq<u8>, pattern: Seq<u8>, from: int) -> Option<int>
    decreases s.len() - from,
{
    if from < 0 || from + pattern.len() > s.len() {
        None
    } else if matches_at(s, pattern, from) {
        Some(from)
    } else if from < s.len() {
        first_match(s, pattern, from + 1)
    } else {
        None
    }
}

/// The pieces of `s` from index `from` on that lie between the occurrences
/// of `separator`, found from left to right without overlap. There is always
/// at least one piece, and a piece may be empty. An empty separator cuts
/// nowhere.
pub open spec fn split_from(s: Seq<u8>, separator: Seq<u8>, from: int) -> Seq<Seq<u8>>
    decreases s.len() - from,
{
    let found = first_match(s, separator, from);
    if found is Some && from <= found->0 && found->0 + separator.len() <= s.len()
        && separator.len() > 0 {
        seq![s.subrange(from, found->0)] + split_from(s, separator, found->0 + separator.len())
    } else {
        seq![s.subrange(from, s.len() as int)]
    }
}

/// The pieces of `s` between the occurrences of `separator`.
pub open spec fn split_spec(s: Seq<u8>, separator: Seq<u8>) -> Seq<Seq<u8>> {
    split_from(s, separator, 0)
}

/// The decimal digits of `n`, as ASCII, without leading zeros.
pub open spec fn decimal(n: nat) -> Seq<u8>
    decreases n,
{
    if n < 10 {
        seq![(48 + n) as u8]
    } else {
        decimal(n / 10).push((48 + n % 10) as u8)
    }
}

/// What `first_match` finds is an occurrence, and nothing occurs before it.
pub proof fn lemma_first_match(s: Seq<u8>, pattern: Seq<u8>, from: int)
    requires
        0 <= from,
    ensures
        match first_match(s, pattern, from) {
            Some(at) => from <= at && matches_at(s, pattern, at) && forall|j: int|
                from <= j < at ==> !matches_at(s, pattern, j),
            None => forall|j: int| from <= j ==> !matches_at(s, pattern, j),
        },
    decreases s.len() - from,
{
    if from + pattern.len() <= s.len() && !matches_at(s, pattern, from) {
        if from < s.len() {
            lemma_first_match(s, pattern, from + 1);
        } else {
            assert(s.subrange(from, from + pattern.len()) =~= pattern);
        }
    }
}

/// `bytes` without the bytes at its front and back that equal `a` or `b`.
pub fn strip(bytes: &[u8], a: u8, b: u8) -> (kept: &[u8])
    ensures
        kept@ == stripped(bytes@, a, b),
{
    let len: usize = bytes.len();
    let mut start: usize = 0;
    assert(bytes@.skip(0) =~= bytes@);
    while start < len && (bytes[start] == a || bytes[start] == b)
        invariant
            start <= len,
            len == bytes@.len(),
            leading(bytes@, a, b) == start + leading(bytes@.skip(start as int), a, b),
        decreases len - start,
    {
        assert(bytes@.skip(start as int).drop_first() =~= bytes@.skip(start as int + 1));
        start = start + 1;
    }
    if start == len {
        assert(bytes@.skip(start as int).len() == 0);
        return slice_subrange(bytes, 0, 0);
    }
    let mut end: usize = len;
    assert(bytes@.take(len as int) =~= bytes@);
    while end > start && (bytes[end - 1] == a || bytes[end - 1] == b)
        invariant
            start < end <= len,
            len == bytes@.len(),
            !(bytes@[start as int] == a || bytes@[start as int] == b),
            trailing(bytes@, a, b) == (len - end) + trailing(bytes@.take(end as int), a, b),
        decreases end,
    {
        assert(bytes@.take(end as int).drop_last() =~= bytes@.take(end as int - 1));
        end = end - 1;
    }
    slice_subrange(bytes, start, end)
}

/// `bytes` without the tabs and spaces at its front and back.
pub fn trim(bytes: &[u8]) -> (kept: &[u8])
    ensures
        kept@ == stripped(bytes@, 9, 32),
{
    strip(bytes, 9, 32)
}

/// Whether `pattern` stands in `text` at index `at`.
pub fn occurs_at(text: &[u8], pattern: &[u8], at: usize) -> (yes: bool)
    ensures
        yes == matches_at(text@, pattern@, at as int),
{
    if at > text.len() || pattern.len() > text.len() - at {
        return false;
    }
    let mut k: usize = 0;
    while k < pattern.len()
        invariant
            k <= pattern.len(),
            at + pattern.len() <= text.len(),
            forall|j: int| 0 <= j < k ==> text@[at + j] == pattern@[j],
        decreases pattern.len() - k,
    {
        if text[at + k] != pattern[k] {
            assert(text@.subrange(at as int, at + pattern@.len())[k as int] != pattern@[k as int]);
            return false;
        }
        k = k + 1;
    }
    assert(text@.subrange(at as int, at + pattern@.len()) =~= pattern@);
    true
}

/// The least index not below `from` at which `pattern` stands in `text`.
pub fn find(text: &[u8], pattern: &[u8], from: usize) -> (found: Option<usize>)
    ensures
        match found {
            Some(at) => first_match(text@, pattern@, from as int) == Some(at as int),
            None => first_match(text@, pattern@, from as int) is None,
        },
{
    if from > text.len() || pattern.len() > text.len() - from {
        return None;
    }
    let last: usize = text.len() - pattern.len();
    let mut at: usize = from;
    loop
        invariant
            from <= at <= last,
            last == text@.len() - pattern@.len(),
            first_match(text@, pattern@, at as int) == first_match(text@, pattern@, from as int),
        decreases last - at,
    {
        if occurs_at(text, pattern, at) {
            return Some(at);
        }
        if at == last {
            return None;
        }
        at = at + 1;
    }
}

/// The pieces of `text` between the occurrences of `separator`. With an
/// empty separator the text is the one piece.
pub fn split<'a>(text: &'a [u8], separator: &[u8]) -> (pieces: Vec<&'a [u8]>)
    ensures
        pieces@.len() == split_spec(text@, separator@).len(),
        forall|i: int|
            0 <= i < pieces@.len() ==> (#[trigger] pieces@[i])@ == split_spec(
                text@,
                separator@,
            )[i],
{
    let mut pieces: Vec<&'a [u8]> = Vec::new();
    let end: usize = text.len();
    if separator.len() == 0 {
        pieces.push(slice_subrange(text, 0, end));
        return pieces;
    }
    let mut start: usize = 0;
    let ghost mut done: Seq<Seq<u8>> = Seq::empty();
    loop
        invariant
            start <= end == text@.len(),
            separator@.len() > 0,
            pieces@.len() == done.len(),
            forall|i: int| 0 <= i < pieces@.len() ==> (#[trigger] pieces@[i])@ == done[i],
            done + split_from(text@, separator@, start as int) == split_spec(text@, separator@),
        decreases text@.len() - start,
    {
        proof {
            lemma_first_match(text@, separator@, start as int);
        }
        match find(text, separator, start) {
            Some(at) => {
                pieces.push(slice_subrange(text, start, at));
                proof {
                    let piece = text@.subrange(start as int, at as int);
                    let rest = split_from(text@, separator@, at + separator@.len());
                    assert(done.push(piece) + rest =~= done + (seq![piece] + rest));
                    done = done.push(piece);
                }
                start = at + separator.len();
            },
            None => {
                pieces.push(slice_subrange(text, start, end));
                proof {
                    let piece = text@.subrange(start as int, text@.len() as int);
                    assert(done.push(piece) =~= done + seq![piece]);
                }
                return pieces;
            },
        }
    }
}

/// Whether the two slices hold the same bytes.
pub fn same_bytes(left: &[u8], right: &[u8]) -> (same: bool)
    ensures
        same == (left@ == right@),
{
    if left.len() != right.len() {
        return false;
    }
    let same = occurs_at(left, right, 0);
    assert(left@.subrange(0, left@.len() as int) =~= left@);
    same
}

/// `n` in decimal digits.
pub fn to_decimal(n: usize) -> (digits: Vec<u8>)
    ensures
        digits@ == decimal(n as nat),
{
    let mut reversed: Vec<u8> = Vec::new();
    let mut rest: usize = n;
    let ghost mut tail: Seq<u8> = Seq::empty();
    while rest >= 10
        invariant
            decimal(n as nat) == decimal(rest as nat) + tail,
            reversed@.len() == tail.len(),
            forall|i: int| 0 <= i < tail.len() ==> reversed@[i] == tail[tail.len() - 1 - i],
        decreases rest,
    {
        let digit: u8 = (48 + rest % 10) as u8;
        proof {
            assert(decimal(rest as nat) == decimal((rest / 10) as nat).push(digit));
            assert(decimal((rest / 10) as nat).push(digit) + tail =~= decimal((rest / 10) as nat)
                + (seq![digit] + tail));
            tail = seq![digit] + tail;
        }
        reversed.push(digit);
        rest = rest / 10;
    }
    let first: u8 = (48 + rest) as u8;
    reversed.push(first);
    let ghost all: Seq<u8> = seq![first] + tail;
    assert(decimal(n as nat) =~= all);
    let count: usize = reversed.len();
    let mut digits: Vec<u8> = Vec::with_capacity(count);
    let mut i: usize = 0;
    while i < count
        invariant
            i <= count,
            count == reversed@.len(),
            count == all.len(),
            digits@.len() == i,
            forall|j: int| 0 <= j < count ==> reversed@[j] == all[count - 1 - j],
            forall|j: int| 0 <= j < i ==> digits@[j] == all[j],
        decreases count - i,
    {
        digits.push(reversed[count - 1 - i]);
        i = i + 1;
    }
    assert(digits@ =~= all);
    digits
}

} // verus!
