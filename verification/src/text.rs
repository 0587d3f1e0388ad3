//! Character-level helpers shared by the rest of the crate.
//!
//! Strings are modelled by their view, a `Seq<char>`.  Every executable
//! function here reads a `&str` once into a vector of characters, works on
//! indices into that vector, and hands back a slice of the input.

use vstd::prelude::*;
use vstd::string::StrSliceExecFns;

verus! {

/// `c` is one of the ASCII digits `0` to `9`.
pub open spec fn is_digit(c: char) -> bool {
    '0' <= c && c <= '9'
}

/// Every character of `s` is an ASCII digit.  The empty sequence qualifies.
pub open spec fn all_digits(s: Seq<char>) -> bool {
    forall|i: int| 0 <= i < s.len() ==> is_digit(#[trigger] s[i])
}

/// `pat` occurs in `s` at index `i`.
pub open spec fn occurs_at(s: Seq<char>, pat: Seq<char>, i: int) -> bool {
    0 <= i && i + pat.len() <= s.len() && s.subrange(i, i + pat.len()) == pat
}

/// `pat` occurs somewhere in `s`.
pub open spec fn contains_pattern(s: Seq<char>, pat: Seq<char>) -> bool {
    exists|i: int| occurs_at(s, pat, i)
}

/// The index of the first occurrence of `pat` in `s`, or `s.len()` when
/// there is none.
pub open spec fn first_occurrence(s: Seq<char>, pat: Seq<char>) -> int
    decreases s.len(),
{
    if occurs_at(s, pat, 0) {
        0
    } else if s.len() == 0 {
        0
    } else {
        1 + first_occurrence(s.drop_first(), pat)
    }
}

/// The index of the first `c` in `s`, or `s.len()` when `s` holds no `c`.
pub open spec fn first_index(s: Seq<char>, c: char) -> int {
    first_occurrence(s, seq![c])
}

/// Whether a character counts as white space: the answer of
/// `char::is_whitespace`, which goes by the Unicode property `White_Space`.
pub uninterp spec fn is_white_space(c: char) -> bool;

/// `char::is_whitespace` of the standard library.  The answer depends on
/// the character alone, and it is yes for the blank and for the line feed,
/// the two that the documentation of the function shows.  Of no other
/// character is anything claimed.
pub assume_specification[ char::is_whitespace ](c: char) -> (b: bool)
    ensures
        b == is_white_space(c),
        c == ' ' || c == '\n' ==> b,
;

/// `s` without its leading white space.
pub open spec fn trim_start(s: Seq<char>) -> Seq<char>
    decreases s.len(),
{
    if s.len() > 0 && is_white_space(s.first()) {
        trim_start(s.drop_first())
    } else {
        s
    }
}

/// `s` without its trailing white space.
pub open spec fn trim_end(s: Seq<char>) -> Seq<char>
    decreases s.len(),
{
    if s.len() > 0 && is_white_space(s.last()) {
        trim_end(s.drop_last())
    } else {
        s
    }
}

/// `s` without its leading and trailing white space.
pub open spec fn trimmed(s: Seq<char>) -> Seq<char> {
    trim_end(trim_start(s))
}

/// The pieces of `s` between line feeds.  A sequence without a line feed is
/// a single line, so the result is never empty.
pub open spec fn lines(s: Seq<char>) -> Seq<Seq<char>>
    decreases s.len(),
{
    let i = first_index(s, '\n');
    if 0 <= i < s.len() {
        seq![s.take(i)] + lines(s.skip(i + 1))
    } else {
        seq![s]
    }
}

/// The first occurrence lies within the sequence, and nothing occurs before
/// it.  Either the pattern occurs there, or it occurs nowhere and the first
/// occurrence is `s.len()`.
pub proof fn lemma_first_occurrence(s: Seq<char>, pat: Seq<char>)
    ensures
        0 <= first_occurrence(s, pat) <= s.len(),
        forall|j: int| 0 <= j < first_occurrence(s, pat) ==> !occurs_at(s, pat, j),
        occurs_at(s, pat, first_occurrence(s, pat)) || (first_occurrence(s, pat) == s.len()
            && !contains_pattern(s, pat)),
    decreases s.len(),
{
    if occurs_at(s, pat, 0) {
    } else if s.len() == 0 {
        assert forall|i: int| !occurs_at(s, pat, i) by {
            if occurs_at(s, pat, i) {
                assert(i == 0);
            }
        }
    } else {
        let t = s.drop_first();
        lemma_first_occurrence(t, pat);
        let r = first_occurrence(t, pat);
        assert forall|j: int| occurs_at(s, pat, j + 1) == occurs_at(t, pat, j) by {
            if 0 <= j && j + pat.len() <= t.len() {
                assert(t.subrange(j, j + pat.len()) =~= s.subrange(j + 1, j + 1 + pat.len()));
            }
        }
        assert forall|j: int| 0 <= j < r + 1 implies !occurs_at(s, pat, j) by {
            if j > 0 {
                assert(occurs_at(s, pat, (j - 1) + 1) == occurs_at(t, pat, j - 1));
            }
        }
        if !occurs_at(t, pat, r) {
            assert forall|i: int| !occurs_at(s, pat, i) by {
                if occurs_at(s, pat, i) {
                    assert(i != 0);
                    assert(occurs_at(s, pat, (i - 1) + 1) == occurs_at(t, pat, i - 1));
                    assert(occurs_at(t, pat, i - 1));
                }
            }
        } else {
            assert(occurs_at(s, pat, r + 1) == occurs_at(t, pat, r));
        }
    }
}

/// An occurrence with none before it is the first occurrence.
pub proof fn lemma_first_occurrence_is(s: Seq<char>, pat: Seq<char>, i: int)
    requires
        occurs_at(s, pat, i),
        forall|j: int| 0 <= j < i ==> !occurs_at(s, pat, j),
    ensures
        first_occurrence(s, pat) == i,
{
    lemma_first_occurrence(s, pat);
    let r = first_occurrence(s, pat);
    if r < i {
        assert(!occurs_at(s, pat, r));
        assert(contains_pattern(s, pat));
    } else if r > i {
        assert(!occurs_at(s, pat, i));
    }
}

/// What `first_index` means without the detour through patterns.
pub proof fn lemma_first_index(s: Seq<char>, c: char)
    ensures
        0 <= first_index(s, c) <= s.len(),
        forall|j: int| 0 <= j < first_index(s, c) ==> s[j] != c,
        first_index(s, c) < s.len() ==> s[first_index(s, c)] == c,
{
    let pat = seq![c];
    lemma_first_occurrence(s, pat);
    let r = first_index(s, c);
    assert forall|j: int| 0 <= j < s.len() implies (occurs_at(s, pat, j) <==> s[j] == c) by {
        if s[j] == c {
            assert(s.subrange(j, j + 1) =~= pat);
        } else {
            assert(s.subrange(j, j + 1)[0] == s[j]);
            assert(pat[0] == c);
        }
    }
    if r < s.len() {
        assert(occurs_at(s, pat, r));
    }
}

/// The first `c` is where `c` stands with no `c` before it.
pub proof fn lemma_first_index_is(s: Seq<char>, c: char, i: int)
    requires
        0 <= i <= s.len(),
        forall|j: int| 0 <= j < i ==> s[j] != c,
        i < s.len() ==> s[i] == c,
    ensures
        first_index(s, c) == i,
{
    lemma_first_index(s, c);
    let r = first_index(s, c);
    if r < i {
        assert(s[r] == c);
    } else if r > i {
        assert(s[i] != c);
    }
}

/// Blank and line feed are white space.  Calling this makes the two facts
/// known where a proof needs them, such as that the line feed at the end of
/// what git prints is trimmed away.
pub fn blank_and_line_feed()
    ensures
        is_white_space(' '),
        is_white_space('\n'),
{
    let _blank = ' '.is_whitespace();
    let _line_feed = '\n'.is_whitespace();
}

/// The characters of a string, in order.
pub fn chars_of(s: &str) -> (cs: Vec<char>)
    ensures
        cs@ == s@,
{
    let mut cs: Vec<char> = Vec::new();
    for c in it: s.chars()
        invariant
            it.seq() == s@,
            cs@ == it.seq().take(it.index() as int),
    {
        cs.push(c);
    }
    cs
}

/// Whether two strings hold the same characters.
pub fn same_text(a: &str, b: &str) -> (same: bool)
    ensures
        same == (a@ == b@),
{
    let x = chars_of(a);
    let y = chars_of(b);
    if x.len() != y.len() {
        return false;
    }
    let mut i: usize = 0;
    while i < x.len()
        invariant
            x@ == a@,
            y@ == b@,
            x.len() == y.len(),
            i <= x.len(),
            forall|j: int| 0 <= j < i ==> x@[j] == y@[j],
        decreases x.len() - i,
    {
        if x[i] != y[i] {
            return false;
        }
        i += 1;
    }
    assert(x@ =~= y@);
    true
}

/// Whether a string is made of ASCII digits only.
pub fn only_digits(s: &str) -> (b: bool)
    ensures
        b == all_digits(s@),
{
    let cs = chars_of(s);
    let mut i: usize = 0;
    while i < cs.len()
        invariant
            cs@ == s@,
            i <= cs.len(),
            forall|j: int| 0 <= j < i ==> is_digit(#[trigger] cs@[j]),
        decreases cs.len() - i,
    {
        let c = cs[i];
        if !(c >= '0' && c <= '9') {
            return false;
        }
        i += 1;
    }
    true
}

/// Whether `pat` stands in `cs` at index `at`.
pub fn matches_at(cs: &Vec<char>, pat: &Vec<char>, at: usize) -> (b: bool)
    ensures
        b == occurs_at(cs@, pat@, at as int),
{
    if pat.len() > cs.len() || at > cs.len() - pat.len() {
        return false;
    }
    let mut k: usize = 0;
    while k < pat.len()
        invariant
            at + pat.len() <= cs.len(),
            k <= pat.len(),
            forall|j: int| 0 <= j < k ==> cs@[at + j] == pat@[j],
        decreases pat.len() - k,
    {
        if cs[at + k] != pat[k] {
            assert(cs@.subrange(at as int, at + pat.len())[k as int] == cs@[at + k]);
            return false;
        }
        k += 1;
    }
    assert(cs@.subrange(at as int, at + pat.len()) =~= pat@);
    true
}

/// The index of the first occurrence of `pat` in `cs`, or `cs.len()`.
pub fn find(cs: &Vec<char>, pat: &Vec<char>) -> (at: usize)
    ensures
        at == first_occurrence(cs@, pat@),
{
    let mut i: usize = 0;
    while i < cs.len()
        invariant
            i <= cs.len(),
            forall|j: int| 0 <= j < i ==> !occurs_at(cs@, pat@, j),
        decreases cs.len() - i,
    {
        if matches_at(cs, pat, i) {
            proof {
                lemma_first_occurrence_is(cs@, pat@, i as int);
            }
            return i;
        }
        i += 1;
    }
    proof {
        lemma_first_occurrence(cs@, pat@);
    }
    i
}

/// A string without its leading and trailing white space.
pub fn trim<'a>(s: &'a str) -> (t: &'a str)
    ensures
        t@ == trimmed(s@),
{
    let cs = chars_of(s);
    let mut from: usize = 0;
    assert(cs@.skip(0) =~= cs@);
    while from < cs.len() && cs[from].is_whitespace()
        invariant
            from <= cs.len(),
            trim_start(cs@) == trim_start(cs@.skip(from as int)),
        decreases cs.len() - from,
    {
        assert(cs@.skip(from as int).drop_first() =~= cs@.skip(from + 1));
        from += 1;
    }
    let ghost rest = cs@.skip(from as int);
    assert(trim_start(cs@) == rest);
    let mut to: usize = cs.len();
    while to > from && cs[to - 1].is_whitespace()
        invariant
            from <= to <= cs.len(),
            rest == cs@.skip(from as int),
            trim_end(rest) == trim_end(cs@.subrange(from as int, to as int)),
        decreases to,
    {
        assert(cs@.subrange(from as int, to as int).drop_last() =~= cs@.subrange(
            from as int,
            to - 1,
        ));
        to -= 1;
    }
    assert(cs@.subrange(from as int, cs.len() as int) =~= rest);
    s.substring_char(from, to)
}

/// The lines of a string: its pieces between line feeds.
pub fn split_lines<'a>(s: &'a str) -> (out: Vec<&'a str>)
    ensures
        out@.len() == lines(s@).len(),
        forall|k: int| 0 <= k < out@.len() ==> (#[trigger] out@[k])@ == lines(s@)[k],
{
    let cs = chars_of(s);
    let mut out: Vec<&'a str> = Vec::new();
    let mut start: usize = 0;
    let mut i: usize = 0;
    let ghost mut done: Seq<Seq<char>> = Seq::empty();
    assert(cs@.skip(0) =~= cs@);
    assert(done + lines(cs@) =~= lines(cs@));
    while i < cs.len()
        invariant
            cs@ == s@,
            start <= i <= cs.len(),
            forall|j: int| start <= j < i ==> cs@[j] != '\n',
            out@.len() == done.len(),
            forall|k: int| 0 <= k < out@.len() ==> (#[trigger] out@[k])@ == done[k],
            lines(cs@) == done + lines(cs@.skip(start as int)),
        decreases cs.len() - i,
    {
        if cs[i] == '\n' {
            let piece = s.substring_char(start, i);
            proof {
                let rest = cs@.skip(start as int);
                lemma_first_index_is(rest, '\n', i - start);
                assert(rest.take(i - start) =~= cs@.subrange(start as int, i as int));
                assert(rest.skip(i - start + 1) =~= cs@.skip(i + 1));
                assert(done + (seq![piece@] + lines(cs@.skip(i + 1))) =~= done.push(piece@)
                    + lines(cs@.skip(i + 1)));
                done = done.push(piece@);
            }
            out.push(piece);
            start = i + 1;
        }
        i += 1;
    }
    let piece = s.substring_char(start, cs.len());
    proof {
        let rest = cs@.skip(start as int);
        lemma_first_index_is(rest, '\n', rest.len() as int);
        assert(piece@ =~= rest);
        assert(done + seq![rest] =~= done.push(rest));
        done = done.push(rest);
    }
    out.push(piece);
    out
}

} // verus!
