//! Text operations that the matching of names and the reading of answers rest
//! on: case, white space, and whether one text stands in another. Where the
//! standard library does the work, this module says what comes back.

use vstd::prelude::*;

verus! {

/// Whether a character is white space, as `char::is_whitespace` decides it
/// (the Unicode property `White_Space`).
pub uninterp spec fn white_space(c: char) -> bool;

/// The lower-case form of a text, as `str::to_lowercase` gives it.
pub uninterp spec fn lowercase(s: Seq<char>) -> Seq<char>;

/// The upper-case form of a text, as `str::to_uppercase` gives it.
pub uninterp spec fn uppercase(s: Seq<char>) -> Seq<char>;

/// The text of an optional string, where there is one.
pub open spec fn text_of(s: Option<String>) -> Option<Seq<char>> {
    match s {
        Some(t) => Some(t@),
        None => None,
    }
}

/// A text without the white space it starts with.
pub open spec fn trimmed_start(s: Seq<char>) -> Seq<char>
    decreases s.len(),
{
    if s.len() > 0 && white_space(s.first()) {
        trimmed_start(s.drop_first())
    } else {
        s
    }
}

/// A text without the white space it ends with.
pub open spec fn trimmed_end(s: Seq<char>) -> Seq<char>
    decreases s.len(),
{
    if s.len() > 0 && white_space(s.last()) {
        trimmed_end(s.drop_last())
    } else {
        s
    }
}

/// A text without the white space at either end.
pub open spec fn trimmed(s: Seq<char>) -> Seq<char> {
    trimmed_end(trimmed_start(s))
}

/// `needle` stands in `text` from position `at` on.
pub open spec fn occurs_at(needle: Seq<char>, text: Seq<char>, at: int) -> bool {
    &&& 0 <= at
    &&& at + needle.len() <= text.len()
    &&& text.subrange(at, at + needle.len()) == needle
}

/// `needle` stands somewhere in `text`, as one unbroken piece.
pub open spec fn occurs_in(needle: Seq<char>, text: Seq<char>) -> bool {
    exists|at: int| occurs_at(needle, text, at)
}

/// The empty text stands in every text.
pub proof fn lemma_empty_occurs_everywhere(needle: Seq<char>, text: Seq<char>)
    requires
        needle.len() == 0,
    ensures
        occurs_in(needle, text),
{
    assert(text.subrange(0, 0) =~= needle);
    assert(occurs_at(needle, text, 0));
}

/// Calls `str::to_lowercase`. Trusted: the result is the lower-case form of
/// the argument, and the empty text stays empty.
#[verifier::external_body]
pub(crate) fn to_lowercase(s: &str) -> (r: String)
    ensures
        r@ == lowercase(s@),
        s@.len() == 0 ==> r@.len() == 0,
{
    s.to_lowercase()
}

/// Calls `str::to_uppercase`. Trusted: the result is the upper-case form of
/// the argument.
#[verifier::external_body]
pub(crate) fn to_uppercase(s: &str) -> (r: String)
    ensures
        r@ == uppercase(s@),
{
    s.to_uppercase()
}

/// Calls `char::is_whitespace`. Trusted: the answer is whether the character
/// has the property `White_Space`.
#[verifier::external_body]
pub(crate) fn is_whitespace(c: char) -> (white: bool)
    ensures
        white == white_space(c),
{
    c.is_whitespace()
}

/// Where the leading white space of `s` ends, there `trimmed_start` cuts.
pub proof fn lemma_trimmed_start(s: Seq<char>, from: int)
    requires
        0 <= from <= s.len(),
        forall|i: int| 0 <= i < from ==> white_space(#[trigger] s[i]),
        from < s.len() ==> !white_space(s[from]),
    ensures
        trimmed_start(s) == s.skip(from),
    decreases from,
{
    if from == 0 {
        assert(s.skip(0) =~= s);
    } else {
        assert(white_space(s[0]));
        let rest = s.drop_first();
        assert forall|i: int| 0 <= i < from - 1 implies white_space(#[trigger] rest[i]) by {
            assert(rest[i] == s[i + 1]);
        }
        lemma_trimmed_start(rest, from - 1);
        assert(rest.skip(from - 1) =~= s.skip(from));
    }
}

/// Where the trailing white space of `s` begins, there `trimmed_end` cuts.
pub proof fn lemma_trimmed_end(s: Seq<char>, to: int)
    requires
        0 <= to <= s.len(),
        forall|i: int| to <= i < s.len() ==> white_space(#[trigger] s[i]),
        0 < to ==> !white_space(s[to - 1]),
    ensures
        trimmed_end(s) == s.take(to),
    decreases s.len() - to,
{
    if to == s.len() {
        assert(s.take(to) =~= s);
    } else {
        assert(white_space(s[s.len() - 1]));
        let rest = s.drop_last();
        lemma_trimmed_end(rest, to);
        assert(rest.take(to) =~= s.take(to));
    }
}

/// The text without the white space at either end, as `str::trim` gives it.
pub(crate) fn trim<'a>(s: &'a str) -> (r: &'a str)
    ensures
        r@ == trimmed(s@),
{
    broadcast use vstd::string::group_string_axioms;

    let n: usize = s.unicode_len();
    let mut start: usize = 0;
    let mut end: usize = 0;
    let mut i: usize = 0;
    let chars = s.chars();
    for c in it: chars
        invariant
            it.seq() == s@,
            n == s@.len(),
            i == it.index(),
            start <= end <= i,
            forall|j: int| 0 <= j < start ==> white_space(#[trigger] s@[j]),
            forall|j: int| end <= j < i ==> white_space(#[trigger] s@[j]),
            start < end ==> !white_space(s@[start as int]) && !white_space(s@[end - 1]),
            start == end ==> end == i,
    {
        assert(i < n);
        if is_whitespace(c) {
            if start == end {
                start = i + 1;
                end = i + 1;
            }
        } else {
            if start == end {
                start = i;
            }
            end = i + 1;
        }
        i = i + 1;
    }
    proof {
        lemma_trimmed_start(s@, start as int);
        let rest = s@.skip(start as int);
        assert forall|j: int| end - start <= j < rest.len() implies white_space(
            #[trigger] rest[j],
        ) by {
            assert(rest[j] == s@[j + start]);
        }
        lemma_trimmed_end(rest, end - start);
        assert(rest.take(end - start) =~= s@.subrange(start as int, end as int));
    }
    s.substring_char(start, end)
}

/// Calls `str::contains` with a string as the pattern. Trusted: the answer is
/// whether the pattern stands in the text as a substring.
#[verifier::external_body]
pub(crate) fn contains(text: &str, needle: &str) -> (found: bool)
    ensures
        found == occurs_in(needle@, text@),
{
    text.contains(needle)
}

/// Whether a text is the one character `c` and nothing else.
pub(crate) fn is_single(s: &str, c: char) -> (same: bool)
    ensures
        same == (s@ == seq![c]),
{
    let n: usize = s.unicode_len();
    if n == 1 {
        let first: char = s.get_char(0);
        assert(first == c ==> s@ =~= seq![c]);
        assert(first != c ==> s@[0] != seq![c][0]);
        first == c
    } else {
        assert(seq![c].len() == 1);
        false
    }
}

} // verus!
