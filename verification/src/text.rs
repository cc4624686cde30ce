//! Character-level text utilities shared by the parsers: conversion between
//! strings and character vectors, searching, trimming and line splitting.

use vstd::prelude::*;
use vstd::std_specs::iter::IteratorSpec;

verus! {

/// `String::push` appends one character.
pub assume_specification[ String::push ](s: &mut String, c: char)
    ensures
        final(s)@ == old(s)@.push(c),
;

/// Whether `c` is white space in the Unicode sense (the `White_Space`
/// property), which is what trimming removes.
pub open spec fn is_space(c: char) -> bool {
    let n = c as u32;
    (0x09 <= n <= 0x0D) || n == 0x20 || n == 0x85 || n == 0xA0 || n == 0x1680 || (0x2000 <= n
        <= 0x200A) || n == 0x2028 || n == 0x2029 || n == 0x202F || n == 0x205F || n == 0x3000
}

/// The first index at or after `from` at which `s` holds `c`, or the length
/// of `s` when there is none.
pub open spec fn next_index(s: Seq<char>, c: char, from: int) -> int
    decreases s.len() - from,
{
    if from < 0 || from >= s.len() {
        s.len() as int
    } else if s[from] == c {
        from
    } else {
        next_index(s, c, from + 1)
    }
}

/// The first index at or after `i` that holds no white space.
pub open spec fn skip_spaces(s: Seq<char>, i: int) -> int
    decreases s.len() - i,
{
    if 0 <= i < s.len() && is_space(s[i]) {
        skip_spaces(s, i + 1)
    } else {
        i
    }
}

/// The end of the text before `j` once trailing white space is removed,
/// never going below `lo`.
pub open spec fn skip_spaces_back(s: Seq<char>, lo: int, j: int) -> int
    decreases j,
{
    if 0 <= lo < j <= s.len() && is_space(s[j - 1]) {
        skip_spaces_back(s, lo, j - 1)
    } else {
        j
    }
}

/// `s` without its leading and trailing white space.
pub open spec fn trimmed(s: Seq<char>) -> Seq<char> {
    let lo = skip_spaces(s, 0);
    let hi = skip_spaces_back(s, lo, s.len() as int);
    s.subrange(lo, hi)
}

/// The line that ends at the line feed at `end` (or at the end of the text)
/// and starts at `start`: a carriage return directly before the line feed
/// belongs to the terminator.
pub open spec fn line_between(s: Seq<char>, start: int, end: int) -> Seq<char> {
    if end < s.len() && start < end && s[end - 1] == '\r' {
        s.subrange(start, end - 1)
    } else {
        s.subrange(start, end)
    }
}

/// The lines of `s` from position `start` on. Lines end at a line feed or at
/// a carriage return followed by a line feed; the terminators are left out,
/// and text after the last terminator is a line only if it is not empty.
pub open spec fn lines_from(s: Seq<char>, start: int) -> Seq<Seq<char>>
    decreases s.len() + 1 - start,
{
    if start < 0 || start >= s.len() {
        Seq::empty()
    } else {
        let end = next_index(s, '\n', start);
        proof {
            lemma_next_index_bounds(s, '\n', start);
        }
        seq![line_between(s, start, end)] + lines_from(s, end + 1)
    }
}

/// The lines of `s`.
pub open spec fn lines_of(s: Seq<char>) -> Seq<Seq<char>> {
    lines_from(s, 0)
}

pub proof fn lemma_next_index_bounds(s: Seq<char>, c: char, from: int)
    requires
        0 <= from <= s.len(),
    ensures
        from <= next_index(s, c, from) <= s.len(),
        next_index(s, c, from) < s.len() ==> s[next_index(s, c, from)] == c,
        forall|i: int| from <= i < next_index(s, c, from) ==> s[i] != c,
    decreases s.len() - from,
{
    if from < s.len() && s[from] != c {
        lemma_next_index_bounds(s, c, from + 1);
    }
}

/// The characters of `s`, in order.
pub fn chars_of(s: &str) -> (out: Vec<char>)
    ensures
        out@ == s@,
{
    let mut out: Vec<char> = Vec::new();
    for c in it: s.chars()
        invariant
            out@.len() == it.index(),
            it.seq() == s@,
            forall|i: int| 0 <= i < out@.len() ==> out@[i] == it.seq()[i],
    {
        out.push(c);
    }
    assert(out@ =~= s@);
    out
}

/// The string made of the characters of `chars`.
pub fn string_of(chars: &Vec<char>) -> (out: String)
    ensures
        out@ == chars@,
{
    let mut out = String::new();
    let mut i: usize = 0;
    while i < chars.len()
        invariant
            i <= chars@.len(),
            out@ == chars@.take(i as int),
        decreases chars@.len() - i,
    {
        out.push(chars[i]);
        i += 1;
        assert(chars@.take(i as int) =~= chars@.take(i - 1).push(chars@[i - 1]));
    }
    assert(chars@.take(i as int) =~= chars@);
    out
}

/// A copy of `chars[from..to]`.
pub fn slice_of(chars: &Vec<char>, from: usize, to: usize) -> (out: Vec<char>)
    requires
        from <= to <= chars@.len(),
    ensures
        out@ == chars@.subrange(from as int, to as int),
{
    let mut out: Vec<char> = Vec::new();
    let mut i: usize = from;
    while i < to
        invariant
            from <= i <= to <= chars@.len(),
            out@ == chars@.subrange(from as int, i as int),
        decreases to - i,
    {
        out.push(chars[i]);
        i += 1;
        assert(chars@.subrange(from as int, i as int) =~= chars@.subrange(from as int, i - 1).push(
            chars@[i - 1],
        ));
    }
    out
}

/// Whether `c` is white space.
pub fn is_whitespace(c: char) -> (b: bool)
    ensures
        b == is_space(c),
{
    let n: u32 = c as u32;
    (0x09 <= n && n <= 0x0D) || n == 0x20 || n == 0x85 || n == 0xA0 || n == 0x1680 || (0x2000 <= n
        && n <= 0x200A) || n == 0x2028 || n == 0x2029 || n == 0x202F || n == 0x205F || n == 0x3000
}

/// The position of the first `c` in `chars` at or after `from`, or the
/// length of `chars`.
pub fn find_from(chars: &Vec<char>, c: char, from: usize) -> (at: usize)
    requires
        from <= chars@.len(),
    ensures
        at == next_index(chars@, c, from as int),
        from <= at <= chars@.len(),
        at < chars@.len() ==> chars@[at as int] == c,
        forall|i: int| from <= i < at ==> chars@[i] != c,
{
    let mut i: usize = from;
    while i < chars.len() && chars[i] != c
        invariant
            from <= i <= chars@.len(),
            next_index(chars@, c, i as int) == next_index(chars@, c, from as int),
        decreases chars@.len() - i,
    {
        i += 1;
    }
    proof {
        lemma_next_index_bounds(chars@, c, from as int);
    }
    i
}

/// `chars` without its leading and trailing white space.
pub fn trim(chars: &Vec<char>) -> (out: Vec<char>)
    ensures
        out@ == trimmed(chars@),
{
    let mut lo: usize = 0;
    while lo < chars.len() && is_whitespace(chars[lo])
        invariant
            lo <= chars@.len(),
            skip_spaces(chars@, lo as int) == skip_spaces(chars@, 0),
        decreases chars@.len() - lo,
    {
        lo += 1;
    }
    let mut hi: usize = chars.len();
    while lo < hi && is_whitespace(chars[hi - 1])
        invariant
            lo <= hi <= chars@.len(),
            skip_spaces_back(chars@, lo as int, hi as int) == skip_spaces_back(
                chars@,
                lo as int,
                chars@.len() as int,
            ),
        decreases hi,
    {
        hi -= 1;
    }
    slice_of(chars, lo, hi)
}

/// The lines of `chars`.
pub fn split_lines(chars: &Vec<char>) -> (out: Vec<Vec<char>>)
    ensures
        out@.len() == lines_of(chars@).len(),
        forall|i: int| 0 <= i < out@.len() ==> (#[trigger] out@[i])@ == lines_of(chars@)[i],
{
    let mut out: Vec<Vec<char>> = Vec::new();
    let mut start: usize = 0;
    let ghost mut done: Seq<Seq<char>> = Seq::empty();
    while start < chars.len()
        invariant
            start <= chars@.len(),
            done.len() == out@.len(),
            forall|i: int| 0 <= i < out@.len() ==> (#[trigger] out@[i])@ == done[i],
            done + lines_from(chars@, start as int) == lines_of(chars@),
        decreases chars@.len() - start,
    {
        let end = find_from(chars, '\n', start);
        let stop = if end < chars.len() && start < end && chars[end - 1] == '\r' {
            end - 1
        } else {
            end
        };
        let line = slice_of(chars, start, stop);
        proof {
            let rest = lines_from(chars@, end + 1);
            assert(lines_from(chars@, start as int) == seq![line@] + rest);
            assert(done.push(line@) + rest =~= done + (seq![line@] + rest));
            done = done.push(line@);
        }
        out.push(line);
        start = if end < chars.len() {
            end + 1
        } else {
            end
        };
    }
    proof {
        assert(done + lines_from(chars@, start as int) =~= done);
    }
    out
}

} // verus!
