//! Scanning a line character by character.

use crate::grammar;
use crate::grammar::{
    has_char, has_mark, is_first, is_first_mark, mark_at, split_on, trim, trim_end, trim_start,
};
use crate::laws::{lemma_split_at_first, lemma_split_without};
use crate::types::views_of;
use vstd::prelude::*;
use vstd::std_specs::iter::IteratorSpec;
use vstd::string::StrSliceExecFns;
use vstd::string::StringExecFns;

verus! {

/// Whether `c` is white space.
pub fn is_whitespace(c: char) -> (white: bool)
    ensures
        white == grammar::is_whitespace(c),
{
    let n: u32 = c as u32;
    (0x09 <= n && n <= 0x0D) || n == 0x20 || n == 0x85 || n == 0xA0 || n == 0x1680 || (0x2000 <= n
        && n <= 0x200A) || n == 0x2028 || n == 0x2029 || n == 0x202F || n == 0x205F || n == 0x3000
}

/// The characters of a text, one by one.
pub fn to_chars(text: &str) -> (chars: Vec<char>)
    ensures
        chars@ == text@,
{
    broadcast use vstd::string::group_string_axioms;

    let mut chars: Vec<char> = Vec::new();
    let mut rest = text.chars();
    loop
        invariant
            rest.obeys_prophetic_iter_laws(),
            rest.decrease() is Some,
            chars@ + rest.remaining() == text@,
        ensures
            chars@ == text@,
        decreases rest.decrease()->0,
    {
        let ghost before = rest.remaining();
        match rest.next() {
            Some(c) => {
                chars.push(c);
                assert(chars@ + rest.remaining() =~= text@) by {
                    assert(before == seq![before[0]] + before.drop_first());
                }
            },
            None => {
                assert(chars@ =~= text@);
                break ;
            },
        }
    }
    chars
}

/// The part of `text` from place `lo` up to place `hi`, as a string of its
/// own.
pub fn slice_of(text: &str, lo: usize, hi: usize) -> (piece: String)
    requires
        lo <= hi <= text@.len(),
    ensures
        piece@ == text@.subrange(lo as int, hi as int),
{
    String::from_str(text.substring_char(lo, hi))
}

/// Looks for the first `c` among the characters from place `lo` up to place
/// `hi`, and returns its place, or `hi` where there is none.
pub fn find_char(chars: &Vec<char>, lo: usize, hi: usize, c: char) -> (at: usize)
    requires
        lo <= hi <= chars.len(),
    ensures
        lo <= at <= hi,
        at < hi ==> is_first(chars@.subrange(lo as int, hi as int), c, at - lo),
        at == hi ==> forall|j: int| lo <= j < hi ==> chars@[j] != c,
        at == hi ==> !has_char(chars@.subrange(lo as int, hi as int), c),
{
    let ghost part = chars@.subrange(lo as int, hi as int);
    let mut at: usize = lo;
    while at < hi && chars[at] != c
        invariant
            lo <= at <= hi <= chars.len(),
            forall|j: int| lo <= j < at ==> chars@[j] != c,
        decreases hi - at,
    {
        at += 1;
    }
    proof {
        if at < hi {
            assert(part[at - lo] == c);
            assert forall|j: int| 0 <= j < at - lo implies part[j] != c by {
                assert(part[j] == chars@[lo + j]);
            }
        } else {
            assert forall|j: int| 0 <= j < part.len() implies part[j] != c by {
                assert(part[j] == chars@[lo + j]);
            }
            lemma_split_without(part, c);
        }
    }
    at
}

/// Looks for the first note separator.
pub fn find_mark(chars: &Vec<char>) -> (at: Option<usize>)
    ensures
        match at {
            Some(i) => is_first_mark(chars@, i as int),
            None => !has_mark(chars@),
        },
{
    let n: usize = chars.len();
    let mut i: usize = 0;
    while i < n && n - i >= 3
        invariant
            i <= n == chars.len(),
            forall|j: int| 0 <= j < i ==> !mark_at(chars@, j),
        decreases n - i,
    {
        if chars[i] == '|' && chars[i + 1] == '|' && chars[i + 2] == '|' {
            return Some(i);
        }
        i += 1;
    }
    proof {
        assert forall|j: int| !is_first_mark(chars@, j) by {
            if mark_at(chars@, j) {
                assert(j < i);
            }
        }
    }
    None
}

/// The bounds of what is left of the characters from place `lo` up to place
/// `hi` when the white space at both ends is taken away.
pub fn trim_bounds(chars: &Vec<char>, lo: usize, hi: usize) -> (bounds: (usize, usize))
    requires
        lo <= hi <= chars.len(),
    ensures
        lo <= bounds.0 <= bounds.1 <= hi,
        chars@.subrange(bounds.0 as int, bounds.1 as int) == trim(
            chars@.subrange(lo as int, hi as int),
        ),
        bounds.0 == hi - trim_start(chars@.subrange(lo as int, hi as int)).len(),
        bounds.1 == bounds.0 + trim(chars@.subrange(lo as int, hi as int)).len(),
{
    let mut a: usize = lo;
    while a < hi && is_whitespace(chars[a])
        invariant
            lo <= a <= hi <= chars.len(),
            trim_start(chars@.subrange(lo as int, hi as int)) == trim_start(
                chars@.subrange(a as int, hi as int),
            ),
        decreases hi - a,
    {
        assert(chars@.subrange(a as int, hi as int).drop_first() =~= chars@.subrange(
            a + 1,
            hi as int,
        ));
        a += 1;
    }
    assert(trim_start(chars@.subrange(a as int, hi as int)) == chars@.subrange(a as int, hi as int));
    let mut b: usize = hi;
    while a < b && is_whitespace(chars[b - 1])
        invariant
            a <= b <= hi <= chars.len(),
            trim_end(chars@.subrange(a as int, hi as int)) == trim_end(
                chars@.subrange(a as int, b as int),
            ),
        decreases b - a,
    {
        assert(chars@.subrange(a as int, b as int).drop_last() =~= chars@.subrange(
            a as int,
            b - 1,
        ));
        b -= 1;
    }
    assert(trim_end(chars@.subrange(a as int, b as int)) == chars@.subrange(a as int, b as int));
    (a, b)
}

/// Cuts the part of `text` from place `lo` up to place `hi` at each `c`.
/// `chars` holds the characters of `text`.
pub fn split_range(text: &str, chars: &Vec<char>, lo: usize, hi: usize, c: char) -> (pieces: Vec<
    String,
>)
    requires
        chars@ == text@,
        lo <= hi <= chars.len(),
    ensures
        views_of(pieces@) == split_on(text@.subrange(lo as int, hi as int), c),
{
    let mut pieces: Vec<String> = Vec::new();
    let mut start: usize = lo;
    loop
        invariant
            chars@ == text@,
            lo <= start <= hi <= chars.len(),
            split_on(text@.subrange(lo as int, hi as int), c) == views_of(pieces@) + split_on(
                text@.subrange(start as int, hi as int),
                c,
            ),
        decreases hi - start,
    {
        let ghost part = text@.subrange(start as int, hi as int);
        let ghost before = views_of(pieces@);
        let at: usize = find_char(chars, start, hi, c);
        let piece: String = slice_of(text, start, at);
        pieces.push(piece);
        assert(views_of(pieces@) =~= before + seq![text@.subrange(start as int, at as int)]);
        if at < hi {
            proof {
                lemma_split_at_first(part, c, at - start);
                assert(part.subrange(0, at - start) =~= text@.subrange(start as int, at as int));
                assert(part.subrange(at - start + 1, part.len() as int) =~= text@.subrange(
                    at + 1,
                    hi as int,
                ));
            }
            start = at + 1;
        } else {
            assert(split_on(part, c) == seq![part]);
            return pieces;
        }
    }
}

} // verus!
