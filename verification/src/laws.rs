//! General facts about the grammar.

use crate::grammar::{
    comma, drop_empty, first_index, first_mark, has_char, has_mark, is_first, is_first_mark,
    is_whitespace, main_part, mark_at, parse_line, parse_lines, split_fields, split_on, trim,
    trim_end, trim_start,
};
use vstd::prelude::*;

verus! {

/// A place that is the first occurrence of `c` in `s` is the one that
/// `first_index` names.
pub proof fn lemma_first_index_is(s: Seq<char>, c: char, i: int)
    requires
        is_first(s, c, i),
    ensures
        has_char(s, c),
        first_index(s, c) == i,
{
    let k = first_index(s, c);
    assert(is_first(s, c, k));
    if k < i {
        assert(s[k] != c);
    } else if i < k {
        assert(s[i] != c);
    }
}

/// A place that is the first note separator of `s` is the one that
/// `first_mark` names.
pub proof fn lemma_first_mark_is(s: Seq<char>, i: int)
    requires
        is_first_mark(s, i),
    ensures
        has_mark(s),
        first_mark(s) == i,
{
    let k = first_mark(s);
    assert(is_first_mark(s, k));
    if k < i {
        assert(!mark_at(s, k));
    } else if i < k {
        assert(!mark_at(s, i));
    }
}

/// A text is cut at its first `c`: the first piece is what stands before it,
/// the others are the pieces of what follows it.
pub proof fn lemma_split_at_first(s: Seq<char>, c: char, i: int)
    requires
        is_first(s, c, i),
    ensures
        split_on(s, c) == seq![s.subrange(0, i)] + split_on(s.subrange(i + 1, s.len() as int), c),
{
    lemma_first_index_is(s, c, i);
}

/// A text without `c` is one piece.
pub proof fn lemma_split_without(s: Seq<char>, c: char)
    requires
        forall|j: int| 0 <= j < s.len() ==> s[j] != c,
    ensures
        !has_char(s, c),
        split_on(s, c) == seq![s],
{
    assert forall|i: int| !is_first(s, c, i) by {
        if 0 <= i < s.len() {
            assert(s[i] != c);
        }
    }
}

/// Where `c` occurs in `s` at all, it has a first occurrence.
pub proof fn lemma_first_exists(s: Seq<char>, c: char, k: int)
    requires
        0 <= k < s.len(),
        s[k] == c,
    ensures
        has_char(s, c),
        0 <= first_index(s, c) <= k,
    decreases k,
{
    if exists|j: int| 0 <= j < k && s[j] == c {
        let j = choose|j: int| 0 <= j < k && s[j] == c;
        lemma_first_exists(s, c, j);
    } else {
        assert(is_first(s, c, k));
        lemma_first_index_is(s, c, k);
    }
}

/// Cutting a text gives at least one piece, and more than one exactly where
/// `c` occurs in it.
pub proof fn lemma_split_count(s: Seq<char>, c: char)
    ensures
        split_on(s, c).len() >= 1,
        split_on(s, c).len() >= 2 <==> has_char(s, c),
    decreases s.len(),
{
    if has_char(s, c) {
        let i = first_index(s, c);
        lemma_split_count(s.subrange(i + 1, s.len() as int), c);
    }
}

/// No piece of a cut text holds `c`.
pub proof fn lemma_split_pieces_lack(s: Seq<char>, c: char)
    ensures
        forall|k: int, j: int|
            0 <= k < split_on(s, c).len() && 0 <= j < split_on(s, c)[k].len() ==> split_on(
                s,
                c,
            )[k][j] != c,
    decreases s.len(),
{
    if has_char(s, c) {
        let i = first_index(s, c);
        let rest = s.subrange(i + 1, s.len() as int);
        lemma_split_pieces_lack(rest, c);
        assert forall|k: int, j: int|
            0 <= k < split_on(s, c).len() && 0 <= j < split_on(s, c)[k].len() implies split_on(
            s,
            c,
        )[k][j] != c by {
            if k == 0 {
                assert(split_on(s, c)[0][j] == s[j]);
            } else {
                assert(split_on(s, c)[k] == split_on(rest, c)[k - 1]);
            }
        }
    } else {
        assert forall|j: int| 0 <= j < s.len() implies s[j] != c by {
            if s[j] == c {
                lemma_first_exists(s, c, j);
            }
        }
    }
}

/// A line stands for an entry exactly where a comma stands before its first
/// note separator: a line with fewer than two fields stands for none.
pub proof fn lemma_valid_iff_comma(line: Seq<char>)
    ensures
        parse_line(line) is Some <==> main_part(line).contains(comma()),
        parse_line(line) is Some <==> split_fields(main_part(line)).len() >= 2,
{
    let main = main_part(line);
    lemma_split_count(main, comma());
    if main.contains(comma()) {
        let k = choose|k: int| 0 <= k < main.len() && main[k] == comma();
        lemma_first_exists(main, comma(), k);
    }
    if has_char(main, comma()) {
        let i = first_index(main, comma());
        assert(main[i] == comma());
    }
}

/// The lines of two lists, one after the other, give the entries of the
/// first list followed by those of the second.
pub proof fn lemma_parse_lines_concat(a: Seq<Seq<char>>, b: Seq<Seq<char>>)
    ensures
        parse_lines(a + b) == parse_lines(a) + parse_lines(b),
    decreases b.len(),
{
    if b.len() == 0 {
        assert(a + b =~= a);
        assert(parse_lines(a) + parse_lines(b) =~= parse_lines(a));
    } else {
        lemma_parse_lines_concat(a, b.drop_last());
        assert((a + b).drop_last() =~= a + b.drop_last());
        assert((a + b).last() == b.last());
        assert(parse_lines(a + b) =~= parse_lines(a) + parse_lines(b));
    }
}

/// A line that stands for no entry leaves no trace: with it or without it,
/// wherever it stands, the same entries come out in the same order.
pub proof fn lemma_invalid_line_is_skipped(a: Seq<Seq<char>>, bad: Seq<char>, b: Seq<Seq<char>>)
    requires
        parse_line(bad) is None,
    ensures
        parse_lines(a + seq![bad] + b) == parse_lines(a + b),
{
    lemma_parse_lines_concat(a + seq![bad], b);
    lemma_parse_lines_concat(a, seq![bad]);
    lemma_parse_lines_concat(a, b);
    assert(seq![bad].drop_last() =~= Seq::<Seq<char>>::empty());
    assert(parse_lines(seq![bad].drop_last()) =~= Seq::empty());
    assert(seq![bad].last() == bad);
    assert(parse_lines(seq![bad]) =~= Seq::empty());
    assert(parse_lines(a) + parse_lines(seq![bad]) =~= parse_lines(a));
}

/// Where every line stands for an entry, there are as many entries as lines,
/// and each entry is that of the line at its place.
pub proof fn lemma_valid_lines_keep_order(lines: Seq<Seq<char>>)
    requires
        forall|i: int| 0 <= i < lines.len() ==> parse_line(#[trigger] lines[i]) is Some,
    ensures
        parse_lines(lines).len() == lines.len(),
        forall|i: int|
            0 <= i < lines.len() ==> parse_line(#[trigger] lines[i]) == Some(parse_lines(lines)[i]),
    decreases lines.len(),
{
    if lines.len() > 0 {
        let init = lines.drop_last();
        assert forall|i: int| 0 <= i < init.len() implies parse_line(#[trigger] init[i]) is Some by {
            assert(init[i] == lines[i]);
        }
        lemma_valid_lines_keep_order(init);
        assert(parse_line(lines.last()) is Some);
        assert forall|i: int| 0 <= i < lines.len() implies parse_line(#[trigger] lines[i]) == Some(
            parse_lines(lines)[i],
        ) by {
            if i < init.len() {
                assert(init[i] == lines[i]);
            }
        }
    }
}

/// The lines that stand for an entry, in order.
pub open spec fn valid_lines(lines: Seq<Seq<char>>) -> Seq<Seq<char>>
    decreases lines.len(),
{
    if lines.len() == 0 {
        lines
    } else if parse_line(lines.last()) is Some {
        valid_lines(lines.drop_last()).push(lines.last())
    } else {
        valid_lines(lines.drop_last())
    }
}

/// Order is kept: whatever lines without an entry stand among them, the
/// lines that stand for an entry give one entry each, in the order of those
/// lines.
pub proof fn lemma_order_is_kept(lines: Seq<Seq<char>>)
    ensures
        parse_lines(lines).len() == valid_lines(lines).len(),
        forall|i: int|
            0 <= i < valid_lines(lines).len() ==> parse_line(#[trigger] valid_lines(lines)[i])
                == Some(parse_lines(lines)[i]),
        parse_lines(valid_lines(lines)) == parse_lines(lines),
    decreases lines.len(),
{
    if lines.len() > 0 {
        let init = lines.drop_last();
        lemma_order_is_kept(init);
        if parse_line(lines.last()) is Some {
            let kept = valid_lines(lines);
            assert(kept.drop_last() =~= valid_lines(init));
            assert(kept.last() == lines.last());
        }
    }
}

/// However many lines there are, no more entries come out than lines went
/// in.
pub proof fn lemma_parse_lines_count(lines: Seq<Seq<char>>)
    ensures
        parse_lines(lines).len() <= lines.len(),
    decreases lines.len(),
{
    if lines.len() > 0 {
        lemma_parse_lines_count(lines.drop_last());
    }
}

/// Whether white space stands at neither end of `s`.
pub open spec fn is_trimmed(s: Seq<char>) -> bool {
    s.len() > 0 ==> !is_whitespace(s[0]) && !is_whitespace(s.last())
}

/// What is left of a text without its leading white space is a tail of it
/// that begins with none.
pub proof fn lemma_trim_start_shape(s: Seq<char>)
    ensures
        trim_start(s).len() <= s.len(),
        trim_start(s) == s.skip(s.len() - trim_start(s).len()),
        trim_start(s).len() > 0 ==> !is_whitespace(trim_start(s)[0]),
    decreases s.len(),
{
    if s.len() > 0 && is_whitespace(s[0]) {
        lemma_trim_start_shape(s.drop_first());
        let t = trim_start(s);
        assert(s.drop_first().skip(s.len() - 1 - t.len()) =~= s.skip(s.len() - t.len()));
    } else {
        assert(s.skip(0) =~= s);
    }
}

/// What is left of a text without its trailing white space is a head of it
/// that ends with none.
pub proof fn lemma_trim_end_shape(s: Seq<char>)
    ensures
        trim_end(s).len() <= s.len(),
        trim_end(s) == s.take(trim_end(s).len() as int),
        trim_end(s).len() > 0 ==> !is_whitespace(trim_end(s).last()),
    decreases s.len(),
{
    if s.len() > 0 && is_whitespace(s.last()) {
        lemma_trim_end_shape(s.drop_last());
        let t = trim_end(s);
        assert(s.drop_last().take(t.len() as int) =~= s.take(t.len() as int));
    } else {
        assert(s.take(s.len() as int) =~= s);
    }
}

/// A trimmed text has white space at neither end, and trimming it again
/// changes nothing.
pub proof fn lemma_trim_is_idempotent(s: Seq<char>)
    ensures
        is_trimmed(trim(s)),
        trim(trim(s)) == trim(s),
{
    lemma_trim_start_shape(s);
    lemma_trim_end_shape(trim_start(s));
    lemma_trimmed_stays(trim(s));
}

/// Trimming a text with white space at neither end changes nothing.
pub proof fn lemma_trimmed_stays(s: Seq<char>)
    requires
        is_trimmed(s),
    ensures
        trim(s) == s,
{
}

/// Leaving out the empty fields leaves only non-empty ones, each of which
/// was among the fields.
pub proof fn lemma_drop_empty_members(fields: Seq<Seq<char>>)
    ensures
        drop_empty(fields).len() <= fields.len(),
        forall|k: int|
            0 <= k < drop_empty(fields).len() ==> (#[trigger] drop_empty(fields)[k]).len() > 0
                && fields.contains(drop_empty(fields)[k]),
    decreases fields.len(),
{
    if fields.len() > 0 {
        let init = fields.drop_last();
        lemma_drop_empty_members(init);
        assert forall|k: int| 0 <= k < drop_empty(fields).len() implies (#[trigger] drop_empty(
            fields,
        )[k]).len() > 0 && fields.contains(drop_empty(fields)[k]) by {
            if k < drop_empty(init).len() {
                let f = drop_empty(init)[k];
                assert(init.contains(f));
                let j = choose|j: int| 0 <= j < init.len() && init[j] == f;
                assert(fields[j] == f);
            } else {
                assert(fields[fields.len() - 1] == fields.last());
            }
        }
    }
}

/// Where no field is empty, none is left out.
pub proof fn lemma_drop_empty_keeps_full(fields: Seq<Seq<char>>)
    requires
        forall|k: int| 0 <= k < fields.len() ==> (#[trigger] fields[k]).len() > 0,
    ensures
        drop_empty(fields) == fields,
    decreases fields.len(),
{
    if fields.len() > 0 {
        let init = fields.drop_last();
        assert forall|k: int| 0 <= k < init.len() implies (#[trigger] init[k]).len() > 0 by {
            assert(init[k] == fields[k]);
        }
        lemma_drop_empty_keeps_full(init);
        assert(init.push(fields.last()) =~= fields);
    }
}

} // verus!
