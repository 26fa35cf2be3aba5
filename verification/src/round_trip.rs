//! Writing an entry as a line and parsing the line again.

use crate::grammar::{
    bar, comma, fields_of, first_index, first_mark, has_char, has_mark, is_first, is_first_mark,
    join_fields, main_part, mark_at, note_mark, parse_line, parse_lines, render_line,
    render_lines, split_fields, split_on,
};
use crate::laws::{
    is_trimmed, lemma_drop_empty_keeps_full, lemma_drop_empty_members, lemma_first_index_is,
    lemma_first_mark_is, lemma_split_count, lemma_split_pieces_lack, lemma_split_without,
    lemma_trim_is_idempotent, lemma_trimmed_stays,
};
use crate::types::VocabularyItemView;
use vstd::prelude::*;

verus! {

/// Whether `s` holds no note separator.
pub open spec fn lacks_mark(s: Seq<char>) -> bool {
    forall|j: int| !mark_at(s, j)
}

/// Whether `s` can stand as a field of a line: it holds neither a comma nor
/// a note separator.
pub open spec fn is_plain(s: Seq<char>) -> bool {
    &&& forall|j: int| 0 <= j < s.len() ==> s[j] != comma()
    &&& lacks_mark(s)
}

/// Whether each of the fields can stand as a field of a line.
pub open spec fn all_plain(fields: Seq<Seq<char>>) -> bool {
    forall|k: int| 0 <= k < fields.len() ==> is_plain(#[trigger] fields[k])
}

/// Whether `s` ends with a bar.
pub open spec fn ends_with_bar(s: Seq<char>) -> bool {
    s.len() > 0 && s.last() == bar()
}

/// What holds of every entry that comes from a line: word, reading and
/// meanings hold neither a comma nor a note separator, no meaning is empty,
/// and a note is neither empty nor has white space at either end.
pub open spec fn is_clean(item: VocabularyItemView) -> bool {
    &&& is_plain(item.word)
    &&& is_plain(item.reading)
    &&& all_plain(item.meanings)
    &&& forall|k: int| 0 <= k < item.meanings.len() ==> (#[trigger] item.meanings[k]).len() > 0
    &&& match item.note {
        Some(note) => note.len() > 0 && is_trimmed(note),
        None => true,
    }
}

/// Whether the line written for an entry stands for that entry again: the
/// entry is clean and, where it has a note, no bar stands directly before
/// the note separator, where it would be read as part of the separator.
pub open spec fn is_writable(item: VocabularyItemView) -> bool {
    &&& is_clean(item)
    &&& item.note is Some ==> !ends_with_bar(join_fields(fields_of(item)))
}

/// Where a text holds three bars in a row, it has a first note separator.
pub proof fn lemma_first_mark_exists(s: Seq<char>, k: int)
    requires
        mark_at(s, k),
    ensures
        has_mark(s),
        0 <= first_mark(s) <= k,
    decreases k,
{
    if exists|j: int| 0 <= j < k && mark_at(s, j) {
        let j = choose|j: int| 0 <= j < k && mark_at(s, j);
        lemma_first_mark_exists(s, j);
    } else {
        assert(is_first_mark(s, k));
        lemma_first_mark_is(s, k);
    }
}

/// No note separator stands in the main part of a line.
pub proof fn lemma_main_part_lacks_mark(line: Seq<char>)
    ensures
        lacks_mark(main_part(line)),
{
    let main = main_part(line);
    assert forall|j: int| !mark_at(main, j) by {
        if mark_at(main, j) {
            if has_mark(line) {
                let at = first_mark(line);
                assert(is_first_mark(line, at));
                assert(main[j] == line[j] && main[j + 1] == line[j + 1] && main[j + 2] == line[j
                    + 2]);
                assert(mark_at(line, j));
            } else {
                lemma_first_mark_exists(line, j);
            }
        }
    }
}

/// Joined fields begin with the first field; after a comma the others
/// follow, joined.
pub proof fn lemma_join_first(fields: Seq<Seq<char>>)
    requires
        fields.len() >= 2,
    ensures
        join_fields(fields) == fields[0] + seq![comma()] + join_fields(fields.drop_first()),
    decreases fields.len(),
{
    let init = fields.drop_last();
    let tail = fields.drop_first();
    if fields.len() == 2 {
        assert(join_fields(init) == fields[0]);
        assert(join_fields(tail) == fields[1]);
    } else {
        lemma_join_first(init);
        assert(init.drop_first() =~= tail.drop_last());
        assert(join_fields(fields) =~= fields[0] + seq![comma()] + join_fields(tail));
    }
}

/// Fields without a comma are got back when their join is cut at the
/// commas.
pub proof fn lemma_split_join(fields: Seq<Seq<char>>)
    requires
        fields.len() >= 1,
        forall|k: int, j: int|
            0 <= k < fields.len() && 0 <= j < fields[k].len() ==> fields[k][j] != comma(),
    ensures
        split_fields(join_fields(fields)) == fields,
    decreases fields.len(),
{
    if fields.len() == 1 {
        lemma_split_without(fields[0], comma());
        assert(seq![fields[0]] =~= fields);
    } else {
        let head = fields[0];
        let tail = fields.drop_first();
        let joined = join_fields(fields);
        lemma_join_first(fields);
        assert forall|k: int, j: int|
            0 <= k < tail.len() && 0 <= j < tail[k].len() implies tail[k][j] != comma() by {
            assert(tail[k] == fields[k + 1]);
        }
        lemma_split_join(tail);
        let at = head.len() as int;
        assert(joined[at] == comma());
        assert forall|j: int| 0 <= j < at implies joined[j] != comma() by {
            assert(joined[j] == head[j]);
        }
        assert(is_first(joined, comma(), at));
        lemma_first_index_is(joined, comma(), at);
        assert(joined.subrange(0, at) =~= head);
        assert(joined.subrange(at + 1, joined.len() as int) =~= join_fields(tail));
        assert(seq![head] + tail =~= fields);
    }
}

/// Cutting a text at its commas loses nothing: the fields, joined again, are
/// the text.
pub proof fn lemma_join_split(s: Seq<char>)
    ensures
        join_fields(split_fields(s)) == s,
    decreases s.len(),
{
    if has_char(s, comma()) {
        let at = first_index(s, comma());
        let head = s.subrange(0, at);
        let rest = s.subrange(at + 1, s.len() as int);
        let fields = split_fields(s);
        lemma_join_split(rest);
        lemma_split_count(rest, comma());
        lemma_join_first(fields);
        assert(fields.drop_first() =~= split_fields(rest));
        assert(head + seq![comma()] + rest =~= s);
    }
}

/// Where no field holds a note separator, their join holds none: a comma is
/// no bar.
pub proof fn lemma_join_lacks_mark(fields: Seq<Seq<char>>)
    requires
        forall|k: int| 0 <= k < fields.len() ==> lacks_mark(#[trigger] fields[k]),
    ensures
        lacks_mark(join_fields(fields)),
    decreases fields.len(),
{
    if fields.len() >= 2 {
        let init = fields.drop_last();
        let last = fields.last();
        assert forall|k: int| 0 <= k < init.len() implies lacks_mark(#[trigger] init[k]) by {
            assert(init[k] == fields[k]);
        }
        lemma_join_lacks_mark(init);
        let head = join_fields(init);
        let joined = join_fields(fields);
        assert(lacks_mark(last));
        assert forall|j: int| !mark_at(joined, j) by {
            if mark_at(joined, j) {
                if j + 3 <= head.len() {
                    assert(joined[j] == head[j] && joined[j + 1] == head[j + 1] && joined[j + 2]
                        == head[j + 2]);
                    assert(mark_at(head, j));
                } else if j > head.len() {
                    let i = j - head.len() - 1;
                    assert(joined[j] == last[i] && joined[j + 1] == last[i + 1] && joined[j + 2]
                        == last[i + 2]);
                    assert(mark_at(last, i));
                } else {
                    assert(joined[head.len() as int] == comma());
                }
            }
        }
    } else if fields.len() == 1 {
        assert(lacks_mark(fields[0]));
    }
}

/// Where a text holds no note separator, none of its pieces holds one.
pub proof fn lemma_split_pieces_lack_mark(s: Seq<char>, c: char)
    requires
        lacks_mark(s),
    ensures
        forall|k: int| 0 <= k < split_on(s, c).len() ==> lacks_mark(#[trigger] split_on(s, c)[k]),
    decreases s.len(),
{
    if has_char(s, c) {
        let i = first_index(s, c);
        let head = s.subrange(0, i);
        let rest = s.subrange(i + 1, s.len() as int);
        assert forall|j: int| !mark_at(rest, j) by {
            if mark_at(rest, j) {
                assert(rest[j] == s[i + 1 + j] && rest[j + 1] == s[i + 2 + j] && rest[j + 2] == s[i
                    + 3 + j]);
                assert(mark_at(s, i + 1 + j));
            }
        }
        assert forall|j: int| !mark_at(head, j) by {
            if mark_at(head, j) {
                assert(head[j] == s[j] && head[j + 1] == s[j + 1] && head[j + 2] == s[j + 2]);
                assert(mark_at(s, j));
            }
        }
        lemma_split_pieces_lack_mark(rest, c);
        assert forall|k: int| 0 <= k < split_on(s, c).len() implies lacks_mark(
            #[trigger] split_on(s, c)[k],
        ) by {
            if k > 0 {
                assert(split_on(s, c)[k] == split_on(rest, c)[k - 1]);
            }
        }
    }
}

/// Every entry that comes from a line is clean.
pub proof fn lemma_parsed_item_is_clean(line: Seq<char>)
    requires
        parse_line(line) is Some,
    ensures
        is_clean(parse_line(line)->0),
{
    let item = parse_line(line)->0;
    let main = main_part(line);
    let fields = split_fields(main);
    lemma_main_part_lacks_mark(line);
    lemma_split_pieces_lack(main, comma());
    lemma_split_pieces_lack_mark(main, comma());
    assert(all_plain(fields));
    assert(is_plain(fields[0]));
    assert(is_plain(fields[1]));
    lemma_drop_empty_members(fields.skip(2));
    assert forall|k: int| 0 <= k < item.meanings.len() implies is_plain(
        #[trigger] item.meanings[k],
    ) by {
        let f = item.meanings[k];
        assert(fields.skip(2).contains(f));
        let j = choose|j: int| 0 <= j < fields.skip(2).len() && fields.skip(2)[j] == f;
        assert(fields[j + 2] == f);
    }
    if has_mark(line) {
        lemma_trim_is_idempotent(line.subrange(first_mark(line) + 3, line.len() as int));
    }
}

/// The line written for a writable entry stands for that entry.
pub proof fn lemma_written_line_parses_back(item: VocabularyItemView)
    requires
        is_writable(item),
    ensures
        parse_line(render_line(item)) == Some(item),
{
    let fields = fields_of(item);
    let main = join_fields(fields);
    let line = render_line(item);
    assert forall|k: int| 0 <= k < fields.len() implies is_plain(#[trigger] fields[k]) by {
        if k >= 2 {
            assert(fields[k] == item.meanings[k - 2]);
        }
    }
    lemma_split_join(fields);
    lemma_join_lacks_mark(fields);
    assert(fields.skip(2) =~= item.meanings);
    lemma_drop_empty_keeps_full(item.meanings);
    match item.note {
        Some(note) => {
            let at = main.len() as int;
            assert(line == main + note_mark() + note);
            assert(line[at] == bar() && line[at + 1] == bar() && line[at + 2] == bar());
            assert forall|j: int| 0 <= j < at implies !mark_at(line, j) by {
                if mark_at(line, j) {
                    if j + 3 <= at {
                        assert(line[j] == main[j] && line[j + 1] == main[j + 1] && line[j + 2]
                            == main[j + 2]);
                        assert(mark_at(main, j));
                    } else {
                        assert(line[at - 1] == main.last());
                    }
                }
            }
            assert(is_first_mark(line, at));
            lemma_first_mark_is(line, at);
            assert(line.subrange(0, at) =~= main);
            assert(line.subrange(at + 3, line.len() as int) =~= note);
            lemma_trimmed_stays(note);
        },
        None => {
            assert forall|j: int| !is_first_mark(line, j) by {
                assert(!mark_at(line, j));
            }
        },
    }
}

/// Writing the entry of a line and parsing what was written gives the same
/// entry again, word, reading, meanings and note. The one exception is an
/// entry with a note whose last field ends with a bar: written directly
/// before the note separator, that bar is read as the separator's first.
pub proof fn lemma_round_trip(line: Seq<char>)
    requires
        parse_line(line) is Some,
        parse_line(line)->0.note is Some ==> !ends_with_bar(
            join_fields(fields_of(parse_line(line)->0)),
        ),
    ensures
        parse_line(render_line(parse_line(line)->0)) == parse_line(line),
{
    lemma_parsed_item_is_clean(line);
    lemma_written_line_parses_back(parse_line(line)->0);
}

/// A list of writable entries, written line by line and parsed again, is
/// the same list.
pub proof fn lemma_written_lines_parse_back(items: Seq<VocabularyItemView>)
    requires
        forall|k: int| 0 <= k < items.len() ==> is_writable(#[trigger] items[k]),
    ensures
        parse_lines(render_lines(items)) == items,
    decreases items.len(),
{
    if items.len() == 0 {
        assert(parse_lines(render_lines(items)) =~= items);
    } else {
        let init = items.drop_last();
        assert forall|k: int| 0 <= k < init.len() implies is_writable(#[trigger] init[k]) by {
            assert(init[k] == items[k]);
        }
        lemma_written_lines_parse_back(init);
        lemma_written_line_parses_back(items.last());
        assert(render_lines(items).drop_last() =~= render_lines(init));
        assert(render_lines(items).last() == render_line(items.last()));
        assert(init.push(items.last()) =~= items);
    }
}

/// A line of four fields, none of them with a comma or a note separator and
/// the last two not empty, stands for exactly one entry: the first field is
/// its word, the second its reading, the last two its meanings, and it has
/// no note.
pub proof fn lemma_plain_line(w: Seq<char>, r: Seq<char>, m1: Seq<char>, m2: Seq<char>)
    requires
        is_plain(w),
        is_plain(r),
        is_plain(m1),
        is_plain(m2),
        m1.len() > 0,
        m2.len() > 0,
    ensures
        parse_line(w + seq![comma()] + r + seq![comma()] + m1 + seq![comma()] + m2) == Some(
            VocabularyItemView { word: w, reading: r, meanings: seq![m1, m2], note: None },
        ),
{
    let item = VocabularyItemView { word: w, reading: r, meanings: seq![m1, m2], note: None };
    let fields = fields_of(item);
    assert(fields =~= seq![w, r, m1, m2]);
    assert(fields.drop_last() =~= seq![w, r, m1]);
    assert(seq![w, r, m1].drop_last() =~= seq![w, r]);
    assert(seq![w, r].drop_last() =~= seq![w]);
    assert(join_fields(seq![w]) == w);
    assert(join_fields(seq![w, r]) == w + seq![comma()] + r);
    assert(join_fields(seq![w, r, m1]) == w + seq![comma()] + r + seq![comma()] + m1);
    assert(join_fields(fields) == w + seq![comma()] + r + seq![comma()] + m1 + seq![comma()] + m2);
    lemma_written_line_parses_back(item);
}

} // verus!
