//! The executable parser.

use crate::grammar;
use crate::grammar::{
    comma, drop_empty, item_of, main_part, note_of, note_part, strip_carriage_return, text_lines,
};
use crate::laws::{lemma_first_index_is, lemma_first_mark_is, lemma_valid_iff_comma};
use crate::round_trip::{is_clean, lemma_parsed_item_is_clean};
use crate::scan::{find_char, find_mark, slice_of, split_range, to_chars, trim_bounds};
use crate::types::{item_views, view_of_option, views_of, VocabularyItem, VocabularyItemView};
use vstd::prelude::*;

verus! {

/// Makes an entry of the fields of a line and its note. Fewer than two
/// fields make none. The first two fields are the word and the reading; of
/// the others the empty ones are left out.
pub fn item_from_fields(fields: &Vec<String>, note: Option<String>) -> (item: Option<
    VocabularyItem,
>)
    ensures
        match item {
            Some(it) => item_of(views_of(fields@), view_of_option(note)) == Some(it@),
            None => item_of(views_of(fields@), view_of_option(note)) is None,
        },
{
    let n: usize = fields.len();
    if n < 2 {
        return None;
    }
    let ghost all = views_of(fields@);
    let mut meanings: Vec<String> = Vec::new();
    let mut i: usize = 2;
    assert(all.subrange(2, 2) =~= Seq::<Seq<char>>::empty());
    while i < n
        invariant
            2 <= i <= n == fields.len(),
            all == views_of(fields@),
            views_of(meanings@) == drop_empty(all.subrange(2, i as int)),
        decreases n - i,
    {
        let ghost before = views_of(meanings@);
        assert(all.subrange(2, i + 1).drop_last() =~= all.subrange(2, i as int));
        assert(all.subrange(2, i + 1).last() == fields@[i as int]@);
        if !fields[i].as_str().is_empty() {
            let meaning: String = fields[i].clone();
            meanings.push(meaning);
            assert(views_of(meanings@) =~= before.push(fields@[i as int]@));
        }
        i += 1;
    }
    assert(all.subrange(2, n as int) =~= all.skip(2));
    let word: String = fields[0].clone();
    let reading: String = fields[1].clone();
    Some(VocabularyItem::new(word, reading, meanings, note))
}

/// Parses one line. The result is the entry that the grammar gives the line,
/// and none where the grammar gives it none.
pub fn parse_line(line: &str) -> (item: Option<VocabularyItem>)
    ensures
        match item {
            Some(it) => grammar::parse_line(line@) == Some(it@) && is_clean(it@),
            None => grammar::parse_line(line@) is None,
        },
        item is Some <==> main_part(line@).contains(comma()),
{
    proof {
        lemma_valid_iff_comma(line@);
        if grammar::parse_line(line@) is Some {
            lemma_parsed_item_is_clean(line@);
        }
    }
    let chars: Vec<char> = to_chars(line);
    let n: usize = chars.len();
    let mut end: usize = n;
    let mut note: Option<String> = None;
    match find_mark(&chars) {
        Some(at) => {
            proof {
                lemma_first_mark_is(line@, at as int);
            }
            let bounds = trim_bounds(&chars, at + 3, n);
            if bounds.0 < bounds.1 {
                note = Some(slice_of(line, bounds.0, bounds.1));
            }
            end = at;
            assert(view_of_option(note) == note_of(line@.subrange(at + 3, n as int)));
        },
        None => {
            assert(line@.subrange(0, n as int) =~= line@);
        },
    }
    assert(line@.subrange(0, end as int) == main_part(line@));
    assert(view_of_option(note) == note_part(line@));
    let fields: Vec<String> = split_range(line, &chars, 0, end, ',');
    item_from_fields(&fields, note)
}

/// Parses each of the lines, and returns the entries of those that stand for
/// one, in the order of the lines.
pub fn parse_lines(lines: &Vec<String>) -> (items: Vec<VocabularyItem>)
    ensures
        item_views(items@) == grammar::parse_lines(views_of(lines@)),
        items.len() <= lines.len(),
        forall|k: int| 0 <= k < items.len() ==> is_clean(#[trigger] items@[k]@),
{
    let ghost all = views_of(lines@);
    let n: usize = lines.len();
    let mut items: Vec<VocabularyItem> = Vec::new();
    let mut i: usize = 0;
    assert(item_views(items@) =~= Seq::<VocabularyItemView>::empty());
    while i < n
        invariant
            i <= n == lines.len(),
            all == views_of(lines@),
            item_views(items@) == grammar::parse_lines(all.take(i as int)),
            items.len() <= i,
            forall|k: int| 0 <= k < items.len() ==> is_clean(#[trigger] items@[k]@),
        decreases n - i,
    {
        let ghost before = item_views(items@);
        assert(all.take(i + 1).drop_last() =~= all.take(i as int));
        assert(all.take(i + 1).last() == lines@[i as int]@);
        match parse_line(lines[i].as_str()) {
            Some(item) => {
                let ghost value = item@;
                items.push(item);
                assert(item_views(items@) =~= before.push(value));
            },
            None => {},
        }
        i += 1;
    }
    assert(all.take(n as int) =~= all);
    items
}

/// The lines of a text: it is cut at each line terminator, and a carriage
/// return directly before a terminator goes with it.
pub fn split_lines(text: &str) -> (lines: Vec<String>)
    ensures
        views_of(lines@) == text_lines(text@),
{
    let chars: Vec<char> = to_chars(text);
    let n: usize = chars.len();
    let mut lines: Vec<String> = Vec::new();
    let mut start: usize = 0;
    assert(text@.subrange(0, n as int) =~= text@);
    assert(views_of(lines@) =~= Seq::<Seq<char>>::empty());
    while start < n
        invariant
            chars@ == text@,
            start <= n == chars.len(),
            text_lines(text@) == views_of(lines@) + text_lines(
                text@.subrange(start as int, n as int),
            ),
        decreases n - start,
    {
        let ghost part = text@.subrange(start as int, n as int);
        let ghost before = views_of(lines@);
        let at: usize = find_char(&chars, start, n, '\n');
        if at < n {
            let mut stop: usize = at;
            if start < at && chars[at - 1] == '\r' {
                stop = at - 1;
            }
            proof {
                lemma_first_index_is(part, '\n', at - start);
                let raw = part.subrange(0, at - start);
                assert(raw =~= text@.subrange(start as int, at as int));
                assert(strip_carriage_return(raw) =~= text@.subrange(start as int, stop as int));
                assert(part.subrange(at - start + 1, part.len() as int) =~= text@.subrange(
                    at + 1,
                    n as int,
                ));
            }
            lines.push(slice_of(text, start, stop));
            assert(views_of(lines@) =~= before + seq![
                text@.subrange(start as int, stop as int),
            ]);
            start = at + 1;
        } else {
            lines.push(slice_of(text, start, n));
            assert(views_of(lines@) =~= before + seq![part]);
            start = n;
            assert(text@.subrange(n as int, n as int) =~= Seq::<char>::empty());
        }
    }
    assert(text_lines(text@.subrange(start as int, n as int)) =~= Seq::<Seq<char>>::empty());
    lines
}

/// Parses a whole text: the entries of those of its lines that stand for
/// one, in the order of the lines.
pub fn parse_text(text: &str) -> (items: Vec<VocabularyItem>)
    ensures
        item_views(items@) == grammar::parse_lines(text_lines(text@)),
        forall|k: int| 0 <= k < items.len() ==> is_clean(#[trigger] items@[k]@),
{
    let lines: Vec<String> = split_lines(text);
    parse_lines(&lines)
}

} // verus!
