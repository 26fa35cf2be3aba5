//! Writing entries back as lines.

use crate::grammar;
use crate::grammar::{fields_of, join_fields, note_mark};
use crate::types::{item_views, views_of, VocabularyItem};
use vstd::prelude::*;
use vstd::string::StringExecFns;

verus! {

/// Writes an entry as a line: word, reading and meanings with a comma between
/// each two and, where the entry has a note, the note separator and the note.
pub fn render_line(item: &VocabularyItem) -> (line: String)
    ensures
        line@ == grammar::render_line(item@),
{
    proof {
        reveal_strlit(",");
        reveal_strlit("|||");
    }
    let ghost fields = fields_of(item@);
    let mut line: String = String::from_str(item.word());
    line.append(",");
    line.append(item.reading());
    let meanings: &Vec<String> = item.meanings();
    let n: usize = meanings.len();
    assert(line@ == join_fields(fields.take(2))) by {
        assert(","@ =~= seq![',']);
        assert(fields.take(2).drop_last() =~= seq![item@.word]);
        assert(fields.take(2).last() == item@.reading);
        assert(join_fields(seq![item@.word]) == item@.word);
    }
    let mut i: usize = 0;
    while i < n
        invariant
            i <= n == meanings.len(),
            views_of(meanings@) == item@.meanings,
            fields == fields_of(item@),
            ","@ == seq![','],
            line@ == join_fields(fields.take(i + 2)),
        decreases n - i,
    {
        assert(fields.take(i + 3).drop_last() =~= fields.take(i + 2));
        assert(fields.take(i + 3).last() == meanings@[i as int]@);
        line.append(",");
        line.append(meanings[i].as_str());
        i += 1;
    }
    assert(fields.take(n + 2) =~= fields);
    match item.note() {
        Some(note) => {
            assert("|||"@ =~= note_mark());
            line.append("|||");
            line.append(note);
        },
        None => {},
    }
    line
}

/// Writes each entry as a line, in order.
pub fn render_lines(items: &Vec<VocabularyItem>) -> (lines: Vec<String>)
    ensures
        views_of(lines@) == grammar::render_lines(item_views(items@)),
{
    let n: usize = items.len();
    let mut lines: Vec<String> = Vec::new();
    let mut i: usize = 0;
    while i < n
        invariant
            i <= n == items.len(),
            lines.len() == i,
            forall|k: int| 0 <= k < i ==> lines@[k]@ == grammar::render_line(#[trigger] items@[k]@),
        decreases n - i,
    {
        lines.push(render_line(&items[i]));
        i += 1;
    }
    assert(views_of(lines@) =~= grammar::render_lines(item_views(items@)));
    lines
}

} // verus!
