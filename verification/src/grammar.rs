//! The grammar of a vocabulary line, as functions on character sequences.

use crate::types::VocabularyItemView;
use vstd::prelude::*;

verus! {

/// The field separator.
pub open spec fn comma() -> char {
    ','
}

/// The line terminator.
pub open spec fn newline() -> char {
    '\n'
}

/// The carriage return that may stand before a line terminator.
pub open spec fn carriage_return() -> char {
    '\r'
}

/// The character of which the note separator is made.
pub open spec fn bar() -> char {
    '|'
}

/// The note separator: three bars.
pub open spec fn note_mark() -> Seq<char> {
    seq![bar(), bar(), bar()]
}

/// Whether `c` is white space: one of the characters that Unicode marks as
/// `White_Space`.
pub open spec fn is_whitespace(c: char) -> bool {
    let n: u32 = c as u32;
    ||| 0x09 <= n <= 0x0D
    ||| n == 0x20
    ||| n == 0x85
    ||| n == 0xA0
    ||| n == 0x1680
    ||| 0x2000 <= n <= 0x200A
    ||| n == 0x2028
    ||| n == 0x2029
    ||| n == 0x202F
    ||| n == 0x205F
    ||| n == 0x3000
}

/// `s` without its leading white space.
pub open spec fn trim_start(s: Seq<char>) -> Seq<char>
    decreases s.len(),
{
    if s.len() > 0 && is_whitespace(s[0]) {
        trim_start(s.drop_first())
    } else {
        s
    }
}

/// `s` without its trailing white space.
pub open spec fn trim_end(s: Seq<char>) -> Seq<char>
    decreases s.len(),
{
    if s.len() > 0 && is_whitespace(s.last()) {
        trim_end(s.drop_last())
    } else {
        s
    }
}

/// `s` without its leading and trailing white space.
pub open spec fn trim(s: Seq<char>) -> Seq<char> {
    trim_end(trim_start(s))
}

/// Whether `i` is the place of the first `c` in `s`.
pub open spec fn is_first(s: Seq<char>, c: char, i: int) -> bool {
    &&& 0 <= i < s.len()
    &&& s[i] == c
    &&& forall|j: int| 0 <= j < i ==> s[j] != c
}

/// Whether `c` occurs in `s`.
pub open spec fn has_char(s: Seq<char>, c: char) -> bool {
    exists|i: int| is_first(s, c, i)
}

/// The place of the first `c` in `s`, where there is one.
pub open spec fn first_index(s: Seq<char>, c: char) -> int {
    choose|i: int| is_first(s, c, i)
}

/// The pieces into which the occurrences of `c` cut `s`, in order. There is
/// always at least one piece; a piece may be empty.
pub open spec fn split_on(s: Seq<char>, c: char) -> Seq<Seq<char>>
    decreases s.len(),
{
    if has_char(s, c) {
        let i = first_index(s, c);
        seq![s.subrange(0, i)] + split_on(s.subrange(i + 1, s.len() as int), c)
    } else {
        seq![s]
    }
}

/// The comma-separated fields of `s`.
pub open spec fn split_fields(s: Seq<char>) -> Seq<Seq<char>> {
    split_on(s, comma())
}

/// Whether three bars stand at place `i` of `s`.
pub open spec fn mark_at(s: Seq<char>, i: int) -> bool {
    &&& 0 <= i
    &&& i + 3 <= s.len()
    &&& s[i] == bar()
    &&& s[i + 1] == bar()
    &&& s[i + 2] == bar()
}

/// Whether `i` is the place of the first note separator in `s`.
pub open spec fn is_first_mark(s: Seq<char>, i: int) -> bool {
    &&& mark_at(s, i)
    &&& forall|j: int| 0 <= j < i ==> !mark_at(s, j)
}

/// Whether `s` holds a note separator.
pub open spec fn has_mark(s: Seq<char>) -> bool {
    exists|i: int| is_first_mark(s, i)
}

/// The place of the first note separator in `s`, where there is one.
pub open spec fn first_mark(s: Seq<char>) -> int {
    choose|i: int| is_first_mark(s, i)
}

/// What stands before the first note separator of a line: the whole line
/// where it has none.
pub open spec fn main_part(line: Seq<char>) -> Seq<char> {
    if has_mark(line) {
        line.subrange(0, first_mark(line))
    } else {
        line
    }
}

/// A text as a note: trimmed, and absent where nothing is left.
pub open spec fn note_of(text: Seq<char>) -> Option<Seq<char>> {
    if trim(text).len() == 0 {
        None
    } else {
        Some(trim(text))
    }
}

/// The note of a line: all that follows its first note separator, further
/// separators included, trimmed. A line without a separator, or with nothing
/// but white space behind it, has no note.
pub open spec fn note_part(line: Seq<char>) -> Option<Seq<char>> {
    if has_mark(line) {
        note_of(line.subrange(first_mark(line) + 3, line.len() as int))
    } else {
        None
    }
}

/// The non-empty members of `fields`, in order.
pub open spec fn drop_empty(fields: Seq<Seq<char>>) -> Seq<Seq<char>>
    decreases fields.len(),
{
    if fields.len() == 0 {
        fields
    } else if fields.last().len() == 0 {
        drop_empty(fields.drop_last())
    } else {
        drop_empty(fields.drop_last()).push(fields.last())
    }
}

/// The entry that a list of fields and a note make: none with fewer than two
/// fields. The first field is the word and the second the reading, both as
/// they stand; the non-empty ones among the rest are the meanings.
pub open spec fn item_of(fields: Seq<Seq<char>>, note: Option<Seq<char>>) -> Option<
    VocabularyItemView,
> {
    if fields.len() >= 2 {
        Some(
            VocabularyItemView {
                word: fields[0],
                reading: fields[1],
                meanings: drop_empty(fields.skip(2)),
                note,
            },
        )
    } else {
        None
    }
}

/// The entry that a line stands for, if it stands for one.
pub open spec fn parse_line(line: Seq<char>) -> Option<VocabularyItemView> {
    item_of(split_fields(main_part(line)), note_part(line))
}

/// The entries that a sequence of lines stands for: those of its lines that
/// stand for one, in the order of the lines.
pub open spec fn parse_lines(lines: Seq<Seq<char>>) -> Seq<VocabularyItemView>
    decreases lines.len(),
{
    if lines.len() == 0 {
        Seq::empty()
    } else {
        match parse_line(lines.last()) {
            Some(item) => parse_lines(lines.drop_last()).push(item),
            None => parse_lines(lines.drop_last()),
        }
    }
}

/// A line as it is read from a text: a carriage return directly before the
/// line terminator belongs to the terminator.
pub open spec fn strip_carriage_return(s: Seq<char>) -> Seq<char> {
    if s.len() > 0 && s.last() == carriage_return() {
        s.drop_last()
    } else {
        s
    }
}

/// The lines of a text. Each line ends with a line terminator, which is not
/// part of it; the last line may lack one. An empty text has no lines, and
/// nothing follows a final terminator.
pub open spec fn text_lines(text: Seq<char>) -> Seq<Seq<char>>
    decreases text.len(),
{
    if text.len() == 0 {
        Seq::empty()
    } else if has_char(text, newline()) {
        let i = first_index(text, newline());
        seq![strip_carriage_return(text.subrange(0, i))] + text_lines(
            text.subrange(i + 1, text.len() as int),
        )
    } else {
        seq![text]
    }
}

/// The fields joined into one text, a comma between each two.
pub open spec fn join_fields(fields: Seq<Seq<char>>) -> Seq<char>
    decreases fields.len(),
{
    if fields.len() == 0 {
        Seq::empty()
    } else if fields.len() == 1 {
        fields[0]
    } else {
        join_fields(fields.drop_last()) + seq![comma()] + fields.last()
    }
}

/// The fields of an entry: word, reading, then the meanings.
pub open spec fn fields_of(item: VocabularyItemView) -> Seq<Seq<char>> {
    seq![item.word, item.reading] + item.meanings
}

/// An entry written as a line: its fields joined by commas and, where it has
/// a note, the note separator and the note.
pub open spec fn render_line(item: VocabularyItemView) -> Seq<char> {
    match item.note {
        Some(note) => join_fields(fields_of(item)) + note_mark() + note,
        None => join_fields(fields_of(item)),
    }
}

/// The lines of a sequence of entries, in order.
pub open spec fn render_lines(items: Seq<VocabularyItemView>) -> Seq<Seq<char>> {
    Seq::new(items.len(), |i: int| render_line(items[i]))
}

} // verus!
