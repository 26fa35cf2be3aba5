use vstd::prelude::*;

verus! {

/// The mathematical value of a vocabulary entry: what its four parts hold,
/// as character sequences.
pub struct VocabularyItemView {
    pub word: Seq<char>,
    pub reading: Seq<char>,
    pub meanings: Seq<Seq<char>>,
    pub note: Option<Seq<char>>,
}

/// The character sequences held by a sequence of strings, in order.
pub open spec fn views_of(strings: Seq<String>) -> Seq<Seq<char>> {
    Seq::new(strings.len(), |i: int| strings[i]@)
}

/// The character sequence held by an optional string.
pub open spec fn view_of_option(s: Option<String>) -> Option<Seq<char>> {
    match s {
        Some(text) => Some(text@),
        None => None,
    }
}

/// The values of a sequence of entries, in order.
pub open spec fn item_views(items: Seq<VocabularyItem>) -> Seq<VocabularyItemView> {
    Seq::new(items.len(), |i: int| items[i]@)
}

/// One vocabulary entry: a headword, its phonetic reading, its meanings in
/// order, and an optional free-text note.
#[derive(Debug)]
pub struct VocabularyItem {
    word: String,
    reading: String,
    meanings: Vec<String>,
    note: Option<String>,
}

impl View for VocabularyItem {
    type V = VocabularyItemView;

    closed spec fn view(&self) -> VocabularyItemView {
        VocabularyItemView {
            word: self.word@,
            reading: self.reading@,
            meanings: views_of(self.meanings@),
            note: view_of_option(self.note),
        }
    }
}

impl VocabularyItem {
    /// Builds an entry from its four parts, which are kept as given.
    pub fn new(word: String, reading: String, meanings: Vec<String>, note: Option<String>) -> (item:
        Self)
        ensures
            item@ == (VocabularyItemView {
                word: word@,
                reading: reading@,
                meanings: views_of(meanings@),
                note: view_of_option(note),
            }),
    {
        Self { word, reading, meanings, note }
    }

    /// The headword.
    pub fn word(&self) -> (word: &str)
        ensures
            word@ == self@.word,
    {
        self.word.as_str()
    }

    /// The phonetic reading.
    pub fn reading(&self) -> (reading: &str)
        ensures
            reading@ == self@.reading,
    {
        self.reading.as_str()
    }

    /// The meanings, in the order in which they were given.
    pub fn meanings(&self) -> (meanings: &Vec<String>)
        ensures
            views_of(meanings@) == self@.meanings,
    {
        &self.meanings
    }

    /// The note, if the entry has one.
    pub fn note(&self) -> (note: Option<&str>)
        ensures
            match note {
                Some(text) => self@.note == Some(text@),
                None => self@.note is None,
            },
    {
        match &self.note {
            Some(text) => Some(text.as_str()),
            None => None,
        }
    }
}

} // verus!
