use vocab_parser::parser::{item_from_fields, parse_line, parse_lines, parse_text, split_lines};
use vocab_parser::render::{render_line, render_lines};
use vocab_parser::scan::{
    find_char, find_mark, is_whitespace, slice_of, split_range, to_chars, trim_bounds,
};
use vocab_parser::types::VocabularyItem;

fn parts(item: &VocabularyItem) -> (String, String, Vec<String>, Option<String>) {
    (
        item.word().to_string(),
        item.reading().to_string(),
        item.meanings().clone(),
        item.note().map(|n| n.to_string()),
    )
}

fn expect(word: &str, reading: &str, meanings: &[&str], note: Option<&str>) -> (String, String, Vec<String>, Option<String>) {
    (
        word.to_string(),
        reading.to_string(),
        meanings.iter().map(|m| m.to_string()).collect(),
        note.map(|n| n.to_string()),
    )
}

#[test]
fn new_keeps_its_parts() {
    let item = VocabularyItem::new(
        "猫".to_string(),
        "neko".to_string(),
        vec!["cat".to_string(), "".to_string()],
        Some("".to_string()),
    );
    assert_eq!(item.word(), "猫");
    assert_eq!(item.reading(), "neko");
    assert_eq!(item.meanings(), &vec!["cat".to_string(), "".to_string()]);
    assert_eq!(item.note(), Some(""));
}

#[test]
fn well_formed_line_gives_one_item() {
    let item = parse_line("w,r,m1,m2").unwrap();
    assert_eq!(parts(&item), expect("w", "r", &["m1", "m2"], None));
}

#[test]
fn minimal_line_is_valid() {
    let item = parse_line("word,reading").unwrap();
    assert_eq!(parts(&item), expect("word", "reading", &[], None));
}

#[test]
fn short_lines_give_nothing() {
    assert!(parse_line("").is_none());
    assert!(parse_line("onlyword").is_none());
    assert!(parse_line("onlyword|||a,b").is_none());
    assert!(parse_line("|||note").is_none());
}

#[test]
fn word_and_reading_are_taken_as_they_stand() {
    let item = parse_line(", r ,x").unwrap();
    assert_eq!(parts(&item), expect("", " r ", &["x"], None));
    let item = parse_line(",").unwrap();
    assert_eq!(parts(&item), expect("", "", &[], None));
}

#[test]
fn whitespace_only_note_is_absent() {
    let item = parse_line("猫,neko,cat|||  ").unwrap();
    assert_eq!(parts(&item), expect("猫", "neko", &["cat"], None));
    let item = parse_line("猫,neko,cat|||").unwrap();
    assert_eq!(parts(&item), expect("猫", "neko", &["cat"], None));
}

#[test]
fn note_is_extracted() {
    let item = parse_line("猫,neko,cat|||domestic animal").unwrap();
    assert_eq!(parts(&item), expect("猫", "neko", &["cat"], Some("domestic animal")));
}

#[test]
fn note_is_trimmed_of_unicode_whitespace() {
    let item = parse_line("a,b|||\u{3000}\t note text \u{a0}\r").unwrap();
    assert_eq!(parts(&item), expect("a", "b", &[], Some("note text")));
}

#[test]
fn note_holds_all_after_the_first_separator() {
    let item = parse_line("a,b,c|||first|||second, third").unwrap();
    assert_eq!(parts(&item), expect("a", "b", &["c"], Some("first|||second, third")));
    let item = parse_line("a,b||||x").unwrap();
    assert_eq!(parts(&item), expect("a", "b", &[], Some("|x")));
}

#[test]
fn fewer_than_three_bars_are_no_separator() {
    let item = parse_line("a,b||c,d|e").unwrap();
    assert_eq!(parts(&item), expect("a", "b||c", &["d|e"], None));
}

#[test]
fn empty_meanings_are_dropped() {
    let item = parse_line("犬,inu,dog,,").unwrap();
    assert_eq!(parts(&item), expect("犬", "inu", &["dog"], None));
    let item = parse_line("犬,inu,,dog,,hound,").unwrap();
    assert_eq!(parts(&item), expect("犬", "inu", &["dog", "hound"], None));
}

#[test]
fn meanings_are_not_trimmed() {
    let item = parse_line("a,b, c , ").unwrap();
    assert_eq!(parts(&item), expect("a", "b", &[" c ", " "], None));
}

#[test]
fn order_is_kept_among_invalid_lines() {
    let lines: Vec<String> = ["x", "a,1", "", "b,2", "no comma here", "a,1", "c,3|||n"]
        .iter()
        .map(|l| l.to_string())
        .collect();
    let items = parse_lines(&lines);
    let got: Vec<_> = items.iter().map(parts).collect();
    assert_eq!(
        got,
        vec![
            expect("a", "1", &[], None),
            expect("b", "2", &[], None),
            expect("a", "1", &[], None),
            expect("c", "3", &[], Some("n")),
        ]
    );
}

#[test]
fn no_lines_give_no_items() {
    assert!(parse_lines(&Vec::new()).is_empty());
    assert!(parse_text("").is_empty());
    assert!(parse_text("\n\n\n").is_empty());
}

#[test]
fn text_scenario() {
    let items = parse_text("猫,neko,cat,feline\n犬,inu\n\nbird,tori,flying animal|||pet note");
    let got: Vec<_> = items.iter().map(parts).collect();
    assert_eq!(
        got,
        vec![
            expect("猫", "neko", &["cat", "feline"], None),
            expect("犬", "inu", &[], None),
            expect("bird", "tori", &["flying animal"], Some("pet note")),
        ]
    );
}

#[test]
fn lines_of_a_text() {
    assert_eq!(split_lines(""), Vec::<String>::new());
    assert_eq!(split_lines("a"), vec!["a".to_string()]);
    assert_eq!(split_lines("a\n"), vec!["a".to_string()]);
    assert_eq!(split_lines("a\n\nb"), vec!["a".to_string(), "".to_string(), "b".to_string()]);
    assert_eq!(split_lines("a\r\nb\r\n"), vec!["a".to_string(), "b".to_string()]);
    assert_eq!(split_lines("a\r"), vec!["a\r".to_string()]);
    assert_eq!(split_lines("\r\n"), vec!["".to_string()]);
    assert_eq!(split_lines("a\r\r\n"), vec!["a\r".to_string()]);
}

#[test]
fn lines_agree_with_std() {
    for text in ["", "a", "a\n", "\n", "\n\n", "a\r\nb", "猫,neko\r\n犬,inu\n", "x\ry\n"] {
        let want: Vec<String> = text.lines().map(|l| l.to_string()).collect();
        assert_eq!(split_lines(text), want);
    }
}

#[test]
fn carriage_return_before_terminator_is_dropped() {
    let items = parse_text("a,b,c\r\nd,e\r\n");
    let got: Vec<_> = items.iter().map(parts).collect();
    assert_eq!(got, vec![expect("a", "b", &["c"], None), expect("d", "e", &[], None)]);
}

#[test]
fn whitespace_agrees_with_std() {
    for n in 0u32..=0x10FFFF {
        if let Some(c) = char::from_u32(n) {
            assert_eq!(is_whitespace(c), c.is_whitespace());
        }
    }
}

#[test]
fn characters_of_a_text() {
    assert_eq!(to_chars("猫,ne"), vec!['猫', ',', 'n', 'e']);
    assert_eq!(to_chars(""), Vec::<char>::new());
}

#[test]
fn slices_count_characters() {
    assert_eq!(slice_of("猫猫,neko", 1, 4), "猫,n");
    assert_eq!(slice_of("abc", 3, 3), "");
}

#[test]
fn finding_a_character() {
    let chars = to_chars("ab,cd,e");
    assert_eq!(find_char(&chars, 0, 7, ','), 2);
    assert_eq!(find_char(&chars, 3, 7, ','), 5);
    assert_eq!(find_char(&chars, 3, 5, ','), 5);
    assert_eq!(find_char(&chars, 6, 7, ','), 7);
}

#[test]
fn finding_the_separator() {
    assert_eq!(find_mark(&to_chars("ab|||cd|||")), Some(2));
    assert_eq!(find_mark(&to_chars("ab||cd|")), None);
    assert_eq!(find_mark(&to_chars("||")), None);
    assert_eq!(find_mark(&to_chars("a||||")), Some(1));
}

#[test]
fn trimming_bounds() {
    let chars = to_chars("xx  ab c \t");
    assert_eq!(trim_bounds(&chars, 2, 10), (4, 8));
    assert_eq!(trim_bounds(&chars, 0, 10), (0, 8));
    assert_eq!(trim_bounds(&chars, 2, 4), (4, 4));
    assert_eq!(trim_bounds(&chars, 3, 3), (3, 3));
}

#[test]
fn splitting_a_range() {
    let text = "a,,bc,|||n,m";
    let chars = to_chars(text);
    assert_eq!(
        split_range(text, &chars, 0, 6, ','),
        vec!["a".to_string(), "".to_string(), "bc".to_string(), "".to_string()]
    );
    assert_eq!(split_range(text, &chars, 0, 0, ','), vec!["".to_string()]);
    assert_eq!(split_range(text, &chars, 3, 5, ','), vec!["bc".to_string()]);
}

#[test]
fn items_from_fields() {
    let fields: Vec<String> = ["w", "r", "", "m", ""].iter().map(|f| f.to_string()).collect();
    let item = item_from_fields(&fields, Some("n".to_string())).unwrap();
    assert_eq!(parts(&item), expect("w", "r", &["m"], Some("n")));
    assert!(item_from_fields(&vec!["w".to_string()], None).is_none());
    assert!(item_from_fields(&Vec::new(), Some("n".to_string())).is_none());
}

#[test]
fn rendering_a_line() {
    let item = VocabularyItem::new(
        "bird".to_string(),
        "tori".to_string(),
        vec!["flying animal".to_string(), "pet".to_string()],
        Some("pet note".to_string()),
    );
    assert_eq!(render_line(&item), "bird,tori,flying animal,pet|||pet note");
    let item = VocabularyItem::new("犬".to_string(), "inu".to_string(), Vec::new(), None);
    assert_eq!(render_line(&item), "犬,inu");
}

#[test]
fn rendering_and_parsing_again_gives_the_same_items() {
    let text = "猫,neko,cat,feline\n犬,inu,,dog,\n\nbird,tori,flying animal|||  pet note \nx|,y|||z";
    let first = parse_text(text);
    let lines = render_lines(&first);
    assert_eq!(
        lines,
        vec![
            "猫,neko,cat,feline".to_string(),
            "犬,inu,dog".to_string(),
            "bird,tori,flying animal|||pet note".to_string(),
            "x|,y|||z".to_string(),
        ]
    );
    let second = parse_lines(&lines);
    let a: Vec<_> = first.iter().map(parts).collect();
    let b: Vec<_> = second.iter().map(parts).collect();
    assert_eq!(a, b);
}

#[test]
fn a_bar_before_the_written_separator_moves_it() {
    let item = parse_line("a,b|,|||note").unwrap();
    assert_eq!(parts(&item), expect("a", "b|", &[], Some("note")));
    let line = render_line(&item);
    assert_eq!(line, "a,b||||note");
    let again = parse_line(&line).unwrap();
    assert_eq!(parts(&again), expect("a", "b", &[], Some("|note")));
}
