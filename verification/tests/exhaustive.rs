use std::io::BufRead;
use vocab_parser::parser::{parse_line, parse_text, split_lines};
use vocab_parser::render::render_line;
use vocab_parser::types::VocabularyItem;

type Parts = (String, String, Vec<String>, Option<String>);

fn parts(item: &VocabularyItem) -> Parts {
    (
        item.word().to_string(),
        item.reading().to_string(),
        item.meanings().clone(),
        item.note().map(|n| n.to_string()),
    )
}

/// Every text of at most `longest` characters over the alphabet.
fn texts(alphabet: &[char], longest: usize) -> Vec<String> {
    let mut all: Vec<String> = vec![String::new()];
    let mut last: Vec<String> = vec![String::new()];
    for _ in 0..longest {
        let mut next: Vec<String> = Vec::new();
        for text in &last {
            for c in alphabet {
                let mut longer = text.clone();
                longer.push(*c);
                next.push(longer);
            }
        }
        all.extend(next.iter().cloned());
        last = next;
    }
    all
}

/// The grammar read off with the standard library's own string functions.
fn by_hand(line: &str) -> Option<Parts> {
    let (main, note) = match line.find("|||") {
        Some(at) => {
            let rest = line[at + 3..].trim();
            (&line[..at], if rest.is_empty() { None } else { Some(rest.to_string()) })
        }
        None => (line, None),
    };
    let fields: Vec<&str> = main.split(',').collect();
    if fields.len() >= 2 {
        let meanings: Vec<String> =
            fields[2..].iter().filter(|m| !m.is_empty()).map(|m| m.to_string()).collect();
        Some((fields[0].to_string(), fields[1].to_string(), meanings, note))
    } else {
        None
    }
}

#[test]
fn short_lines_parse_as_by_hand() {
    for line in texts(&['a', ',', '|', ' ', '猫'], 6) {
        let got = parse_line(&line).map(|item| parts(&item));
        assert_eq!(got, by_hand(&line), "line {:?}", line);
    }
}

#[test]
fn longer_lines_parse_as_by_hand() {
    for line in texts(&[',', '|', 'x'], 9) {
        let got = parse_line(&line).map(|item| parts(&item));
        assert_eq!(got, by_hand(&line), "line {:?}", line);
    }
}

#[test]
fn a_line_is_valid_exactly_with_a_comma_before_the_separator() {
    for line in texts(&['a', ',', '|'], 7) {
        let main = match line.find("|||") {
            Some(at) => &line[..at],
            None => &line[..],
        };
        assert_eq!(parse_line(&line).is_some(), main.contains(','), "line {:?}", line);
    }
}

#[test]
fn parsed_items_are_clean() {
    for line in texts(&['a', ',', '|', '\t'], 7) {
        if let Some(item) = parse_line(&line) {
            assert!(!item.word().contains(',') && !item.word().contains("|||"));
            assert!(!item.reading().contains(',') && !item.reading().contains("|||"));
            for meaning in item.meanings() {
                assert!(!meaning.is_empty());
                assert!(!meaning.contains(',') && !meaning.contains("|||"));
            }
            if let Some(note) = item.note() {
                assert!(!note.is_empty());
                assert_eq!(note.trim(), note);
            }
        }
    }
}

#[test]
fn written_lines_parse_back() {
    let mut tried: usize = 0;
    let mut left_out: usize = 0;
    for line in texts(&['a', ',', '|', ' '], 8) {
        if let Some(item) = parse_line(&line) {
            let written = render_line(&item);
            let bar_before_separator = match item.note() {
                Some(note) => written[..written.len() - note.len() - 3].ends_with('|'),
                None => false,
            };
            if bar_before_separator {
                left_out += 1;
                continue;
            }
            tried += 1;
            let again = parse_line(&written).map(|item| parts(&item));
            assert_eq!(again, Some(parts(&item)), "line {:?}", line);
        }
    }
    assert!(tried > 1000);
    assert!(left_out > 0);
}

#[test]
fn word_reading_and_meanings_survive_without_a_note() {
    for line in texts(&['a', ',', '|', 'b'], 7) {
        if let Some(item) = parse_line(&line) {
            if item.note().is_none() {
                let again = parse_line(&render_line(&item)).unwrap();
                assert_eq!(parts(&again), parts(&item), "line {:?}", line);
            }
        }
    }
}

#[test]
fn texts_parse_line_by_line() {
    for text in texts(&['a', ',', '\n', '\r', '|'], 6) {
        let want: Vec<Parts> = text
            .split_inclusive('\n')
            .map(|raw| match raw.strip_suffix('\n') {
                Some(line) => line.strip_suffix('\r').unwrap_or(line),
                None => raw,
            })
            .filter_map(by_hand)
            .collect();
        let got: Vec<Parts> = parse_text(&text).iter().map(parts).collect();
        assert_eq!(got, want, "text {:?}", text);
    }
}

#[test]
fn lines_are_those_of_a_buffered_reader() {
    for text in texts(&['a', '\n', '\r', '猫'], 7) {
        let want: Vec<String> = text.as_bytes().lines().map(|line| line.unwrap()).collect();
        assert_eq!(split_lines(&text), want, "text {:?}", text);
    }
}
