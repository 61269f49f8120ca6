use afrim_engine::convert::written_document;
use afrim_engine::dictionary::{copy_texts, Dictionary};
use afrim_engine::table::MatchTable;
use afrim_engine::text::{char_is_composable, chars_of, same_text, string_of};
use afrim_engine::{Failure, TranslationRecord};

#[test]
fn texts_and_symbols() {
    assert_eq!(chars_of("aé1"), vec!['a', 'é', '1']);
    assert_eq!(chars_of(""), Vec::<char>::new());
    assert_eq!(string_of(&vec!['ʉ', '\u{304}', 'x']), "ʉ\u{304}x");
    assert_eq!(string_of(&vec![]), "");
    assert!(same_text("abc", "abc"));
    assert!(!same_text("abc", "abd"));
    assert!(!same_text("abc", "ab"));
    assert!(same_text("", ""));
}

#[test]
fn composable_characters() {
    for c in ['a', 'Z', '0', '9', 'é', 'ŋ', 'ɑ', '٣', '!', '/', ':', '@', '[', '`', '{', '~'] {
        assert!(char_is_composable(c), "{:?}", c);
    }
    for c in [' ', '\n', '\t', '\u{0}', '\u{7f}', '\u{304}', '«', '€'] {
        assert!(!char_is_composable(c), "{:?}", c);
    }
}

#[test]
fn table_lookup() {
    let data = vec![
        ("ab".to_owned(), "1".to_owned()),
        ("a".to_owned(), "2".to_owned()),
        ("b".to_owned(), "3".to_owned()),
        ("abc".to_owned(), "4".to_owned()),
    ];
    let table = MatchTable::build(&data).unwrap();
    assert_eq!(table.len(), 4);
    assert_eq!(table.lookup(&vec!['a', 'b']), Some("1".to_owned()));
    // "ab" comes before "a": the composition waits.
    assert_eq!(table.lookup(&vec!['a']), None);
    assert_eq!(table.lookup(&vec!['b']), Some("3".to_owned()));
    assert_eq!(table.lookup(&vec!['a', 'b', 'c']), Some("4".to_owned()));
    assert_eq!(table.lookup(&vec!['c']), None);
    assert_eq!(table.lookup(&vec!['a', 'b', 'c', 'd']), None);
    // The empty buffer is the start of "ab", which is not complete.
    assert_eq!(table.lookup(&vec![]), None);
    assert_eq!(MatchTable::build(&vec![]).unwrap().lookup(&vec!['a']), None);
    assert_eq!(
        MatchTable::build(&vec![("a\n".to_owned(), "x".to_owned())]).err(),
        Some(Failure::InvalidTable)
    );
}

#[test]
fn dictionary_lookup() {
    let data = vec![
        ("ab".to_owned(), vec!["x".to_owned(), "y".to_owned()]),
        ("ac".to_owned(), vec!["z".to_owned()]),
    ];
    let dictionary = Dictionary::build(&data).unwrap();
    assert_eq!(dictionary.len(), 2);
    let record = |input: &str, candidate: &str| TranslationRecord {
        input: input.to_owned(),
        remainder: String::new(),
        candidates: vec![candidate.to_owned()],
        auto_commit: true,
    };
    assert_eq!(dictionary.lookup("ab", true, None), vec![record("ab", "x"), record("ab", "y")]);
    assert_eq!(
        dictionary.lookup("ab", true, Some(1)),
        vec![record("ab", "x"), record("ab", "y"), record("ac", "z")]
    );
    assert_eq!(
        dictionary.lookup("ad", true, Some(1)),
        vec![record("ab", "x"), record("ab", "y"), record("ac", "z")]
    );
    assert_eq!(dictionary.lookup("dd", true, Some(1)), vec![]);
    assert_eq!(dictionary.lookup("a", true, Some(5)), vec![]);
    assert_eq!(dictionary.lookup("ab", false, None)[0].auto_commit, false);
    assert_eq!(record("ab", "x").duplicate(), record("ab", "x"));
    assert_eq!(copy_texts(&vec!["a".to_owned(), "".to_owned()]), vec!["a".to_owned(), "".to_owned()]);
}

#[test]
fn written_document_maps_the_writer_failure() {
    assert_eq!(written_document(Ok("{}".to_owned())), Ok("{}".to_owned()));
    let failure = serde_json::from_str::<i32>("x").unwrap_err();
    let words = failure.to_string();
    assert_eq!(written_document(Err(failure)), Err(Failure::InvalidDocument(words)));
}
