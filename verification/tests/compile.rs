use binmatch::BinmatchError;
use binmatch::Pattern;

#[test]
fn invalid_character_is_reported() {
    match Pattern::new("GG") {
        Err(BinmatchError::PatternParseError(c)) => assert_eq!(c, 'G'),
        other => panic!("expected a parse error, got {:?}", other),
    }
}

#[test]
fn first_invalid_character_wins() {
    match Pattern::new("00 xG 00") {
        Err(BinmatchError::PatternParseError(c)) => assert_eq!(c, 'X'),
        other => panic!("expected a parse error, got {:?}", other),
    }
}

#[test]
fn lowercase_is_reported_uppercased() {
    match Pattern::new("0g") {
        Err(BinmatchError::PatternParseError(c)) => assert_eq!(c, 'G'),
        other => panic!("expected a parse error, got {:?}", other),
    }
}

#[test]
fn hex_digits_are_case_insensitive() {
    let pattern = Pattern::new("de ad ??").unwrap();
    let matches = pattern.find_matches(vec![0xDE, 0xAD, 99]);
    assert_eq!(matches, vec![99]);
}

#[test]
fn spaces_are_stripped_anywhere() {
    let pattern = Pattern::new("? ?").unwrap();
    assert_eq!(pattern.len(), 1);
    assert_eq!(pattern.find_matches(vec![5]), vec![5]);
}

#[test]
fn compiled_length_counts_elements() {
    let pattern = Pattern::new("00 00 ??").unwrap();
    assert_eq!(pattern.len(), 3);
    assert!(!pattern.is_empty());
}

#[test]
fn lone_placeholder_half_is_rejected() {
    assert!(matches!(Pattern::new("0?"), Err(BinmatchError::MisplacedPlaceholder)));
    assert!(matches!(Pattern::new("?0"), Err(BinmatchError::MisplacedPlaceholder)));
    assert!(matches!(Pattern::new("???"), Err(BinmatchError::MisplacedPlaceholder)));
}

#[test]
fn question_mark_alone_does_not_raise_parse_error() {
    match Pattern::new("?") {
        Err(BinmatchError::MisplacedPlaceholder) => {},
        other => panic!("expected the placeholder rejection, got {:?}", other),
    }
}
