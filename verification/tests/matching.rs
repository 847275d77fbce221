use binmatch::Pattern;

#[test]
fn test_pattern_chunk_matching() {
    let pattern = Pattern::new("00 ?? 00 ??").unwrap();
    let matches = pattern.match_chunk(vec![0, 42, 0, 13]);
    assert_eq!(matches, vec![(42, 1), (13, 3)])
}

#[test]
fn test_pattern_whole_matching() {
    let pattern = Pattern::new("DEADBEEF ??").unwrap();
    let mut data: Vec<u8> = vec![0xDE, 0xAD, 0xBE, 0xEF, 23];
    for i in 0..100 {
        data.insert(0, i);
    }
    for i in 0..100 {
        data.push(i);
    }
    let matches = pattern.find_matches_with_index(data);
    assert_eq!(matches, vec![(23, 100 + 4)]);
}

#[test]
fn test_convenience_method() {
    let pattern = Pattern::new("DEADBEEF ??").unwrap();
    let mut data: Vec<u8> = vec![0xDE, 0xAD, 0xBE, 0xEF, 23];
    for i in 0..100 {
        data.insert(0, i);
    }
    for i in 0..100 {
        data.push(i);
    }
    let matches = pattern.find_matches(data);
    assert_eq!(matches, vec![23]);
}

#[test]
fn tests_test_pattern_chunk_matching() {
    let pattern = Pattern::new("00 ?? 00 ??").unwrap();
    let matches = pattern.match_chunk([0, 42, 0, 13].to_vec());
    assert_eq!(matches, [(42, 1), (13, 3)].to_vec())
}

#[test]
fn tests_test_pattern_whole_matching() {
    let pattern = Pattern::new("DEADBEEF ??").unwrap();
    let mut data: Vec<u8> = [0xDE, 0xAD, 0xBE, 0xEF, 23].to_vec();
    for i in 0..100 {
        data.insert(0, i);
    }
    for i in 0..100 {
        data.push(i);
    }
    let matches = pattern.find_matches_with_index(data);
    assert_eq!(matches, [(23, 100 + 4)].to_vec());
}

#[test]
fn tests_test_convenience_method() {
    let pattern = Pattern::new("DEADBEEF ??").unwrap();
    let mut data: Vec<u8> = [0xDE, 0xAD, 0xBE, 0xEF, 23].to_vec();
    for i in 0..100 {
        data.insert(0, i);
    }
    for i in 0..100 {
        data.push(i);
    }
    let matches = pattern.find_matches(data);
    assert_eq!(matches, [23].to_vec());
}

#[test]
fn placeholder_after_literals() {
    let pattern = Pattern::new("00 00 ??").unwrap();
    let data = vec![0x12, 0x13, 0x14, 0x00, 0x00, 0x42, 0x15];
    let matches = pattern.find_matches(data);
    assert_eq!(matches, vec![0x42]);
}

#[test]
fn no_placeholder_match_is_empty() {
    let pattern = Pattern::new("FF").unwrap();
    let matches = pattern.find_matches(vec![0xFF]);
    assert_eq!(matches, Vec::<u8>::new());
}

#[test]
fn overlapping_windows_report_in_order() {
    let pattern = Pattern::new("?? 00").unwrap();
    let matches = pattern.find_matches_with_index(vec![1, 0, 0]);
    assert_eq!(matches, vec![(1, 0), (0, 1)]);
}

#[test]
fn haystack_shorter_than_pattern() {
    let pattern = Pattern::new("00 00 ??").unwrap();
    assert_eq!(pattern.find_matches(vec![0, 0]), Vec::<u8>::new());
    assert_eq!(pattern.find_matches(vec![]), Vec::<u8>::new());
}

#[test]
fn empty_pattern_scans_to_nothing() {
    let pattern = Pattern::new("").unwrap();
    assert!(pattern.is_empty());
    assert_eq!(pattern.len(), 0);
    assert_eq!(pattern.find_matches(vec![1, 2, 3]), Vec::<u8>::new());
    assert_eq!(pattern.find_matches_with_index(vec![1, 2, 3]), Vec::<(u8, usize)>::new());
}

#[test]
fn chunk_short_circuits_on_literal_mismatch() {
    let pattern = Pattern::new("?? 00 ??").unwrap();
    let matches = pattern.match_chunk(vec![7, 1, 9]);
    assert_eq!(matches, Vec::<(u8, usize)>::new());
}

#[test]
fn scan_is_deterministic() {
    let pattern = Pattern::new("DE ??").unwrap();
    let data = vec![0xDE, 5, 0xDE, 6];
    let first = pattern.find_matches_with_index(data.clone());
    let second = pattern.find_matches_with_index(data);
    assert_eq!(first, second);
    assert_eq!(first, vec![(5, 1), (6, 3)]);
}

#[test]
fn trailing_nibble_matches_as_literal() {
    let pattern = Pattern::new("?? F").unwrap();
    assert_eq!(pattern.len(), 2);
    assert_eq!(pattern.match_chunk(vec![7, 15]), vec![(7, 0)]);
    assert_eq!(pattern.find_matches_with_index(vec![3, 15, 9]), vec![(3, 0)]);
}
