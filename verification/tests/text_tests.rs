use cpo_analyzer::error::CpoError;
use cpo_analyzer::text::{contains_subsequence, extract_time_fields, parse_u64, time_row_field};

fn marker() -> Vec<u8> {
    b"particle_LPO".to_vec()
}

#[test]
fn parses_plain_numbers() {
    assert_eq!(parse_u64(&b"0".to_vec()), Some(0));
    assert_eq!(parse_u64(&b"123".to_vec()), Some(123));
    assert_eq!(parse_u64(&b"007".to_vec()), Some(7));
    assert_eq!(parse_u64(&b"18446744073709551615".to_vec()), Some(u64::MAX));
}

#[test]
fn rejects_non_numbers() {
    assert_eq!(parse_u64(&b"".to_vec()), None);
    assert_eq!(parse_u64(&b"12a".to_vec()), None);
    assert_eq!(parse_u64(&b"-3".to_vec()), None);
    assert_eq!(parse_u64(&b" 3".to_vec()), None);
    // One past u64::MAX.
    assert_eq!(parse_u64(&b"18446744073709551616".to_vec()), None);
    assert_eq!(parse_u64(&b"99999999999999999999999".to_vec()), None);
}

#[test]
fn finds_subsequences() {
    let hay = b"12 0.5 particle_LPO data".to_vec();
    assert!(contains_subsequence(&hay, &marker()));
    assert!(!contains_subsequence(&hay, &b"particle_CPO".to_vec()));
    assert!(contains_subsequence(&hay, &Vec::new()));
    assert!(!contains_subsequence(&b"ab".to_vec(), &b"abc".to_vec()));
}

#[test]
fn time_row_takes_second_field() {
    let line = b" 12  0.125 particle_LPO more".to_vec();
    let field = time_row_field(&line, &marker()).unwrap().unwrap();
    assert_eq!(field, b"0.125".to_vec());
}

#[test]
fn time_row_skips_comments_and_unmarked_rows() {
    assert_eq!(
        time_row_field(&b"# 12 0.5 particle_LPO".to_vec(), &marker()),
        Ok(None)
    );
    assert_eq!(time_row_field(&b"12 0.5 other".to_vec(), &marker()), Ok(None));
    assert_eq!(time_row_field(&b"   ".to_vec(), &marker()), Ok(None));
}

#[test]
fn time_row_without_field_is_malformed() {
    assert_eq!(
        time_row_field(&b"particle_LPO".to_vec(), &marker()),
        Err(CpoError::MissingTimeField)
    );
}

#[test]
fn extracts_fields_in_row_order() {
    let lines: Vec<Vec<u8>> = vec![
        b"# header particle_LPO".to_vec(),
        b"0 0.0 particle_LPO x".to_vec(),
        b"1 12.5 nothing here".to_vec(),
        b"1 1.5 particle_LPO y".to_vec(),
        b"2 2.25 particle_LPO z".to_vec(),
    ];
    let fields = extract_time_fields(&lines, &marker()).unwrap();
    assert_eq!(
        fields,
        vec![b"0.0".to_vec(), b"1.5".to_vec(), b"2.25".to_vec()]
    );
}

#[test]
fn extraction_aborts_on_malformed_marker_row() {
    let lines: Vec<Vec<u8>> = vec![
        b"0 0.0 particle_LPO".to_vec(),
        b"particle_LPO".to_vec(),
    ];
    assert_eq!(
        extract_time_fields(&lines, &marker()),
        Err(CpoError::MissingTimeField)
    );
}

#[test]
fn error_descriptions_name_the_failure() {
    assert_eq!(
        CpoError::MissingTimeField.describe(),
        "time-index row holds no time field"
    );
    assert_eq!(
        CpoError::UndecodableStream.describe(),
        "could not decompress data stream"
    );
}
