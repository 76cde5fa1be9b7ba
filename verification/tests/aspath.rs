use bgpstream::aspath::{as_path_from_str, PathEntry};
use bgpstream::element::ElementError;

#[test]
fn as_path_round_trip() {
    let r = as_path_from_str("100 200 {300,400} 500").unwrap();
    assert_eq!(
        r,
        vec![
            PathEntry::As(100),
            PathEntry::As(200),
            PathEntry::Collection(vec![300, 400]),
            PathEntry::As(500),
        ]
    );
}

#[test]
fn as_path_non_numeric_token_fails() {
    assert_eq!(as_path_from_str("100 foo"), Err(ElementError::AsnParseError));
    assert_eq!(as_path_from_str("12a"), Err(ElementError::AsnParseError));
}

#[test]
fn as_path_single_hop() {
    assert_eq!(as_path_from_str("64512"), Ok(vec![PathEntry::As(64512)]));
}

#[test]
fn as_path_plus_sign_accepted() {
    assert_eq!(as_path_from_str("+5"), Ok(vec![PathEntry::As(5)]));
}

#[test]
fn as_path_empty_text_fails() {
    assert_eq!(as_path_from_str(""), Err(ElementError::AsnParseError));
}

#[test]
fn as_path_double_space_fails() {
    assert_eq!(as_path_from_str("1  2"), Err(ElementError::AsnParseError));
}

#[test]
fn as_path_group_delimiters() {
    assert_eq!(
        as_path_from_str("(300,400)"),
        Ok(vec![PathEntry::Collection(vec![300, 400])])
    );
    assert_eq!(
        as_path_from_str("[300]"),
        Ok(vec![PathEntry::Collection(vec![300])])
    );
    // An unterminated group still parses: delimiters are trimmed, not matched.
    assert_eq!(
        as_path_from_str("{300"),
        Ok(vec![PathEntry::Collection(vec![300])])
    );
}

#[test]
fn as_path_empty_group_fails() {
    assert_eq!(as_path_from_str("{}"), Err(ElementError::AsnParseError));
    assert_eq!(as_path_from_str("{1,}"), Err(ElementError::AsnParseError));
}

#[test]
fn as_path_u32_bounds() {
    assert_eq!(
        as_path_from_str("4294967295"),
        Ok(vec![PathEntry::As(4294967295)])
    );
    assert_eq!(as_path_from_str("4294967296"), Err(ElementError::AsnParseError));
    assert_eq!(as_path_from_str("-1"), Err(ElementError::AsnParseError));
}

#[test]
fn as_path_group_order_preserved() {
    let r = as_path_from_str("{400,300,400}").unwrap();
    assert_eq!(r, vec![PathEntry::Collection(vec![400, 300, 400])]);
}
