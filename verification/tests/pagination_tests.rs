use rust_web_dev::errors::{CustomError, IntErrorKind};
use rust_web_dev::types::pagination::{extract_pagination, parse_i32, parse_u32, Pagination};

fn params(entries: &[(&str, &str)]) -> Vec<(String, String)> {
    entries.iter().map(|(k, v)| (k.to_string(), v.to_string())).collect()
}

#[test]
fn valid_pagination() {
    let mut params: Vec<(String, String)> = Vec::new();
    params.push((String::from("limit"), String::from("1")));
    params.push((String::from("offset"), String::from("1")));
    let pagination_result = extract_pagination(&params);
    let expected = Pagination {
        limit: Some(1),
        offset: 1,
    };
    assert_eq!(pagination_result.unwrap(), expected);
}

#[test]
fn missing_offset_parameter() {
    let mut params: Vec<(String, String)> = Vec::new();
    params.push((String::from("limit"), String::from("1")));

    let pagination_result = extract_pagination(&params).unwrap_err().message();
    let expected = CustomError::MissingParameters.message();

    assert_eq!(pagination_result, expected);
}

#[test]
fn missing_limit_parameter() {
    let ps = params(&[("offset", "3")]);
    let err = extract_pagination(&ps).unwrap_err();
    assert!(matches!(err, CustomError::MissingParameters));
}

#[test]
fn pagination_rejects_non_numeric_limit() {
    let ps = params(&[("limit", "abc"), ("offset", "0")]);
    match extract_pagination(&ps).unwrap_err() {
        CustomError::ParseError(f) => {
            assert_eq!(f.input, "abc");
            assert_eq!(f.kind, IntErrorKind::InvalidDigit);
        }
        other => panic!("expected a parse error, got {:?}", other),
    }
}

#[test]
fn pagination_rejects_empty_offset() {
    let ps = params(&[("limit", "1"), ("offset", "")]);
    match extract_pagination(&ps).unwrap_err() {
        CustomError::ParseError(f) => {
            assert_eq!(f.input, "");
            assert_eq!(f.kind, IntErrorKind::Empty);
        }
        other => panic!("expected a parse error, got {:?}", other),
    }
}

#[test]
fn pagination_limit_error_reported_first() {
    let ps = params(&[("limit", "x"), ("offset", "y")]);
    match extract_pagination(&ps).unwrap_err() {
        CustomError::ParseError(f) => assert_eq!(f.input, "x"),
        other => panic!("expected a parse error, got {:?}", other),
    }
}

#[test]
fn parse_u32_reads_plain_and_signed_numbers() {
    assert_eq!(parse_u32("0"), Ok(0));
    assert_eq!(parse_u32("4294967295"), Ok(u32::MAX));
    assert_eq!(parse_u32("+17"), Ok(17));
    assert_eq!(parse_u32(""), Err(IntErrorKind::Empty));
    assert_eq!(parse_u32("+"), Err(IntErrorKind::InvalidDigit));
    assert_eq!(parse_u32("12x"), Err(IntErrorKind::InvalidDigit));
    assert_eq!(parse_u32("4294967296"), Err(IntErrorKind::PosOverflow));
    assert_eq!(parse_u32("-1"), Err(IntErrorKind::InvalidDigit));
}

#[test]
fn parse_i32_reads_signed_numbers() {
    assert_eq!(parse_i32("0"), Ok(0));
    assert_eq!(parse_i32("-1"), Ok(-1));
    assert_eq!(parse_i32("+17"), Ok(17));
    assert_eq!(parse_i32("2147483647"), Ok(i32::MAX));
    assert_eq!(parse_i32("-2147483648"), Ok(i32::MIN));
    assert_eq!(parse_i32(""), Err(IntErrorKind::Empty));
    assert_eq!(parse_i32("-"), Err(IntErrorKind::InvalidDigit));
    assert_eq!(parse_i32("1x"), Err(IntErrorKind::InvalidDigit));
    assert_eq!(parse_i32("2147483648"), Err(IntErrorKind::PosOverflow));
    assert_eq!(parse_i32("-2147483649"), Err(IntErrorKind::NegOverflow));
}

#[test]
fn first_occurrence_of_a_parameter_wins() {
    let ps = params(&[("limit", "2"), ("limit", "9"), ("offset", "1")]);
    let p = extract_pagination(&ps).unwrap();
    assert_eq!(p.limit, Some(2));
    assert_eq!(p.offset, 1);
}
