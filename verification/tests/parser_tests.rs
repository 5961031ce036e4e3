use carbon1dot1_assembler::parser::{report, ParseFault, Report};

#[test]
fn invalid_token_report() {
    assert_eq!(
        report(&ParseFault::InvalidToken { location: 7 }),
        Report {
            message: "Invalid token".to_string(),
            start: 7,
            end: 7,
            label: "Invalid token".to_string(),
        }
    );
}

#[test]
fn extra_token_report() {
    assert_eq!(
        report(&ParseFault::ExtraToken { start: 3, end: 9 }),
        Report {
            message: "Extra token".to_string(),
            start: 3,
            end: 9,
            label: "Extra token".to_string(),
        }
    );
}

#[test]
fn unrecognized_eof_report() {
    assert_eq!(
        report(&ParseFault::UnrecognizedEof {
            location: 42,
            expected: vec!["\"}\"".to_string(), "ident".to_string(), "number".to_string()],
        }),
        Report {
            message: "Unexpected end of file".to_string(),
            start: 42,
            end: 42,
            label: "Expected one of: \"}\", ident, number".to_string(),
        }
    );
}

#[test]
fn unrecognized_token_report() {
    assert_eq!(
        report(&ParseFault::UnrecognizedToken {
            start: 1,
            end: 4,
            expected: vec!["\":\"".to_string()],
        }),
        Report {
            message: "Unrecognized token".to_string(),
            start: 1,
            end: 4,
            label: "Expected one of: \":\"".to_string(),
        }
    );
    assert_eq!(
        report(&ParseFault::UnrecognizedToken { start: 0, end: 0, expected: vec![] }).label,
        "Expected one of: "
    );
}
