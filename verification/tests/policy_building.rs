use bestbefore::date::CalendarMonth;
use bestbefore::date::DateError;
use bestbefore::policy::{Policy, PolicyError};
use bestbefore::RawArgument;

fn month(year: i32, month: u32) -> CalendarMonth {
    CalendarMonth { year, month }
}

fn date(text: &str) -> RawArgument {
    RawArgument::Positional(text.to_string())
}

fn named(key: &str, value: &str) -> RawArgument {
    RawArgument::Named { key: key.to_string(), value: value.to_string() }
}

#[test]
fn warning_date_alone_makes_a_policy() {
    let built = Policy::from_arguments(&vec![date("03.2024")]);
    assert_eq!(
        built,
        Ok(Policy { warning_date: month(2024, 3), expiry_date: None, message: None })
    );
}

#[test]
fn warning_and_expiry_make_a_policy() {
    let built = Policy::from_arguments(&vec![date("01.2023"), named("expires", "12.2023")]);
    assert_eq!(
        built,
        Ok(Policy {
            warning_date: month(2023, 1),
            expiry_date: Some(month(2023, 12)),
            message: None,
        })
    );
}

#[test]
fn message_is_kept_as_given() {
    let built = Policy::from_arguments(&vec![
        date("02.2023"),
        named("message", "Please use new_api() instead"),
    ]);
    assert_eq!(
        built,
        Ok(Policy {
            warning_date: month(2023, 2),
            expiry_date: None,
            message: Some("Please use new_api() instead".to_string()),
        })
    );
}

#[test]
fn named_arguments_come_in_any_order() {
    let one = Policy::from_arguments(&vec![
        date("01.2026"),
        named("expires", "12.2030"),
        named("message", "gone"),
    ]);
    let other = Policy::from_arguments(&vec![
        date("01.2026"),
        named("message", "gone"),
        named("expires", "12.2030"),
    ]);
    assert_eq!(one, other);
    assert_eq!(
        one,
        Ok(Policy {
            warning_date: month(2026, 1),
            expiry_date: Some(month(2030, 12)),
            message: Some("gone".to_string()),
        })
    );
}

#[test]
fn expires_alone_sets_the_warning_date_too() {
    let built = Policy::from_arguments(&vec![named("expires", "01.2028")]);
    assert_eq!(
        built,
        Ok(Policy {
            warning_date: month(2028, 1),
            expiry_date: Some(month(2028, 1)),
            message: None,
        })
    );
    let with_message = Policy::from_arguments(&vec![
        named("expires", "01.2028"),
        named("message", "This code must be removed by 2028"),
    ]);
    assert_eq!(
        with_message,
        Ok(Policy {
            warning_date: month(2028, 1),
            expiry_date: Some(month(2028, 1)),
            message: Some("This code must be removed by 2028".to_string()),
        })
    );
}

#[test]
fn explicit_equal_dates_are_refused() {
    let built = Policy::from_arguments(&vec![date("01.2028"), named("expires", "01.2028")]);
    assert_eq!(
        built,
        Err(PolicyError::InvalidDateOrdering {
            warning_date: month(2028, 1),
            expiry_date: month(2028, 1),
        })
    );
}

#[test]
fn scenario_equal_warning_and_expiry_fails_with_an_ordering_error() {
    let built = Policy::from_arguments(&vec![date("06.2024"), named("expires", "06.2024")]);
    assert_eq!(
        built,
        Err(PolicyError::InvalidDateOrdering {
            warning_date: month(2024, 6),
            expiry_date: month(2024, 6),
        })
    );
}

#[test]
fn expiry_before_warning_is_refused() {
    let built = Policy::from_arguments(&vec![date("12.2023"), named("expires", "01.2023")]);
    assert_eq!(
        built,
        Err(PolicyError::InvalidDateOrdering {
            warning_date: month(2023, 12),
            expiry_date: month(2023, 1),
        })
    );
}

#[test]
fn no_arguments_are_missing_parameters() {
    assert_eq!(Policy::from_arguments(&vec![]), Err(PolicyError::MissingParameters));
}

#[test]
fn message_alone_is_missing_parameters() {
    assert_eq!(
        Policy::from_arguments(&vec![named("message", "hello")]),
        Err(PolicyError::MissingParameters)
    );
}

#[test]
fn malformed_warning_date_is_reported_with_its_text() {
    assert_eq!(
        Policy::from_arguments(&vec![date("13.2024")]),
        Err(PolicyError::MalformedDate {
            text: "13.2024".to_string(),
            reason: DateError::MonthOutOfRange,
        })
    );
    assert_eq!(
        Policy::from_arguments(&vec![date("March 2024"), named("expires", "12.2030")]),
        Err(PolicyError::MalformedDate {
            text: "March 2024".to_string(),
            reason: DateError::Format,
        })
    );
}

#[test]
fn malformed_expiry_date_is_reported_with_its_text() {
    assert_eq!(
        Policy::from_arguments(&vec![date("01.2024"), named("expires", "12.20x0")]),
        Err(PolicyError::MalformedDate { text: "12.20x0".to_string(), reason: DateError::Year })
    );
}

#[test]
fn unknown_key_is_reported() {
    assert_eq!(
        Policy::from_arguments(&vec![date("01.2024"), named("expire", "12.2030")]),
        Err(PolicyError::UnknownParameter { key: "expire".to_string() })
    );
    assert_eq!(
        Policy::from_arguments(&vec![named("Expires", "12.2030")]),
        Err(PolicyError::UnknownParameter { key: "Expires".to_string() })
    );
}

#[test]
fn date_after_a_named_argument_is_misplaced() {
    assert_eq!(
        Policy::from_arguments(&vec![named("expires", "12.2030"), date("01.2024")]),
        Err(PolicyError::DuplicateOrMisplacedArgument { position: 1 })
    );
}

#[test]
fn second_date_is_misplaced() {
    assert_eq!(
        Policy::from_arguments(&vec![date("01.2024"), date("02.2024")]),
        Err(PolicyError::DuplicateOrMisplacedArgument { position: 1 })
    );
}

#[test]
fn repeated_key_is_refused() {
    assert_eq!(
        Policy::from_arguments(&vec![
            date("01.2024"),
            named("expires", "12.2030"),
            named("expires", "12.2031"),
        ]),
        Err(PolicyError::DuplicateOrMisplacedArgument { position: 2 })
    );
    assert_eq!(
        Policy::from_arguments(&vec![
            date("01.2024"),
            named("message", "a"),
            named("expires", "12.2030"),
            named("message", "b"),
        ]),
        Err(PolicyError::DuplicateOrMisplacedArgument { position: 3 })
    );
}

#[test]
fn first_fault_in_the_list_decides() {
    assert_eq!(
        Policy::from_arguments(&vec![date("bad"), named("nope", "x"), date("01.2024")]),
        Err(PolicyError::MalformedDate { text: "bad".to_string(), reason: DateError::Format })
    );
    assert_eq!(
        Policy::from_arguments(&vec![date("01.2024"), named("nope", "x"), named("expires", "?")]),
        Err(PolicyError::UnknownParameter { key: "nope".to_string() })
    );
    assert_eq!(
        Policy::from_arguments(&vec![
            date("01.2024"),
            named("expires", "01.2020"),
            named("expires", "bad"),
        ]),
        Err(PolicyError::DuplicateOrMisplacedArgument { position: 2 })
    );
}

#[test]
fn errors_say_what_is_wrong() {
    assert_eq!(
        PolicyError::MissingParameters.message(),
        "Missing parameters. You must provide either a warning date or an expires parameter"
    );
    assert_eq!(
        PolicyError::MalformedArguments { position: 12 }.message(),
        "Malformed arguments at token 12"
    );
    assert_eq!(
        PolicyError::MalformedDate { text: "13.2024".to_string(), reason: DateError::MonthOutOfRange }
            .message(),
        "Month out of range in '13.2024'. Expected a number from 1-12"
    );
    assert_eq!(
        PolicyError::UnknownParameter { key: "expire".to_string() }.message(),
        "Unknown parameter 'expire', expected 'expires' or 'message'"
    );
    assert_eq!(
        PolicyError::DuplicateOrMisplacedArgument { position: 3 }.message(),
        "Duplicate or misplaced argument at place 3"
    );
    assert_eq!(
        PolicyError::InvalidDateOrdering {
            warning_date: month(2023, 12),
            expiry_date: month(2023, 1),
        }
        .message(),
        "Invalid date: expiration date (01.2023) must be after warning date (12.2023)"
    );
}
