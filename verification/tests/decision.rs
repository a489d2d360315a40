use bestbefore::date::CalendarMonth;
use bestbefore::date::DateError;
use bestbefore::engine::{bestbefore, current_date, evaluate, Verdict};
use bestbefore::policy::{Policy, PolicyError};
use bestbefore::{format_date, parse_date, ArgToken, RawArgument, TargetKind};

fn month(year: i32, month: u32) -> CalendarMonth {
    CalendarMonth { year, month }
}

fn built(warning: Option<&str>, expires: Option<&str>, message: Option<&str>) -> Policy {
    let mut args = Vec::new();
    if let Some(text) = warning {
        args.push(RawArgument::Positional(text.to_string()));
    }
    if let Some(text) = expires {
        args.push(RawArgument::Named { key: "expires".to_string(), value: text.to_string() });
    }
    if let Some(text) = message {
        args.push(RawArgument::Named { key: "message".to_string(), value: text.to_string() });
    }
    Policy::from_arguments(&args).unwrap()
}

fn at(text: &str) -> CalendarMonth {
    parse_date(text).unwrap()
}

fn lit(text: &str) -> ArgToken {
    ArgToken::Literal(text.to_string())
}

fn ident(text: &str) -> ArgToken {
    ArgToken::Ident(text.to_string())
}

#[test]
fn before_the_warning_date_the_code_passes() {
    let policy = built(Some("03.2024"), Some("12.2024"), None);
    assert_eq!(evaluate(&policy, "f", at("02.2024")), Verdict::Pass);
    assert_eq!(evaluate(&policy, "f", at("12.2023")), Verdict::Pass);
}

#[test]
fn the_warning_month_itself_still_passes() {
    let policy = built(Some("03.2024"), None, None);
    assert_eq!(evaluate(&policy, "f", at("03.2024")), Verdict::Pass);
    let with_expiry = built(Some("03.2024"), Some("12.2024"), None);
    assert_eq!(evaluate(&with_expiry, "f", at("03.2024")), Verdict::Pass);
}

#[test]
fn the_expiry_month_itself_warns_and_does_not_fail() {
    let policy = built(Some("01.2023"), Some("12.2023"), None);
    assert_eq!(
        evaluate(&policy, "very_old_function", at("12.2023")),
        Verdict::Warn {
            message: "Code 'very_old_function' past warning date (after 01.2023): consider updating or removing this code"
                .to_string(),
        }
    );
}

#[test]
fn past_the_expiry_date_the_code_fails_and_does_not_warn() {
    let policy = built(Some("01.2023"), Some("12.2023"), None);
    for current in ["01.2024", "06.2031", "12.262142"] {
        assert!(matches!(evaluate(&policy, "f", at(current)), Verdict::Fail { .. }));
    }
}

#[test]
fn default_warning_names_the_target_and_the_date() {
    let policy = built(Some("03.2024"), None, None);
    let verdict = evaluate(&policy, "legacy_function", at("04.2024"));
    match verdict {
        Verdict::Warn { message } => {
            assert!(message.contains("legacy_function"));
            assert!(message.contains(&format_date(policy.warning_date)));
        }
        other => panic!("{:?}", other),
    }
}

#[test]
fn scenario_warning_without_expiry() {
    let policy = built(Some("03.2024"), None, None);
    assert_eq!(
        evaluate(&policy, "future_warning", at("04.2024")),
        Verdict::Warn {
            message: "Code 'future_warning' past warning date (after 03.2024): consider updating or removing this code"
                .to_string(),
        }
    );
}

#[test]
fn scenario_expired_with_warning_date() {
    let policy = built(Some("01.2026"), Some("12.2030"), None);
    assert_eq!(
        evaluate(&policy, "expired_function", at("01.2031")),
        Verdict::Fail {
            message: "Code 'expired_function' has expired (after 12.2030): consider removing this code"
                .to_string(),
        }
    );
}

#[test]
fn scenario_expiry_only_fails_without_a_warning_phase() {
    let policy = built(None, Some("01.2028"), None);
    assert_eq!(evaluate(&policy, "f", at("12.2027")), Verdict::Pass);
    assert_eq!(evaluate(&policy, "f", at("01.2028")), Verdict::Pass);
    assert_eq!(
        evaluate(&policy, "f", at("02.2028")),
        Verdict::Fail {
            message: "Code 'f' has expired (after 01.2028): consider removing this code".to_string(),
        }
    );
}

#[test]
fn custom_message_replaces_both_default_messages() {
    let policy = built(Some("02.2023"), Some("12.2023"), Some("Please use new_api() instead"));
    assert_eq!(
        evaluate(&policy, "f", at("03.2023")),
        Verdict::Warn { message: "Please use new_api() instead".to_string() }
    );
    assert_eq!(
        evaluate(&policy, "f", at("01.2024")),
        Verdict::Fail { message: "Please use new_api() instead".to_string() }
    );
    assert_eq!(evaluate(&policy, "f", at("02.2023")), Verdict::Pass);
}

#[test]
fn years_before_the_common_era_are_compared_as_numbers() {
    let policy = built(Some("06.-10"), None, None);
    assert_eq!(evaluate(&policy, "f", at("05.-10")), Verdict::Pass);
    assert_eq!(
        evaluate(&policy, "f", at("01.-9")),
        Verdict::Warn {
            message: "Code 'f' past warning date (after 06.-10): consider updating or removing this code"
                .to_string(),
        }
    );
}

#[test]
fn without_override_the_clock_decides() {
    assert_eq!(current_date(None, month(2024, 7)), Ok(month(2024, 7)));
}

#[test]
fn the_override_replaces_the_clock() {
    assert_eq!(current_date(Some("01.2031"), month(2024, 7)), Ok(month(2031, 1)));
}

#[test]
fn a_malformed_override_is_an_error_and_not_the_clock() {
    assert_eq!(
        current_date(Some("2031-01"), month(2024, 7)),
        Err(PolicyError::MalformedDate { text: "2031-01".to_string(), reason: DateError::Format })
    );
    assert_eq!(
        current_date(Some(""), month(2024, 7)),
        Err(PolicyError::MalformedDate { text: "".to_string(), reason: DateError::Format })
    );
}

#[test]
fn bestbefore_decides_from_tokens() {
    let attr = vec![
        lit("01.2026"),
        ArgToken::Punct(','),
        ident("expires"),
        ArgToken::Punct('='),
        lit("12.2030"),
    ];
    let item = TargetKind::Struct("OldStructure".to_string());
    assert_eq!(bestbefore(&attr, &item, None, month(2025, 12)), Ok(Verdict::Pass));
    assert_eq!(
        bestbefore(&attr, &item, None, month(2026, 2)),
        Ok(Verdict::Warn {
            message: "Code 'struct OldStructure' past warning date (after 01.2026): consider updating or removing this code"
                .to_string(),
        })
    );
    assert_eq!(
        bestbefore(&attr, &item, Some("01.2031"), month(2026, 2)),
        Ok(Verdict::Fail {
            message: "Code 'struct OldStructure' has expired (after 12.2030): consider removing this code"
                .to_string(),
        })
    );
}

#[test]
fn bestbefore_reports_the_first_thing_that_fails() {
    let item = TargetKind::Other;
    let clock = month(2024, 1);
    assert_eq!(
        bestbefore(&vec![lit("01.2026"), lit("x")], &item, Some("bad"), clock),
        Err(PolicyError::MalformedArguments { position: 1 })
    );
    assert_eq!(
        bestbefore(&vec![], &item, Some("bad"), clock),
        Err(PolicyError::MissingParameters)
    );
    assert_eq!(
        bestbefore(&vec![lit("01.2026")], &item, Some("bad"), clock),
        Err(PolicyError::MalformedDate { text: "bad".to_string(), reason: DateError::Format })
    );
    assert_eq!(
        bestbefore(&vec![lit("13.2026")], &item, None, clock),
        Err(PolicyError::MalformedDate {
            text: "13.2026".to_string(),
            reason: DateError::MonthOutOfRange,
        })
    );
}
