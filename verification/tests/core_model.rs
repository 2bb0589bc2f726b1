//! The data model: locales, dates, the payload overlay and the
//! credential codec, exercised on concrete values.

use expend::credentials::{parse_credentials, serialize_credentials, Credentials};
use expend::dates::{date_to_string, from_date_string, monday_of, CalendarDate};
use expend::context::{Categories, Context, Tags, UserContext};
use expend::json::{JsonField, JsonValue};
use expend::errors::ExpendError;
use expend::locale::{Country, Currency, Destination};

fn germany_user(project: &str, email: &str) -> UserContext {
    UserContext {
        project: project.to_string(),
        email: email.to_string(),
        country: Country::default(),
        destination: None,
        tags: Tags::default(),
        categories: Categories::default(),
    }
}

#[test]
fn currency_symbol_is_fixed_and_nonempty() {
    let c = Country::Germany.currency();
    assert!(matches!(c, Currency::EUR));
    assert_eq!(c.symbol(), "€");
    assert!(!c.symbol().is_empty());
    assert_eq!(c.name(), "EUR");
}

#[test]
fn country_parses_both_spellings() {
    assert!(matches!(Country::from_str("germany"), Ok(Country::Germany)));
    assert!(matches!(Country::from_str("Germany"), Ok(Country::Germany)));
}

#[test]
fn country_rejects_unknown_and_names_input() {
    let e = Country::from_str("France").unwrap_err();
    assert!(matches!(e, ExpendError::LocaleParse { .. }));
    assert!(e.message().contains("France"));
}

#[test]
fn country_display_is_canonical() {
    assert_eq!(Country::Germany.name(), "Germany");
    assert!(matches!(Country::default(), Country::Germany));
}

#[test]
fn destination_parses_both_spellings() {
    assert!(matches!(Destination::from_str("india-other"), Ok(Destination::IndiaOther)));
    assert!(matches!(Destination::from_str("India-Other"), Ok(Destination::IndiaOther)));
    assert_eq!(Destination::IndiaOther.name(), "India-Other");
}

#[test]
fn destination_rejects_unknown() {
    let e = Destination::from_str("Mars").unwrap_err();
    assert!(e.message().contains("Mars"));
}

#[test]
fn date_string_parses() {
    let d = from_date_string("2024-01-01").unwrap();
    assert_eq!(d, CalendarDate { year: 2024, month: 1, day: 1 });
}

#[test]
fn date_string_rejects_garbage_and_names_input() {
    let e = from_date_string("not-a-date").unwrap_err();
    assert!(matches!(e, ExpendError::DateParse { .. }));
    assert!(e.message().contains("not-a-date"));
}

#[test]
fn date_string_rejects_out_of_range_fields() {
    assert!(from_date_string("2024-13-01").is_err());
    assert!(from_date_string("2024-00-10").is_err());
    assert!(from_date_string("2024-01-00").is_err());
    assert!(from_date_string("2024-04-31").is_err());
    assert!(from_date_string("2024-1-1").is_err());
    assert!(from_date_string("2024/01/01").is_err());
}

#[test]
fn date_string_respects_leap_years() {
    assert!(from_date_string("2024-02-29").is_ok());
    assert!(from_date_string("2023-02-29").is_err());
    assert!(from_date_string("2024-02-30").is_err());
    assert!(from_date_string("1900-02-29").is_err());
    assert!(from_date_string("2000-02-29").is_ok());
}

#[test]
fn date_formats_back() {
    let d = from_date_string("2024-06-13").unwrap();
    assert_eq!(date_to_string(&d), "2024-06-13");
    let early = from_date_string("0987-01-02").unwrap();
    assert_eq!(date_to_string(&early), "0987-01-02");
}

#[test]
fn monday_of_thursday_is_that_weeks_monday() {
    let d = from_date_string("2024-06-13").unwrap();
    let m = monday_of(&d).unwrap();
    assert_eq!(m, CalendarDate { year: 2024, month: 6, day: 10 });
}

#[test]
fn monday_of_monday_is_itself() {
    let d = from_date_string("2024-06-10").unwrap();
    assert_eq!(monday_of(&d).unwrap(), d);
}

#[test]
fn monday_crosses_month_and_year_edges() {
    let sunday = from_date_string("2024-09-01").unwrap();
    assert_eq!(monday_of(&sunday).unwrap(), from_date_string("2024-08-26").unwrap());
    let new_year = from_date_string("2021-01-01").unwrap();
    assert_eq!(monday_of(&new_year).unwrap(), from_date_string("2020-12-28").unwrap());
}

#[test]
fn monday_of_reference_date_uses_the_reference() {
    let ctx = Context {
        user: germany_user("p", "e@example.com"),
        reference_date: Some(from_date_string("2024-06-13").unwrap()),
        comment: None,
    };
    assert_eq!(
        ctx.monday_of_reference_date().unwrap(),
        CalendarDate { year: 2024, month: 6, day: 10 }
    );
}

#[test]
fn monday_before_model_start_is_an_error() {
    // The first day of year 0 is a Saturday; its week's Monday lies
    // before the representable range.
    let d = CalendarDate { year: 0, month: 1, day: 1 };
    assert!(monday_of(&d).is_err());
}

#[test]
fn credentials_round_trip_plain() {
    let c = Credentials { user_id: "alice".to_string(), user_secret: "s3cr3t".to_string() };
    let blob = serialize_credentials(&c);
    assert_eq!(blob, "{\"user_id\":\"alice\",\"user_secret\":\"s3cr3t\"}");
    let back = parse_credentials(&blob).unwrap();
    assert_eq!(back.user_id, "alice");
    assert_eq!(back.user_secret, "s3cr3t");
}

#[test]
fn credentials_round_trip_with_escapes() {
    let c = Credentials {
        user_id: "a\"b\\c".to_string(),
        user_secret: "\\\\\"\"".to_string(),
    };
    let blob = serialize_credentials(&c);
    let back = parse_credentials(&blob).unwrap();
    assert_eq!(back.user_id, c.user_id);
    assert_eq!(back.user_secret, c.user_secret);
}

#[test]
fn credentials_round_trip_empty() {
    let c = Credentials { user_id: String::new(), user_secret: String::new() };
    let back = parse_credentials(&serialize_credentials(&c)).unwrap();
    assert_eq!(back.user_id, "");
    assert_eq!(back.user_secret, "");
}

#[test]
fn malformed_blobs_are_credential_errors() {
    for blob in [
        "",
        "{}",
        "not json",
        "{\"user_id\":\"a\"}",
        "{\"user_id\":\"a\",\"user_secret\":\"b\"",
        "{\"user_id\":\"a\",\"user_secret\":\"b\"}x",
        "{\"user_id\":\"a\\x\",\"user_secret\":\"b\"}",
    ] {
        let e = parse_credentials(blob).unwrap_err();
        assert!(matches!(e, ExpendError::Credential { .. }));
    }
}

#[test]
fn defaults_carry_the_fixed_values() {
    let tags = Tags::default();
    assert_eq!(tags.travel.name, "Travel");
    assert!(tags.travel.billable);
    let cats = Categories::default();
    assert_eq!(cats.per_diems.name, "Per Diem/Stipend (pre-approved)");
}

fn obj(fields: Vec<(&str, JsonValue)>) -> JsonValue {
    JsonValue::Obj(
        fields
            .into_iter()
            .map(|(k, v)| JsonField { key: k.to_string(), value: v })
            .collect(),
    )
}

fn sample_payload() -> JsonValue {
    obj(vec![
        ("employeeEmail", JsonValue::Str("old@example.com".to_string())),
        ("policyID", JsonValue::Str("policy7".to_string())),
        (
            "transactionList",
            JsonValue::Arr(vec![
                obj(vec![
                    ("amount", JsonValue::Int(4200)),
                    ("tag", JsonValue::Str("old-tag".to_string())),
                ]),
                obj(vec![("amount", JsonValue::Int(1))]),
                JsonValue::Str("not an object".to_string()),
            ]),
        ),
    ])
}

fn applied(payload: JsonValue) -> JsonValue {
    germany_user("proj-1", "new@example.com").apply_to_value(payload)
}

#[test]
fn overlay_overwrites_email_and_tags() {
    let expected = obj(vec![
        ("employeeEmail", JsonValue::Str("new@example.com".to_string())),
        ("policyID", JsonValue::Str("policy7".to_string())),
        (
            "transactionList",
            JsonValue::Arr(vec![
                obj(vec![
                    ("amount", JsonValue::Int(4200)),
                    ("tag", JsonValue::Str("proj-1".to_string())),
                ]),
                obj(vec![("amount", JsonValue::Int(1))]),
                JsonValue::Str("not an object".to_string()),
            ]),
        ),
    ]);
    assert_eq!(applied(sample_payload()), expected);
}

#[test]
fn overlay_never_creates_keys() {
    let payload = obj(vec![("policyID", JsonValue::Str("p".to_string()))]);
    let expected = obj(vec![("policyID", JsonValue::Str("p".to_string()))]);
    assert_eq!(applied(payload), expected);
}

#[test]
fn overlay_leaves_non_array_transaction_list() {
    let payload = obj(vec![("transactionList", JsonValue::Str("whole".to_string()))]);
    let expected = obj(vec![("transactionList", JsonValue::Str("whole".to_string()))]);
    assert_eq!(applied(payload), expected);
}

#[test]
fn overlay_on_non_object_is_noop() {
    assert_eq!(applied(JsonValue::Int(3)), JsonValue::Int(3));
    assert_eq!(applied(JsonValue::Null), JsonValue::Null);
}

#[test]
fn overlay_is_idempotent() {
    let once = applied(sample_payload());
    let twice = applied(applied(sample_payload()));
    assert_eq!(twice, once);
}

#[test]
fn error_messages_embed_their_inputs() {
    let e = ExpendError::BrowserLaunch { url: "https://example.com/x".to_string() };
    assert_eq!(e.message(), "Could not open 'https://example.com/x' in your browser.");
    let e = ExpendError::DateParse { input: "junk".to_string() };
    assert_eq!(e.message(), "Could not parse date string 'junk'");
    let e = ExpendError::Submission { detail: "it broke".to_string() };
    assert_eq!(e.message(), "it broke");
}
