use ships::date::Date;
use ships::date::parse_date;
use ships::raw::RawValue;
use ships::sanitize;
use ships::ship::ExtractionError;
use ships::ship::extract;

fn obj(pairs: Vec<(&str, RawValue)>) -> RawValue {
    RawValue::Obj(pairs.into_iter().map(|(k, v)| (String::from(k), v)).collect())
}

fn s(text: &str) -> RawValue {
    RawValue::Str(String::from(text))
}

fn full_record() -> RawValue {
    obj(vec![
        ("id", s("rec123")),
        (
            "fields",
            obj(vec![
                ("How did you hear about this?", s("a friend")),
                ("GitHub Username", s("octocat")),
                (
                    "Hack Clubber\u{2013}Geocoded Country",
                    RawValue::Arr(vec![s("Canada")]),
                ),
                ("Hours Spent", RawValue::Num(12.5f64.to_bits())),
                (
                    "Screenshot",
                    RawValue::Arr(vec![obj(vec![("url", s("https://img.example/shot.png"))])]),
                ),
                ("Code URL", s("https://code.example/repo")),
                ("Playable URL", s("https://demo.example/play")),
                ("Description", s("a tiny game")),
                ("Approved At", s("2024-02-29")),
                ("YSWS\u{2013}Name", RawValue::Arr(vec![s("Arcade")])),
            ]),
        ),
    ])
}

#[test]
fn extract_reads_every_field() {
    let ship = extract(&full_record()).unwrap();
    assert_eq!(ship.id, "rec123");
    assert_eq!(ship.heard_through.as_deref(), Some("a friend"));
    assert_eq!(ship.github_username.as_deref(), Some("octocat"));
    assert_eq!(ship.country.as_deref(), Some("Canada"));
    assert_eq!(ship.hours_bits, Some(12.5f64.to_bits()));
    assert_eq!(ship.screenshot_url.as_deref(), Some("https://img.example/shot.png"));
    assert_eq!(ship.code_url.as_deref(), Some("https://code.example/repo"));
    assert_eq!(ship.demo_url.as_deref(), Some("https://demo.example/play"));
    assert_eq!(ship.description.as_deref(), Some("a tiny game"));
    assert_eq!(ship.approved_at, Some(Date { year: 2024, month: 2, day: 29 }));
    assert_eq!(ship.ysws.as_deref(), Some("Arcade"));
    assert!(ship.embedding.is_none());
}

#[test]
fn extract_without_id_fails() {
    let raw = obj(vec![("fields", obj(vec![("Description", s("no key"))]))]);
    assert_eq!(extract(&raw).unwrap_err(), ExtractionError::MissingId);
}

#[test]
fn extract_with_nonstring_id_fails() {
    let raw = obj(vec![("id", RawValue::Num(7f64.to_bits()))]);
    assert_eq!(extract(&raw).unwrap_err(), ExtractionError::MissingId);
}

#[test]
fn extract_degrades_missing_fields_to_none() {
    let ship = extract(&obj(vec![("id", s("only-key"))])).unwrap();
    assert_eq!(ship.id, "only-key");
    assert!(ship.heard_through.is_none());
    assert!(ship.github_username.is_none());
    assert!(ship.country.is_none());
    assert!(ship.hours_bits.is_none());
    assert!(ship.screenshot_url.is_none());
    assert!(ship.code_url.is_none());
    assert!(ship.demo_url.is_none());
    assert!(ship.description.is_none());
    assert!(ship.approved_at.is_none());
    assert!(ship.ysws.is_none());
    assert!(ship.embedding.is_none());
}

#[test]
fn extract_degrades_ill_typed_fields_to_none() {
    let raw = obj(vec![
        ("id", s("typed")),
        (
            "fields",
            obj(vec![
                ("Description", RawValue::Num(1f64.to_bits())),
                ("Hours Spent", s("twelve")),
                ("Hack Clubber\u{2013}Geocoded Country", s("not an array")),
                ("Approved At", s("soon")),
                ("Screenshot", RawValue::Arr(vec![])),
            ]),
        ),
    ]);
    let ship = extract(&raw).unwrap();
    assert!(ship.description.is_none());
    assert!(ship.hours_bits.is_none());
    assert!(ship.country.is_none());
    assert!(ship.approved_at.is_none());
    assert!(ship.screenshot_url.is_none());
}

#[test]
fn description_null_character_is_stripped_and_nothing_else() {
    let raw = obj(vec![
        ("id", s("nulled")),
        ("fields", obj(vec![("Description", s("bad\0 but salvage-able"))])),
    ]);
    let ship = extract(&raw).unwrap();
    assert_eq!(ship.description.as_deref(), Some("bad but salvage-able"));
}

#[test]
fn sanitize_strips_only_nulls() {
    assert_eq!(sanitize("a\0b\0c"), "abc");
    assert_eq!(sanitize("\0"), "");
    assert_eq!(sanitize(""), "");
    assert_eq!(sanitize("untouched \u{e9}\u{1f6a2}"), "untouched \u{e9}\u{1f6a2}");
}

#[test]
fn parse_date_accepts_real_days() {
    assert_eq!(parse_date("2021-12-31"), Some(Date { year: 2021, month: 12, day: 31 }));
    assert_eq!(parse_date("2024-02-29"), Some(Date { year: 2024, month: 2, day: 29 }));
    assert_eq!(parse_date("2000-02-29"), Some(Date { year: 2000, month: 2, day: 29 }));
    assert_eq!(parse_date("0001-01-01"), Some(Date { year: 1, month: 1, day: 1 }));
}

#[test]
fn parse_date_rejects_impossible_days() {
    assert_eq!(parse_date("2023-02-29"), None);
    assert_eq!(parse_date("1900-02-29"), None);
    assert_eq!(parse_date("2021-13-01"), None);
    assert_eq!(parse_date("2021-00-10"), None);
    assert_eq!(parse_date("2021-04-31"), None);
    assert_eq!(parse_date("2021-06-00"), None);
}

#[test]
fn parse_date_rejects_ill_shaped_text() {
    assert_eq!(parse_date(""), None);
    assert_eq!(parse_date("2021-1-01"), None);
    assert_eq!(parse_date("2021/01/01"), None);
    assert_eq!(parse_date("yesterday"), None);
    assert_eq!(parse_date("2021-01-012"), None);
}
