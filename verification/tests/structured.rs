use metadata::date::Date;
use metadata::structured::StructuredMetadata;
use metadata::version::Version;
use metadata::{Metadata, AUTHORS, DATE, DESCRIPTION, NAME, VERSION};

fn s(text: &str) -> String {
    text.to_owned()
}

fn map(entries: &[(&str, &str)]) -> Metadata {
    let mut m = Metadata::new();
    for (key, value) in entries {
        m.insert(s(key), s(value));
    }
    m
}

fn full() -> StructuredMetadata {
    StructuredMetadata {
        name: s("Foo"),
        description: s("A table"),
        authors: vec![s("Ada"), s("Grace")],
        version: Some(Version::parse("1.2.3-rc.1").unwrap()),
        date: Some(Date::from_ymd(2024, 5, 1).unwrap()),
    }
}

#[test]
fn decode_reads_every_field() {
    let m = map(&[
        (NAME, "Foo"),
        (DESCRIPTION, "A table"),
        (AUTHORS, "Ada,Grace"),
        (VERSION, "1.2.3-rc.1"),
        (DATE, "2024-05-01"),
        ("other", "kept out"),
    ]);
    assert_eq!(StructuredMetadata::decode(&m).unwrap(), full());
}

#[test]
fn decode_of_an_empty_map_gives_empty_fields() {
    let decoded = StructuredMetadata::decode(&Metadata::new()).unwrap();
    assert_eq!(decoded.name, "");
    assert_eq!(decoded.description, "");
    assert!(decoded.authors.is_empty());
    assert_eq!(decoded.version, None);
    assert_eq!(decoded.date, None);
}

#[test]
fn decode_splits_authors_without_trimming() {
    let decoded = StructuredMetadata::decode(&map(&[(AUTHORS, " Ada ,,Grace")])).unwrap();
    assert_eq!(decoded.authors, vec![s(" Ada "), s(""), s("Grace")]);
    let one = StructuredMetadata::decode(&map(&[(AUTHORS, ",")])).unwrap();
    assert_eq!(one.authors, vec![s(""), s("")]);
}

#[test]
fn strict_decode_fails_on_a_bad_version() {
    let m = map(&[(NAME, "Foo"), (VERSION, "not-a-version")]);
    let error = StructuredMetadata::decode(&m).unwrap_err();
    assert!(error.is_version());
}

#[test]
fn resilient_decode_puts_the_default_version_and_reports_once() {
    let m = map(&[(NAME, "Foo"), (VERSION, "not-a-version")]);
    let (decoded, diagnostics) = StructuredMetadata::decode_resilient(&m);
    assert_eq!(decoded.version, Some(Version::new(0, 0, 0)));
    assert_eq!(decoded.version.unwrap().to_string(), "0.0.0");
    assert_eq!(decoded.name, "Foo");
    assert_eq!(diagnostics.len(), 1);
    assert!(diagnostics[0].is_version());
}

#[test]
fn strict_decode_fails_on_a_bad_date() {
    let m = map(&[(DATE, "2024-13-01"), (VERSION, "1.0.0")]);
    let error = StructuredMetadata::decode(&m).unwrap_err();
    assert!(error.is_date());
}

#[test]
fn strict_decode_reports_the_version_before_the_date() {
    let m = map(&[(DATE, "nope"), (VERSION, "nope")]);
    assert!(StructuredMetadata::decode(&m).unwrap_err().is_version());
}

#[test]
fn resilient_decode_puts_the_default_date() {
    let m = map(&[(DATE, "yesterday")]);
    let (decoded, diagnostics) = StructuredMetadata::decode_resilient(&m);
    assert_eq!(decoded.date, Some(Date::epoch()));
    assert_eq!(decoded.date.unwrap().to_string(), "1970-01-01");
    assert_eq!(diagnostics.len(), 1);
    assert!(diagnostics[0].is_date());
}

#[test]
fn resilient_decode_reports_both_fields_in_order() {
    let m = map(&[(DATE, "nope"), (VERSION, "nope")]);
    let (decoded, diagnostics) = StructuredMetadata::decode_resilient(&m);
    assert_eq!(decoded.version, Some(Version::new(0, 0, 0)));
    assert_eq!(decoded.date, Some(Date::epoch()));
    assert_eq!(diagnostics.len(), 2);
    assert!(diagnostics[0].is_version());
    assert!(diagnostics[1].is_date());
}

#[test]
fn resilient_decode_agrees_with_strict_decode_on_good_maps() {
    let m = full().encode();
    let (decoded, diagnostics) = StructuredMetadata::decode_resilient(&m);
    assert!(diagnostics.is_empty());
    assert_eq!(decoded, StructuredMetadata::decode(&m).unwrap());
    assert_eq!(decoded, full());
}

#[test]
fn encode_writes_every_set_field() {
    let expected = map(&[
        (NAME, "Foo"),
        (DESCRIPTION, "A table"),
        (AUTHORS, "Ada,Grace"),
        (VERSION, "1.2.3-rc.1"),
        (DATE, "2024-05-01"),
    ]);
    assert_eq!(full().encode(), expected);
}

#[test]
fn encode_always_writes_name_and_description() {
    let empty = StructuredMetadata {
        name: s(""),
        description: s(""),
        authors: vec![],
        version: None,
        date: None,
    };
    assert_eq!(empty.encode(), map(&[(NAME, ""), (DESCRIPTION, "")]));
}

#[test]
fn a_removed_name_is_written_as_empty() {
    let mut m = full().encode();
    m.remove(NAME);
    assert_eq!(m.get(NAME), None);
    let again = StructuredMetadata::decode(&m).unwrap().encode();
    assert_eq!(again.get(NAME), Some(&s("")));
    assert_ne!(again, m);
}

#[test]
fn empty_authors_are_not_written() {
    let m = map(&[(AUTHORS, "")]);
    let decoded = StructuredMetadata::decode(&m).unwrap();
    assert!(decoded.authors.is_empty());
    assert!(!decoded.encode().contains_key(AUTHORS));
}

#[test]
fn encoding_twice_gives_the_same_map() {
    let value = full();
    let first = value.encode();
    let second = value.encode();
    assert_eq!(first, second);
    assert_eq!(first.to_entries(), second.to_entries());
}

#[test]
fn from_parts_takes_what_was_read() {
    let value = StructuredMetadata::from_parts(
        s("Foo"),
        s("A table"),
        vec![s("Ada"), s("Grace")],
        Some(Version::parse("1.2.3-rc.1")),
        Some(Date::parse("2024-05-01")),
    );
    assert_eq!(value.unwrap(), full());
    let bare = StructuredMetadata::from_parts(s(""), s(""), vec![], None, None).unwrap();
    assert_eq!(bare.version, None);
    assert_eq!(bare.date, None);
}

#[test]
fn from_parts_fails_with_the_first_error() {
    let both = StructuredMetadata::from_parts(
        s(""),
        s(""),
        vec![],
        Some(Version::parse("x")),
        Some(Date::parse("y")),
    );
    assert!(both.unwrap_err().is_version());
    let date_only = StructuredMetadata::from_parts(
        s(""),
        s(""),
        vec![],
        Some(Version::parse("1.0.0")),
        Some(Date::parse("y")),
    );
    assert!(date_only.unwrap_err().is_date());
}

#[test]
fn from_parts_resilient_puts_defaults_and_hands_the_errors_back() {
    let (value, diagnostics) = StructuredMetadata::from_parts_resilient(
        s("Foo"),
        s(""),
        vec![s("Ada")],
        Some(Version::parse("x")),
        Some(Date::parse("y")),
    );
    assert_eq!(value.name, "Foo");
    assert_eq!(value.authors, vec![s("Ada")]);
    assert_eq!(value.version, Some(Version::new(0, 0, 0)));
    assert_eq!(value.date, Some(Date::epoch()));
    assert_eq!(diagnostics.len(), 2);
    assert!(diagnostics[0].is_version());
    assert!(diagnostics[1].is_date());
    let (value, diagnostics) = StructuredMetadata::from_parts_resilient(
        s(""),
        s(""),
        vec![],
        None,
        Some(Date::parse("2024-05-01")),
    );
    assert_eq!(value.version, None);
    assert_eq!(value.date, Date::from_ymd(2024, 5, 1));
    assert!(diagnostics.is_empty());
}

#[test]
fn strict_decode_of_what_was_read_from_a_file_fails_on_a_bad_version() {
    let key_values = vec![
        metadata::block::KeyValue { key: s(NAME), value: Some(s("Foo")) },
        metadata::block::KeyValue { key: s(VERSION), value: Some(s("not-a-version")) },
    ];
    let frame = metadata::frame::MetaDataFrame::read_parquet(Some(key_values), ());
    assert_eq!(frame.meta.get(VERSION), Some(&s("not-a-version")));
    assert!(StructuredMetadata::decode(&frame.meta).unwrap_err().is_version());
    let (decoded, diagnostics) = StructuredMetadata::decode_resilient(&frame.meta);
    assert_eq!(decoded.version, Some(Version::new(0, 0, 0)));
    assert_eq!(diagnostics.len(), 1);
}
