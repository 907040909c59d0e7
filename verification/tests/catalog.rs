use poster_catalog::catalog::{
    entries_from_records, entry_from_record, load_wants_redraw, parse_catalog, record_from_json,
    records_from_json, Catalog, CatalogEntry, CatalogParseError, Field, LoadError, Record,
};
use poster_catalog::fetch::{Response, TransportError};
use poster_catalog::json::Json;

fn entry(title: &str, poster: &str, issue_date: &str) -> CatalogEntry {
    CatalogEntry { title: title.to_string(), poster: poster.to_string(), issue_date: issue_date.to_string() }
}

fn record(title: &str, poster: &str, release_date: i64) -> Record {
    Record { title: title.to_string(), poster: poster.to_string(), release_date }
}

fn field(name: &str, value: Json) -> (String, Json) {
    (name.to_string(), value)
}

fn text(value: &str) -> Json {
    Json::Text(value.to_string())
}

#[test]
fn one_record_becomes_one_entry() {
    let document = b"[{\"title\":\"A\",\"poster\":\"http://x/a.jpg\",\"release_date\":0}]";
    assert_eq!(parse_catalog(document), Ok(vec![entry("A", "http://x/a.jpg", "1970-01-01")]));
}

#[test]
fn missing_poster_refuses_the_document() {
    let document = b"[{\"title\":\"A\",\"release_date\":0}]";
    assert_eq!(parse_catalog(document), Err(CatalogParseError::MissingField { index: 0, field: Field::Poster }));
}

#[test]
fn missing_poster_in_a_later_record_refuses_the_document() {
    let document = b"[{\"title\":\"A\",\"poster\":\"http://x/a.jpg\",\"release_date\":0},
        {\"title\":\"B\",\"poster\":\"http://x/b.jpg\",\"release_date\":86400},
        {\"title\":\"C\",\"release_date\":0}]";
    assert_eq!(parse_catalog(document), Err(CatalogParseError::MissingField { index: 2, field: Field::Poster }));
}

#[test]
fn load_that_fails_leaves_the_catalog_as_it_was() {
    let mut catalog = Catalog::new();
    let missing = b"[{\"title\":\"A\",\"poster\":\"p\",\"release_date\":0},{\"title\":\"B\",\"release_date\":0}]";
    assert_eq!(catalog.load(missing), Err(CatalogParseError::MissingField { index: 1, field: Field::Poster }));
    assert!(catalog.is_empty());

    let good = b"[{\"title\":\"A\",\"poster\":\"p\",\"release_date\":0}]";
    assert_eq!(catalog.load(good), Ok(vec!["p".to_string()]));
    assert_eq!(catalog.load(missing), Err(CatalogParseError::MissingField { index: 1, field: Field::Poster }));
    assert_eq!(catalog.len(), 1);
    assert_eq!(catalog.get(0), Some(&entry("A", "p", "1970-01-01")));
    assert_eq!(catalog.get(1), None);
}

#[test]
fn entries_keep_the_order_of_the_document() {
    let document = b"[
        {\"title\": \"Third\", \"poster\": \"http://x/3.jpg\", \"release_date\": 1546300800},
        {\"title\": \"First\", \"poster\": \"http://x/1.jpg\", \"release_date\": -1},
        {\"title\": \"Second\", \"poster\": \"http://x/3.jpg\", \"release_date\": 951782400}
    ]";
    let mut catalog = Catalog::new();
    let posters = catalog.load(document);
    assert_eq!(
        posters,
        Ok(vec!["http://x/3.jpg".to_string(), "http://x/1.jpg".to_string(), "http://x/3.jpg".to_string()])
    );
    assert_eq!(catalog.len(), 3);
    assert_eq!(catalog.get(0), Some(&entry("Third", "http://x/3.jpg", "2019-01-01")));
    assert_eq!(catalog.get(1), Some(&entry("First", "http://x/1.jpg", "1969-12-31")));
    assert_eq!(catalog.get(2), Some(&entry("Second", "http://x/3.jpg", "2000-02-29")));
    assert_eq!(catalog.get(3), None);
}

#[test]
fn a_second_load_publishes_behind_the_first() {
    let mut catalog = Catalog::new();
    assert_eq!(catalog.load(b"[{\"title\":\"A\",\"poster\":\"a\",\"release_date\":0}]"), Ok(vec!["a".to_string()]));
    assert_eq!(
        catalog.load(b"[{\"title\":\"B\",\"poster\":\"b\",\"release_date\":86400}]"),
        Ok(vec!["b".to_string()])
    );
    assert_eq!(catalog.len(), 2);
    assert_eq!(catalog.get(0), Some(&entry("A", "a", "1970-01-01")));
    assert_eq!(catalog.get(1), Some(&entry("B", "b", "1970-01-02")));
    catalog.clear();
    assert!(catalog.is_empty());
    assert_eq!(catalog.get(0), None);
}

#[test]
fn empty_array_is_an_empty_catalog() {
    let mut catalog = Catalog::new();
    assert_eq!(catalog.load(b"[]"), Ok(vec![]));
    assert!(catalog.is_empty());
    assert_eq!(catalog.len(), 0);
}

#[test]
fn other_fields_are_passed_over() {
    let document = b"[{\"id\": 7, \"title\": \"A\", \"tags\": [\"x\"], \"poster\": \"p\", \"release_date\": 0, \"more\": {\"title\": 1}}]";
    assert_eq!(parse_catalog(document), Ok(vec![entry("A", "p", "1970-01-01")]));
}

#[test]
fn body_that_is_no_text() {
    assert_eq!(parse_catalog(&[0xff, 0xfe]), Err(CatalogParseError::NotText));
    assert_eq!(parse_catalog(&[b'[', b'"', 0xc3, b'"', b']']), Err(CatalogParseError::NotText));
}

#[test]
fn text_that_is_no_json() {
    assert_eq!(parse_catalog(b""), Err(CatalogParseError::NotJson));
    assert_eq!(parse_catalog(b"[{\"title\":\"A\""), Err(CatalogParseError::NotJson));
    assert_eq!(parse_catalog(b"<html></html>"), Err(CatalogParseError::NotJson));
}

#[test]
fn document_that_is_no_array() {
    assert_eq!(parse_catalog(b"{}"), Err(CatalogParseError::NotAnArray));
    assert_eq!(
        parse_catalog(b"{\"title\":\"A\",\"poster\":\"p\",\"release_date\":0}"),
        Err(CatalogParseError::NotAnArray)
    );
    assert_eq!(parse_catalog(b"null"), Err(CatalogParseError::NotAnArray));
    assert_eq!(parse_catalog(b"\"[]\""), Err(CatalogParseError::NotAnArray));
}

#[test]
fn item_that_is_no_object() {
    assert_eq!(parse_catalog(b"[1]"), Err(CatalogParseError::NotAnObject { index: 0 }));
    assert_eq!(
        parse_catalog(b"[{\"title\":\"A\",\"poster\":\"p\",\"release_date\":0}, [\"A\", \"p\", 0]]"),
        Err(CatalogParseError::NotAnObject { index: 1 })
    );
}

#[test]
fn each_field_is_required() {
    assert_eq!(
        parse_catalog(b"[{\"poster\":\"p\",\"release_date\":0}]"),
        Err(CatalogParseError::MissingField { index: 0, field: Field::Title })
    );
    assert_eq!(
        parse_catalog(b"[{\"title\":\"A\",\"poster\":\"p\"}]"),
        Err(CatalogParseError::MissingField { index: 0, field: Field::ReleaseDate })
    );
    assert_eq!(parse_catalog(b"[{}]"), Err(CatalogParseError::MissingField { index: 0, field: Field::Title }));
}

#[test]
fn each_field_has_its_type() {
    assert_eq!(
        parse_catalog(b"[{\"title\":1,\"poster\":\"p\",\"release_date\":0}]"),
        Err(CatalogParseError::WrongType { index: 0, field: Field::Title })
    );
    assert_eq!(
        parse_catalog(b"[{\"title\":\"A\",\"poster\":null,\"release_date\":0}]"),
        Err(CatalogParseError::WrongType { index: 0, field: Field::Poster })
    );
    assert_eq!(
        parse_catalog(b"[{\"title\":\"A\",\"poster\":\"p\",\"release_date\":\"0\"}]"),
        Err(CatalogParseError::WrongType { index: 0, field: Field::ReleaseDate })
    );
}

#[test]
fn release_date_is_an_integer_of_64_bits() {
    assert_eq!(
        parse_catalog(b"[{\"title\":\"A\",\"poster\":\"p\",\"release_date\":1.5}]"),
        Err(CatalogParseError::WrongType { index: 0, field: Field::ReleaseDate })
    );
    assert_eq!(
        parse_catalog(b"[{\"title\":\"A\",\"poster\":\"p\",\"release_date\":9223372036854775808}]"),
        Err(CatalogParseError::WrongType { index: 0, field: Field::ReleaseDate })
    );
}

#[test]
fn release_date_outside_the_calendar() {
    assert_eq!(
        parse_catalog(b"[{\"title\":\"A\",\"poster\":\"p\",\"release_date\":253402300800}]"),
        Err(CatalogParseError::BadTimestamp { index: 0 })
    );
    assert_eq!(
        parse_catalog(
            b"[{\"title\":\"A\",\"poster\":\"p\",\"release_date\":0},
               {\"title\":\"B\",\"poster\":\"q\",\"release_date\":-9223372036854775808}]"
        ),
        Err(CatalogParseError::BadTimestamp { index: 1 })
    );
}

#[test]
fn shape_is_checked_before_any_date() {
    let document = b"[{\"title\":\"A\",\"poster\":\"p\",\"release_date\":253402300800}, {\"title\":\"B\"}]";
    assert_eq!(parse_catalog(document), Err(CatalogParseError::MissingField { index: 1, field: Field::Poster }));
}

#[test]
fn first_fault_of_a_record_is_reported() {
    assert_eq!(
        parse_catalog(b"[{\"title\":2,\"release_date\":\"x\"}]"),
        Err(CatalogParseError::WrongType { index: 0, field: Field::Title })
    );
    assert_eq!(
        parse_catalog(b"[{\"title\":\"A\",\"release_date\":\"x\"}]"),
        Err(CatalogParseError::MissingField { index: 0, field: Field::Poster })
    );
}

#[test]
fn record_is_read_from_an_object() {
    let item = Json::Object(vec![
        field("release_date", Json::Number(Some(-3))),
        field("poster", text("p")),
        field("title", text("A")),
    ]);
    assert_eq!(record_from_json(&item, 4), Ok(record("A", "p", -3)));
    assert_eq!(record_from_json(&Json::Null, 4), Err(CatalogParseError::NotAnObject { index: 4 }));
    assert_eq!(record_from_json(&text("A"), 9), Err(CatalogParseError::NotAnObject { index: 9 }));
}

#[test]
fn repeated_field_counts_by_its_last_value() {
    let item = Json::Object(vec![
        field("title", text("old")),
        field("poster", text("p")),
        field("release_date", Json::Number(Some(1))),
        field("title", text("new")),
    ]);
    assert_eq!(record_from_json(&item, 0), Ok(record("new", "p", 1)));
    let item = Json::Object(vec![
        field("title", text("A")),
        field("poster", text("p")),
        field("release_date", Json::Number(Some(1))),
        field("poster", Json::Bool(false)),
    ]);
    assert_eq!(record_from_json(&item, 2), Err(CatalogParseError::WrongType { index: 2, field: Field::Poster }));
}

#[test]
fn records_are_read_from_an_array() {
    let first = Json::Object(vec![
        field("title", text("A")),
        field("poster", text("a")),
        field("release_date", Json::Number(Some(1))),
    ]);
    let second = Json::Object(vec![
        field("title", text("B")),
        field("poster", text("b")),
        field("release_date", Json::Number(Some(2))),
    ]);
    assert_eq!(records_from_json(&Json::Array(vec![first, second])), Ok(vec![record("A", "a", 1), record("B", "b", 2)]));
    assert_eq!(records_from_json(&Json::Array(vec![])), Ok(vec![]));
    assert_eq!(records_from_json(&Json::Object(vec![])), Err(CatalogParseError::NotAnArray));
    assert_eq!(
        records_from_json(&Json::Array(vec![Json::Object(vec![]), Json::Null])),
        Err(CatalogParseError::MissingField { index: 0, field: Field::Title })
    );
}

#[test]
fn number_without_integer_is_no_release_date() {
    let item = Json::Object(vec![
        field("title", text("A")),
        field("poster", text("p")),
        field("release_date", Json::Number(None)),
    ]);
    assert_eq!(
        record_from_json(&item, 0),
        Err(CatalogParseError::WrongType { index: 0, field: Field::ReleaseDate })
    );
}

#[test]
fn entry_takes_the_date_it_is_given() {
    let source = record("A", "p", 0);
    assert_eq!(entry_from_record(&source, 3, Some("2001-02-03".to_string())), Ok(entry("A", "p", "2001-02-03")));
    assert_eq!(entry_from_record(&source, 3, None), Err(CatalogParseError::BadTimestamp { index: 3 }));
}

#[test]
fn records_are_dated_or_refused_together() {
    assert_eq!(
        entries_from_records(&vec![record("A", "a", 0), record("B", "b", 86_400)]),
        Ok(vec![entry("A", "a", "1970-01-01"), entry("B", "b", "1970-01-02")])
    );
    assert_eq!(
        entries_from_records(&vec![record("A", "a", 0), record("B", "b", i64::MAX), record("C", "c", i64::MIN)]),
        Err(CatalogParseError::BadTimestamp { index: 1 })
    );
    assert_eq!(entries_from_records(&[]), Ok(vec![]));
}

#[test]
fn field_names() {
    assert_eq!(Field::Title.as_str(), "title");
    assert_eq!(Field::Poster.as_str(), "poster");
    assert_eq!(Field::ReleaseDate.as_str(), "release_date");
}

#[test]
fn failed_request_loads_nothing() {
    let mut catalog = Catalog::new();
    let outcome = Err(TransportError { message: "timed out".to_string() });
    assert_eq!(catalog.complete_load(&outcome), Err(LoadError::Transport));
    assert!(catalog.is_empty());
}

#[test]
fn answered_request_is_parsed() {
    let mut catalog = Catalog::new();
    let refused = Ok(Response { body: b"[{\"title\":\"A\"}]".to_vec(), content_type: None });
    assert_eq!(
        catalog.complete_load(&refused),
        Err(LoadError::Parse(CatalogParseError::MissingField { index: 0, field: Field::Poster }))
    );
    assert!(catalog.is_empty());
    let accepted = Ok(Response {
        body: b"[{\"title\":\"A\",\"poster\":\"p\",\"release_date\":0}]".to_vec(),
        content_type: Some("application/json".to_string()),
    });
    assert_eq!(catalog.complete_load(&accepted), Ok(vec!["p".to_string()]));
    assert_eq!(catalog.get(0), Some(&entry("A", "p", "1970-01-01")));
}

#[test]
fn redraw_follows_every_answered_load() {
    assert!(load_wants_redraw(&Ok(vec!["p".to_string()])));
    assert!(load_wants_redraw(&Ok(vec![])));
    assert!(load_wants_redraw(&Err(LoadError::Parse(CatalogParseError::NotJson))));
    assert!(load_wants_redraw(&Err(LoadError::Parse(CatalogParseError::BadTimestamp { index: 0 }))));
    assert!(!load_wants_redraw(&Err(LoadError::Transport)));
}

#[test]
fn publish_adds_behind() {
    let mut catalog = Catalog::new();
    catalog.publish(vec![entry("A", "a", "1970-01-01")]);
    catalog.publish(vec![]);
    catalog.publish(vec![entry("B", "b", "1970-01-02"), entry("C", "c", "1970-01-03")]);
    assert_eq!(catalog.len(), 3);
    assert_eq!(catalog.get(0), Some(&entry("A", "a", "1970-01-01")));
    assert_eq!(catalog.get(2), Some(&entry("C", "c", "1970-01-03")));
}
