use poster_catalog::app::{App, LeftMenu};
use poster_catalog::bitmap::DecodeError;
use poster_catalog::catalog::{CatalogParseError, Field, LoadError};
use poster_catalog::fetch::{Completion, Response, TransportError};

const PIXEL_PNG: [u8; 70] = [
    137, 80, 78, 71, 13, 10, 26, 10, 0, 0, 0, 13, 73, 72, 68, 82, 0, 0, 0, 1, 0, 0, 0, 1, 8, 6, 0, 0, 0, 31, 21,
    196, 137, 0, 0, 0, 13, 73, 68, 65, 84, 120, 218, 99, 16, 50, 9, 171, 0, 0, 2, 13, 1, 21, 118, 32, 183, 214, 0,
    0, 0, 0, 73, 69, 78, 68, 174, 66, 96, 130,
];

const TWO_MOVIES: &[u8] = b"[
    {\"title\": \"A\", \"poster\": \"http://localhost:8080/images/a.png\", \"release_date\": 0},
    {\"title\": \"B\", \"poster\": \"http://localhost:8080/images/b.png\", \"release_date\": 86400}
]";

fn body(bytes: &[u8], content_type: Option<&str>) -> Result<Response, TransportError> {
    Ok(Response { body: bytes.to_vec(), content_type: content_type.map(|text| text.to_string()) })
}

fn failure() -> Result<Response, TransportError> {
    Err(TransportError { message: "no route to host".to_string() })
}

#[test]
fn app_starts_with_nothing_loaded() {
    let app = App::new();
    assert_eq!(app.left_menu(), LeftMenu::Action);
    assert!(!app.inspection());
    assert!(app.movies().is_empty());
    assert!(app.images().is_empty());
    assert!(app.poster(0).is_none());
}

#[test]
fn categories_with_a_catalog() {
    assert_eq!(LeftMenu::Action.catalog_url(), Some("http://localhost:8080/movies.1.json"));
    assert_eq!(LeftMenu::Comedy.catalog_url(), Some("http://localhost:8080/movies.2.json"));
    assert_eq!(LeftMenu::Adventure.catalog_url(), None);
    assert_eq!(LeftMenu::BTV.catalog_url(), None);
    assert_eq!(LeftMenu::MTV.catalog_url(), None);
    assert_eq!(LeftMenu::FTV.catalog_url(), None);
    assert_eq!(LeftMenu::WTV.catalog_url(), None);
}

#[test]
fn selecting_a_catalog_asks_for_its_document() {
    let mut app = App::new();
    assert_eq!(app.select(LeftMenu::Comedy), Some("http://localhost:8080/movies.2.json"));
    assert_eq!(app.left_menu(), LeftMenu::Comedy);
    assert_eq!(app.select(LeftMenu::Action), Some("http://localhost:8080/movies.1.json"));
    assert_eq!(app.left_menu(), LeftMenu::Action);
    assert_eq!(app.select(LeftMenu::Action), Some("http://localhost:8080/movies.1.json"));
}

#[test]
fn loaded_catalog_asks_for_its_posters() {
    let mut app = App::new();
    app.select(LeftMenu::Action);
    let posters = app.catalog_loaded(&body(TWO_MOVIES, Some("application/json")));
    assert_eq!(
        posters,
        Ok(vec!["http://localhost:8080/images/a.png".to_string(), "http://localhost:8080/images/b.png".to_string()])
    );
    assert_eq!(app.movies().len(), 2);
    assert_eq!(app.movies().get(1).map(|entry| entry.issue_date.as_str()), Some("1970-01-02"));
    assert!(app.poster(0).is_none());
    assert!(app.poster(1).is_none());
}

#[test]
fn poster_is_drawn_once_it_is_fetched() {
    let mut app = App::new();
    app.select(LeftMenu::Action);
    app.catalog_loaded(&body(TWO_MOVIES, None)).expect("a well-formed document");
    let done = app.image_fetched("http://localhost:8080/images/b.png", &body(&PIXEL_PNG, Some("image/png")));
    assert_eq!(done, Completion::Stored);
    assert!(done.wants_redraw());
    assert!(app.poster(0).is_none());
    assert_eq!(app.poster(1).map(|image| image.pixel(0, 0)), Some(Some([0x12, 0x34, 0x56, 0x78])));
    assert!(app.poster(2).is_none());
    assert_eq!(app.images().len(), 1);
}

#[test]
fn poster_that_does_not_decode_stays_a_placeholder() {
    let mut app = App::new();
    app.select(LeftMenu::Action);
    app.catalog_loaded(&body(TWO_MOVIES, None)).expect("a well-formed document");
    let key = "http://localhost:8080/images/a.png";
    assert_eq!(
        app.image_fetched(key, &body(b"<html>404</html>", Some("text/html"))),
        Completion::Rejected(DecodeError::NotAnImage)
    );
    assert_eq!(app.image_fetched(key, &body(&PIXEL_PNG[..25], None)), Completion::Rejected(DecodeError::Undecodable));
    assert_eq!(app.image_fetched(key, &failure()), Completion::Failed);
    assert!(app.poster(0).is_none());
    assert!(app.images().is_empty());
    assert_eq!(app.movies().len(), 2);
}

#[test]
fn selecting_a_catalog_empties_catalog_and_cache() {
    let mut app = App::new();
    app.select(LeftMenu::Action);
    app.catalog_loaded(&body(TWO_MOVIES, None)).expect("a well-formed document");
    app.image_fetched("http://localhost:8080/images/a.png", &body(&PIXEL_PNG, None));
    assert!(app.poster(0).is_some());
    assert_eq!(app.select(LeftMenu::Comedy), Some("http://localhost:8080/movies.2.json"));
    assert!(app.movies().is_empty());
    assert!(app.images().is_empty());
    assert!(app.poster(0).is_none());
}

#[test]
fn selecting_a_category_without_catalog_keeps_what_is_shown() {
    let mut app = App::new();
    app.select(LeftMenu::Action);
    app.catalog_loaded(&body(TWO_MOVIES, None)).expect("a well-formed document");
    app.image_fetched("http://localhost:8080/images/a.png", &body(&PIXEL_PNG, None));
    assert_eq!(app.select(LeftMenu::Adventure), None);
    assert_eq!(app.left_menu(), LeftMenu::Adventure);
    assert_eq!(app.movies().len(), 2);
    assert_eq!(app.images().len(), 1);
    assert_eq!(app.select(LeftMenu::WTV), None);
    assert_eq!(app.left_menu(), LeftMenu::WTV);
}

#[test]
fn failed_load_leaves_the_catalog_empty() {
    let mut app = App::new();
    app.select(LeftMenu::Action);
    app.catalog_loaded(&body(TWO_MOVIES, None)).expect("a well-formed document");
    app.select(LeftMenu::Comedy);
    let refused = body(b"[{\"title\":\"A\",\"release_date\":0}]", None);
    assert_eq!(
        app.catalog_loaded(&refused),
        Err(LoadError::Parse(CatalogParseError::MissingField { index: 0, field: Field::Poster }))
    );
    assert!(app.movies().is_empty());
    assert_eq!(app.catalog_loaded(&failure()), Err(LoadError::Transport));
    assert!(app.movies().is_empty());
    assert_eq!(app.left_menu(), LeftMenu::Comedy);
}

#[test]
fn late_image_of_an_earlier_catalog_is_stored() {
    let mut app = App::new();
    app.select(LeftMenu::Action);
    app.catalog_loaded(&body(TWO_MOVIES, None)).expect("a well-formed document");
    app.select(LeftMenu::Comedy);
    let done = app.image_fetched("http://localhost:8080/images/a.png", &body(&PIXEL_PNG, None));
    assert_eq!(done, Completion::Stored);
    assert_eq!(app.images().len(), 1);
    assert!(app.movies().is_empty());
}

#[test]
fn inspection_window_opens_and_closes() {
    let mut app = App::new();
    app.set_inspection(true);
    assert!(app.inspection());
    app.set_inspection(false);
    assert!(!app.inspection());
    assert_eq!(app.left_menu(), LeftMenu::Action);
}
