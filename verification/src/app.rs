//! The state of the application and the decisions it takes.
//!
//! [`App`] owns the catalog on display and the cache of poster images. The
//! program around it draws what the state holds and performs the requests
//! that the state asks for, and reports back how each request ended.

use vstd::prelude::*;
use crate::bitmap::{Bitmap, DecodeError, DecodedImage};
use crate::cache::{cleared, lookup, ResourceCache};
use crate::decode::is_image_type;
use crate::catalog::{load_outcome, posters_of, texts_of, Catalog, EntryView, LoadError};
use crate::fetch::{answered, complete_fetch, Completion, Response, TransportError};

verus! {

/// The categories of the side panel.
#[derive(Clone, Copy, Debug, PartialEq, Eq, Structural)]
pub enum LeftMenu {
    Action,
    Comedy,
    Adventure,
    BTV,
    MTV,
    FTV,
    WTV,
}

impl LeftMenu {
    /// The address of the catalog document of a category, where it has one.
    pub open spec fn catalog_address(self) -> Option<Seq<char>> {
        match self {
            LeftMenu::Action => Some("http://localhost:8080/movies.1.json"@),
            LeftMenu::Comedy => Some("http://localhost:8080/movies.2.json"@),
            _ => None,
        }
    }

    /// The address of the catalog document of a category, where it has one.
    pub fn catalog_url(&self) -> (address: Option<&'static str>)
        ensures
            match address {
                Some(address) => self.catalog_address() == Some(address@),
                None => self.catalog_address() is None,
            },
    {
        match self {
            LeftMenu::Action => Some("http://localhost:8080/movies.1.json"),
            LeftMenu::Comedy => Some("http://localhost:8080/movies.2.json"),
            _ => None,
        }
    }
}

/// The application's state.
pub struct App {
    inspection: bool,
    images: ResourceCache,
    movies: Catalog,
    left_menu: LeftMenu,
}

/// The mathematical value of an [`App`].
pub struct AppView {
    /// Whether the inspection window is open.
    pub inspection: bool,
    pub images: Map<Seq<char>, Bitmap>,
    pub movies: Seq<EntryView>,
    pub left_menu: LeftMenu,
}

impl View for App {
    type V = AppView;

    closed spec fn view(&self) -> AppView {
        AppView {
            inspection: self.inspection,
            images: self.images@,
            movies: self.movies@,
            left_menu: self.left_menu,
        }
    }
}

/// The state after a category was selected. A category with a catalog
/// document starts from an empty catalog and an empty cache, so that nothing
/// of the category shown before is left when its document arrives; any other
/// category changes the selection alone.
pub open spec fn selected(app: AppView, menu: LeftMenu) -> AppView {
    if menu.catalog_address() is Some {
        AppView { inspection: app.inspection, images: cleared(), movies: Seq::empty(), left_menu: menu }
    } else {
        AppView { left_menu: menu, ..app }
    }
}

/// The image to draw for the entry at `index`: the poster from the cache,
/// or `None` where a placeholder is to be drawn instead.
pub open spec fn poster_of(app: AppView, index: int) -> Option<Bitmap> {
    if 0 <= index < app.movies.len() {
        lookup(app.images, app.movies[index].poster)
    } else {
        None
    }
}

impl App {
    /// The state at start: the first category selected, nothing loaded.
    pub fn new() -> (app: App)
        ensures
            app@ == (AppView {
                inspection: false,
                images: cleared(),
                movies: Seq::empty(),
                left_menu: LeftMenu::Action,
            }),
    {
        App { inspection: false, images: ResourceCache::new(), movies: Catalog::new(), left_menu: LeftMenu::Action }
    }

    /// Selects a category and hands back the address of the catalog document
    /// to request, if the category has one.
    ///
    /// The catalog and the cache are emptied here, before the request is
    /// issued. A load that fails later leaves both as it finds them.
    pub fn select(&mut self, menu: LeftMenu) -> (request: Option<&'static str>)
        ensures
            final(self)@ == selected(old(self)@, menu),
            match request {
                Some(address) => menu.catalog_address() == Some(address@),
                None => menu.catalog_address() is None,
            },
    {
        self.left_menu = menu;
        let request = menu.catalog_url();
        if request.is_some() {
            self.movies.clear();
            self.images.clear();
        }
        request
    }

    /// Takes the outcome of the request for a catalog document.
    ///
    /// The entries of a document that is accepted are published behind those
    /// on display, and the addresses of their posters come back to be
    /// fetched. Any other outcome changes nothing.
    pub fn catalog_loaded(&mut self, outcome: &Result<Response, TransportError>) -> (loaded: Result<
        Vec<String>,
        LoadError,
    >)
        ensures
            match loaded {
                Ok(posters) => load_outcome(*outcome) matches Ok(entries) && final(self)@ == (AppView {
                    movies: old(self)@.movies + entries,
                    ..old(self)@
                }) && texts_of(posters@) == posters_of(entries),
                Err(error) => final(self)@ == old(self)@ && load_outcome(*outcome) == Err::<
                    Seq<EntryView>,
                    LoadError,
                >(error),
            },
    {
        self.movies.complete_load(outcome)
    }

    /// Takes the outcome of the fetch of the image at `key`.
    pub fn image_fetched(&mut self, key: &str, outcome: &Result<Response, TransportError>) -> (done: Completion)
        ensures
            final(self)@ == (AppView { images: final(self)@.images, ..old(self)@ }),
            done == Completion::Rejected(DecodeError::NotAnImage) <==> (*outcome matches Ok(response)
                && response.content_type matches Some(content_type) && !is_image_type(content_type@)),
            match *outcome {
                Ok(response) => exists|decoder: Option<(u32, u32, Seq<u8>)>| #[trigger]
                    answered(old(self)@.images, key@, response, decoder, final(self)@.images, done),
                Err(_) => final(self)@ == old(self)@ && done == Completion::Failed,
            },
    {
        let done = complete_fetch(&mut self.images, key, outcome);
        proof {
            if outcome is Ok {
                let response = outcome->Ok_0;
                let decoder = choose|decoder: Option<(u32, u32, Seq<u8>)>| #[trigger]
                    answered(old(self)@.images, key@, response, decoder, self@.images, done);
                assert(answered(old(self)@.images, key@, response, decoder, self@.images, done));
            }
        }
        done
    }

    /// The poster to draw for the entry at `index`, or `None` where the
    /// cache does not hold it and a placeholder is drawn.
    pub fn poster(&self, index: usize) -> (found: Option<&DecodedImage>)
        ensures
            match found {
                Some(image) => poster_of(self@, index as int) == Some(image@) && image@.is_rgba(),
                None => poster_of(self@, index as int) is None,
            },
    {
        match self.movies.get(index) {
            Some(entry) => self.images.get(entry.poster.as_str()),
            None => None,
        }
    }

    /// The catalog on display.
    pub fn movies(&self) -> (movies: &Catalog)
        ensures
            movies@ == self@.movies,
    {
        &self.movies
    }

    /// The cache of poster images.
    pub fn images(&self) -> (images: &ResourceCache)
        ensures
            images@ == self@.images,
    {
        &self.images
    }

    /// The selected category.
    pub fn left_menu(&self) -> (menu: LeftMenu)
        ensures
            menu == self@.left_menu,
    {
        self.left_menu
    }

    /// Whether the inspection window is open.
    pub fn inspection(&self) -> (open: bool)
        ensures
            open == self@.inspection,
    {
        self.inspection
    }

    /// Opens or closes the inspection window.
    pub fn set_inspection(&mut self, open: bool)
        ensures
            final(self)@ == (AppView { inspection: open, ..old(self)@ }),
    {
        self.inspection = open;
    }
}

} // verus!
