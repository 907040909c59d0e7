//! The catalog: display records read from a JSON document.
//!
//! A catalog document is an array of objects, each with a `title`, a
//! `poster` address and a `release_date` in seconds since the Unix epoch.
//! Other fields are passed over. A document with a single faulty record is
//! refused as a whole.

use vstd::prelude::*;
use vstd::utf8::{decode_utf8, valid_utf8};
use crate::date::{issue_date, issue_date_text};
use crate::fetch::{Response, TransportError};
use crate::json::{field_value, fields_view, find_field, items_view, json_document, parse_json, Json, JsonValue};
use crate::text::utf8_text;

verus! {

/// The fields that a record must have.
#[derive(Clone, Copy, Debug, PartialEq, Eq, Structural)]
pub enum Field {
    Title,
    Poster,
    ReleaseDate,
}

/// Why a catalog document was refused.
#[derive(Clone, Copy, Debug, PartialEq, Eq, Structural)]
pub enum CatalogParseError {
    /// The body is not UTF-8 text.
    NotText,
    /// The text is not a JSON document.
    NotJson,
    /// The document is not an array.
    NotAnArray,
    /// The item at `index` is not an object.
    NotAnObject { index: usize },
    /// The record at `index` lacks a field.
    MissingField { index: usize, field: Field },
    /// A field of the record at `index` holds something else than it should:
    /// a title or a poster that is no string, a release date that is no
    /// integer of 64 bits.
    WrongType { index: usize, field: Field },
    /// The release date of the record at `index` lies outside the calendar.
    BadTimestamp { index: usize },
}

impl Field {
    /// The name of the field in a catalog document.
    pub open spec fn name(self) -> Seq<char> {
        match self {
            Field::Title => "title"@,
            Field::Poster => "poster"@,
            Field::ReleaseDate => "release_date"@,
        }
    }

    /// The name of the field in a catalog document.
    pub fn as_str(&self) -> (name: &'static str)
        ensures
            name@ == self.name(),
    {
        match self {
            Field::Title => "title",
            Field::Poster => "poster",
            Field::ReleaseDate => "release_date",
        }
    }
}

/// A record as the catalog document gives it.
#[derive(Debug, PartialEq, Eq)]
pub struct Record {
    pub title: String,
    pub poster: String,
    /// Seconds since the Unix epoch.
    pub release_date: i64,
}

/// The mathematical value of a [`Record`].
pub struct RecordView {
    pub title: Seq<char>,
    pub poster: Seq<char>,
    pub release_date: i64,
}

impl View for Record {
    type V = RecordView;

    open spec fn view(&self) -> RecordView {
        RecordView { title: self.title@, poster: self.poster@, release_date: self.release_date }
    }
}

/// A record as it is displayed.
#[derive(Debug, PartialEq, Eq)]
pub struct CatalogEntry {
    pub title: String,
    /// The address of the poster image, which is also its key in the cache.
    pub poster: String,
    /// The day of release as year, month and day.
    pub issue_date: String,
}

/// The mathematical value of a [`CatalogEntry`].
pub struct EntryView {
    pub title: Seq<char>,
    pub poster: Seq<char>,
    pub issue_date: Seq<char>,
}

impl View for CatalogEntry {
    type V = EntryView;

    open spec fn view(&self) -> EntryView {
        EntryView { title: self.title@, poster: self.poster@, issue_date: self.issue_date@ }
    }
}

/// Converts every item of a sequence, each with its position. The result is
/// that of the first item that fails, or else all the converted items.
pub open spec fn try_map<A, B>(
    items: Seq<A>,
    convert: spec_fn(A, int) -> Result<B, CatalogParseError>,
) -> Result<Seq<B>, CatalogParseError>
    decreases items.len(),
{
    if items.len() == 0 {
        Ok(Seq::empty())
    } else {
        match try_map(items.drop_last(), convert) {
            Err(error) => Err(error),
            Ok(converted) => match convert(items.last(), items.len() - 1) {
                Err(error) => Err(error),
                Ok(last) => Ok(converted.push(last)),
            },
        }
    }
}

/// An error among the first `n` items is the error of the whole.
pub proof fn lemma_error_stays<A, B>(
    items: Seq<A>,
    convert: spec_fn(A, int) -> Result<B, CatalogParseError>,
    n: int,
)
    requires
        0 <= n <= items.len(),
        try_map(items.subrange(0, n), convert) is Err,
    ensures
        try_map(items, convert) == try_map(items.subrange(0, n), convert),
    decreases items.len() - n,
{
    if n == items.len() {
        assert(items.subrange(0, n) =~= items);
    } else {
        assert(items.drop_last().subrange(0, n) =~= items.subrange(0, n));
        lemma_error_stays(items.drop_last(), convert, n);
    }
}

/// All items convert, and each converted item stands at its place, exactly
/// when the whole converts; and if one item fails, the whole fails.
pub proof fn lemma_try_map<A, B>(items: Seq<A>, convert: spec_fn(A, int) -> Result<B, CatalogParseError>)
    ensures
        try_map(items, convert) is Ok <==> forall|i: int|
            0 <= i < items.len() ==> (#[trigger] convert(items[i], i)) is Ok,
        try_map(items, convert) matches Ok(converted) ==> converted.len() == items.len() && forall|i: int|
            0 <= i < items.len() ==> convert(items[i], i) == Ok::<B, CatalogParseError>(#[trigger] converted[i]),
    decreases items.len(),
{
    if items.len() > 0 {
        let earlier = items.drop_last();
        lemma_try_map(earlier, convert);
        if try_map(items, convert) is Ok {
            assert forall|i: int| 0 <= i < items.len() implies (#[trigger] convert(items[i], i)) is Ok by {
                if i < earlier.len() {
                    assert(convert(earlier[i], i) is Ok);
                }
            }
        }
        if forall|i: int| 0 <= i < items.len() ==> (#[trigger] convert(items[i], i)) is Ok {
            assert forall|i: int| 0 <= i < earlier.len() implies (#[trigger] convert(earlier[i], i)) is Ok by {
                assert(convert(items[i], i) is Ok);
            }
            assert(convert(items[items.len() - 1], items.len() - 1) is Ok);
        }
    }
}

/// The fault that is reported is that of the first item that fails.
pub proof fn lemma_first_fault_is_reported<A, B>(
    items: Seq<A>,
    convert: spec_fn(A, int) -> Result<B, CatalogParseError>,
    i: int,
)
    requires
        0 <= i < items.len(),
        convert(items[i], i) is Err,
        forall|j: int| 0 <= j < i ==> (#[trigger] convert(items[j], j)) is Ok,
    ensures
        try_map(items, convert) == Err::<Seq<B>, CatalogParseError>(convert(items[i], i)->Err_0),
{
    let upto = items.subrange(0, i + 1);
    let before = upto.drop_last();
    assert forall|j: int| 0 <= j < before.len() implies (#[trigger] convert(before[j], j)) is Ok by {
        assert(convert(items[j], j) is Ok);
    }
    lemma_try_map(before, convert);
    lemma_error_stays(items, convert, i + 1);
}

/// The string that `fields` hold under the name of `field`.
pub open spec fn text_field(fields: Seq<(Seq<char>, JsonValue)>, field: Field, index: int) -> Result<
    Seq<char>,
    CatalogParseError,
> {
    match field_value(fields, field.name()) {
        None => Err(CatalogParseError::MissingField { index: index as usize, field }),
        Some(JsonValue::Text(text)) => Ok(text),
        Some(_) => Err(CatalogParseError::WrongType { index: index as usize, field }),
    }
}

/// The integer that `fields` hold under the name of `field`.
pub open spec fn integer_field(fields: Seq<(Seq<char>, JsonValue)>, field: Field, index: int) -> Result<
    i64,
    CatalogParseError,
> {
    match field_value(fields, field.name()) {
        None => Err(CatalogParseError::MissingField { index: index as usize, field }),
        Some(JsonValue::Number(Some(integer))) => Ok(integer),
        Some(_) => Err(CatalogParseError::WrongType { index: index as usize, field }),
    }
}

/// The record that the item at `index` of a document stands for. Its fields
/// are looked at in the order title, poster, release date, and the first
/// fault is the one reported.
pub open spec fn record_of(item: JsonValue, index: int) -> Result<RecordView, CatalogParseError> {
    match item {
        JsonValue::Object(fields) => match text_field(fields, Field::Title, index) {
            Err(error) => Err(error),
            Ok(title) => match text_field(fields, Field::Poster, index) {
                Err(error) => Err(error),
                Ok(poster) => match integer_field(fields, Field::ReleaseDate, index) {
                    Err(error) => Err(error),
                    Ok(release_date) => Ok(RecordView { title, poster, release_date }),
                },
            },
        },
        _ => Err(CatalogParseError::NotAnObject { index: index as usize }),
    }
}

/// [`record_of`] as a function value.
pub open spec fn record_converter() -> spec_fn(JsonValue, int) -> Result<RecordView, CatalogParseError> {
    |item: JsonValue, index: int| record_of(item, index)
}

/// The records of a catalog document.
pub open spec fn document_records(document: JsonValue) -> Result<Seq<RecordView>, CatalogParseError> {
    match document {
        JsonValue::Array(items) => try_map(items, record_converter()),
        _ => Err(CatalogParseError::NotAnArray),
    }
}

/// The entry for the record at `index`, given its issue date.
pub open spec fn entry_of(record: RecordView, index: int, date: Option<Seq<char>>) -> Result<
    EntryView,
    CatalogParseError,
> {
    match date {
        Some(issue_date) => Ok(EntryView { title: record.title, poster: record.poster, issue_date }),
        None => Err(CatalogParseError::BadTimestamp { index: index as usize }),
    }
}

/// The entry for a record, dated by the calendar.
pub open spec fn entry_converter() -> spec_fn(RecordView, int) -> Result<EntryView, CatalogParseError> {
    |record: RecordView, index: int| entry_of(record, index, issue_date_text(record.release_date))
}

/// The entries for the records of a document.
pub open spec fn entries_of(records: Seq<RecordView>) -> Result<Seq<EntryView>, CatalogParseError> {
    try_map(records, entry_converter())
}

/// The entries that the body of a response stands for. The body is read as
/// text, the text as JSON, the JSON as records, and only when all records
/// are there is any of them dated.
pub open spec fn catalog_of(body: Seq<u8>) -> Result<Seq<EntryView>, CatalogParseError> {
    if !valid_utf8(body) {
        Err(CatalogParseError::NotText)
    } else {
        match json_document(decode_utf8(body)) {
            None => Err(CatalogParseError::NotJson),
            Some(document) => match document_records(document) {
                Err(error) => Err(error),
                Ok(records) => entries_of(records),
            },
        }
    }
}

/// The values of a sequence of records.
pub open spec fn records_view(records: Seq<Record>) -> Seq<RecordView> {
    Seq::new(records.len(), |i: int| records[i]@)
}

/// The values of a sequence of entries.
pub open spec fn entries_view(entries: Seq<CatalogEntry>) -> Seq<EntryView> {
    Seq::new(entries.len(), |i: int| entries[i]@)
}

/// Reads the string that an object holds under the name of `field`.
fn read_text(fields: &[(String, Json)], field: Field, index: usize) -> (read: Result<String, CatalogParseError>)
    ensures
        match read {
            Ok(text) => text_field(fields_view(fields@), field, index as int) == Ok::<
                Seq<char>,
                CatalogParseError,
            >(text@),
            Err(error) => text_field(fields_view(fields@), field, index as int) == Err::<
                Seq<char>,
                CatalogParseError,
            >(error),
        },
{
    match find_field(fields, field.as_str()) {
        None => Err(CatalogParseError::MissingField { index, field }),
        Some(Json::Text(text)) => Ok(text.clone()),
        Some(_) => Err(CatalogParseError::WrongType { index, field }),
    }
}

/// Reads the integer that an object holds under the name of `field`.
fn read_integer(fields: &[(String, Json)], field: Field, index: usize) -> (read: Result<i64, CatalogParseError>)
    ensures
        read == integer_field(fields_view(fields@), field, index as int),
{
    match find_field(fields, field.as_str()) {
        None => Err(CatalogParseError::MissingField { index, field }),
        Some(Json::Number(Some(integer))) => Ok(*integer),
        Some(_) => Err(CatalogParseError::WrongType { index, field }),
    }
}

/// Reads the record that the item at `index` of a document stands for.
pub fn record_from_json(item: &Json, index: usize) -> (read: Result<Record, CatalogParseError>)
    ensures
        match read {
            Ok(record) => record_of(item@, index as int) == Ok::<RecordView, CatalogParseError>(record@),
            Err(error) => record_of(item@, index as int) == Err::<RecordView, CatalogParseError>(error),
        },
{
    match item {
        Json::Object(fields) => {
            let title = match read_text(fields.as_slice(), Field::Title, index) {
                Ok(title) => title,
                Err(error) => { return Err(error); },
            };
            let poster = match read_text(fields.as_slice(), Field::Poster, index) {
                Ok(poster) => poster,
                Err(error) => { return Err(error); },
            };
            let release_date = match read_integer(fields.as_slice(), Field::ReleaseDate, index) {
                Ok(release_date) => release_date,
                Err(error) => { return Err(error); },
            };
            Ok(Record { title, poster, release_date })
        },
        _ => Err(CatalogParseError::NotAnObject { index }),
    }
}

/// Reads the records of a catalog document: all of them, or the first fault.
pub fn records_from_json(document: &Json) -> (read: Result<Vec<Record>, CatalogParseError>)
    ensures
        match read {
            Ok(records) => document_records(document@) == Ok::<Seq<RecordView>, CatalogParseError>(
                records_view(records@),
            ),
            Err(error) => document_records(document@) == Err::<Seq<RecordView>, CatalogParseError>(error),
        },
{
    let items = match document {
        Json::Array(items) => items,
        _ => { return Err(CatalogParseError::NotAnArray); },
    };
    let ghost all = items_view(items@);
    let mut records: Vec<Record> = Vec::new();
    let mut index: usize = 0;
    assert(records_view(records@) =~= Seq::<RecordView>::empty());
    while index < items.len()
        invariant
            index <= items@.len(),
            all == items_view(items@),
            document@ == JsonValue::Array(all),
            try_map(all.subrange(0, index as int), record_converter()) == Ok::<
                Seq<RecordView>,
                CatalogParseError,
            >(records_view(records@)),
        decreases items@.len() - index,
    {
        let ghost upto = all.subrange(0, index + 1);
        proof {
            assert(upto.drop_last() =~= all.subrange(0, index as int));
            assert(upto.last() == items@[index as int]@);
        }
        match record_from_json(&items[index], index) {
            Ok(record) => {
                assert(records_view(records@.push(record)) =~= records_view(records@).push(record@));
                records.push(record);
            },
            Err(error) => {
                proof {
                    lemma_error_stays(all, record_converter(), index + 1);
                }
                return Err(error);
            },
        }
        index += 1;
    }
    assert(all.subrange(0, index as int) =~= all);
    Ok(records)
}

/// The characters of an issue date, where there is one.
pub open spec fn date_text(date: Option<String>) -> Option<Seq<char>> {
    match date {
        Some(text) => Some(text@),
        None => None,
    }
}

/// Makes the entry of the record at `index` from its issue date, where the
/// calendar gave one.
pub fn entry_from_record(record: &Record, index: usize, date: Option<String>) -> (made: Result<
    CatalogEntry,
    CatalogParseError,
>)
    ensures
        match made {
            Ok(entry) => entry_of(record@, index as int, date_text(date)) == Ok::<EntryView, CatalogParseError>(
                entry@,
            ),
            Err(error) => entry_of(record@, index as int, date_text(date)) == Err::<
                EntryView,
                CatalogParseError,
            >(error),
        },
{
    match date {
        Some(issue_date) => Ok(
            CatalogEntry { title: record.title.clone(), poster: record.poster.clone(), issue_date },
        ),
        None => Err(CatalogParseError::BadTimestamp { index }),
    }
}

/// Dates every record: all of them, or the first whose release date lies
/// outside the calendar.
pub fn entries_from_records(records: &[Record]) -> (made: Result<Vec<CatalogEntry>, CatalogParseError>)
    ensures
        match made {
            Ok(entries) => entries_of(records_view(records@)) == Ok::<Seq<EntryView>, CatalogParseError>(
                entries_view(entries@),
            ),
            Err(error) => entries_of(records_view(records@)) == Err::<Seq<EntryView>, CatalogParseError>(error),
        },
{
    let ghost all = records_view(records@);
    let mut entries: Vec<CatalogEntry> = Vec::new();
    let mut index: usize = 0;
    assert(entries_view(entries@) =~= Seq::<EntryView>::empty());
    while index < records.len()
        invariant
            index <= records@.len(),
            all == records_view(records@),
            try_map(all.subrange(0, index as int), entry_converter()) == Ok::<Seq<EntryView>, CatalogParseError>(
                entries_view(entries@),
            ),
        decreases records@.len() - index,
    {
        let ghost upto = all.subrange(0, index + 1);
        proof {
            assert(upto.drop_last() =~= all.subrange(0, index as int));
            assert(upto.last() == records@[index as int]@);
        }
        let date = issue_date(records[index].release_date);
        match entry_from_record(&records[index], index, date) {
            Ok(entry) => {
                assert(entries_view(entries@.push(entry)) =~= entries_view(entries@).push(entry@));
                entries.push(entry);
            },
            Err(error) => {
                proof {
                    lemma_error_stays(all, entry_converter(), index + 1);
                }
                return Err(error);
            },
        }
        index += 1;
    }
    assert(all.subrange(0, index as int) =~= all);
    Ok(entries)
}

/// Reads the entries of a catalog out of the body of a response: all of
/// them, or the reason why the document is refused.
pub fn parse_catalog(body: &[u8]) -> (parsed: Result<Vec<CatalogEntry>, CatalogParseError>)
    ensures
        match parsed {
            Ok(entries) => catalog_of(body@) == Ok::<Seq<EntryView>, CatalogParseError>(entries_view(entries@)),
            Err(error) => catalog_of(body@) == Err::<Seq<EntryView>, CatalogParseError>(error),
        },
{
    let text = match utf8_text(body) {
        Some(text) => text,
        None => { return Err(CatalogParseError::NotText); },
    };
    let document = match parse_json(text) {
        Some(document) => document,
        None => { return Err(CatalogParseError::NotJson); },
    };
    let records = match records_from_json(&document) {
        Ok(records) => records,
        Err(error) => { return Err(error); },
    };
    entries_from_records(records.as_slice())
}

/// One faulty record is enough for the whole document to be refused.
pub proof fn lemma_one_fault_refuses_all(items: Seq<JsonValue>, i: int)
    requires
        0 <= i < items.len(),
        record_of(items[i], i) is Err,
    ensures
        document_records(JsonValue::Array(items)) is Err,
{
    lemma_try_map(items, record_converter());
    assert(record_converter()(items[i], i) is Err);
}

/// A document in which some record has no poster is refused as a whole,
/// whatever its other records hold, and so is the body that holds it.
pub proof fn lemma_missing_poster_refuses_all(body: Seq<u8>, items: Seq<JsonValue>, i: int)
    requires
        0 <= i < items.len(),
        items[i] matches JsonValue::Object(fields) ==> field_value(fields, Field::Poster.name()) is None,
    ensures
        document_records(JsonValue::Array(items)) is Err,
        valid_utf8(body) && json_document(decode_utf8(body)) == Some(JsonValue::Array(items)) ==> catalog_of(
            body,
        ) is Err,
{
    lemma_one_fault_refuses_all(items, i);
}

/// The poster addresses of entries, in their order.
pub open spec fn posters_of(entries: Seq<EntryView>) -> Seq<Seq<char>> {
    Seq::new(entries.len(), |i: int| entries[i].poster)
}

/// The characters of each of a sequence of strings.
pub open spec fn texts_of(strings: Seq<String>) -> Seq<Seq<char>> {
    Seq::new(strings.len(), |i: int| strings[i]@)
}

/// Why a catalog was not loaded.
#[derive(Clone, Copy, Debug, PartialEq, Eq, Structural)]
pub enum LoadError {
    /// The request for the document failed.
    Transport,
    /// The document came and was refused.
    Parse(CatalogParseError),
}

/// What a load makes of the outcome of the request for the document: the
/// entries to publish, or the reason why there are none.
pub open spec fn load_outcome(outcome: Result<Response, TransportError>) -> Result<Seq<EntryView>, LoadError> {
    match outcome {
        Ok(response) => match catalog_of(response.body@) {
            Ok(entries) => Ok(entries),
            Err(error) => Err(LoadError::Parse(error)),
        },
        Err(_) => Err(LoadError::Transport),
    }
}

/// Whether the screen is to be drawn again after a load: after every request
/// for a document that got an answer, whether or not the document was
/// accepted. A request that failed asks for nothing.
pub fn load_wants_redraw(loaded: &Result<Vec<String>, LoadError>) -> (redraw: bool)
    ensures
        redraw == !(*loaded == Err::<Vec<String>, LoadError>(LoadError::Transport)),
{
    match loaded {
        Err(LoadError::Transport) => false,
        _ => true,
    }
}

/// The records on display, in the order of the documents that brought them.
pub struct Catalog {
    entries: Vec<CatalogEntry>,
}

impl View for Catalog {
    type V = Seq<EntryView>;

    closed spec fn view(&self) -> Seq<EntryView> {
        entries_view(self.entries@)
    }
}

impl Catalog {
    /// A catalog without entries.
    pub fn new() -> (catalog: Catalog)
        ensures
            catalog@ == Seq::<EntryView>::empty(),
    {
        Catalog { entries: Vec::new() }
    }

    /// The number of entries.
    pub fn len(&self) -> (count: usize)
        ensures
            count == self@.len(),
    {
        self.entries.len()
    }

    /// Whether the catalog has no entries.
    pub fn is_empty(&self) -> (empty: bool)
        ensures
            empty == (self@.len() == 0),
    {
        self.entries.len() == 0
    }

    /// The entry at `index`, if the catalog has that many.
    pub fn get(&self, index: usize) -> (found: Option<&CatalogEntry>)
        ensures
            match found {
                Some(entry) => index < self@.len() && entry@ == self@[index as int],
                None => index >= self@.len(),
            },
    {
        if index < self.entries.len() {
            Some(&self.entries[index])
        } else {
            None
        }
    }

    /// Drops every entry.
    pub fn clear(&mut self)
        ensures
            final(self)@ == Seq::<EntryView>::empty(),
    {
        self.entries.clear();
    }

    /// Adds entries behind those that are there.
    pub fn publish(&mut self, entries: Vec<CatalogEntry>)
        ensures
            final(self)@ == old(self)@ + entries_view(entries@),
    {
        let mut entries = entries;
        self.entries.append(&mut entries);
    }

    /// Reads a catalog document and publishes its entries behind those that
    /// are there. The addresses of the posters to fetch come back, one for
    /// each new entry and in their order. A document that is refused leaves
    /// the catalog as it was.
    pub fn load(&mut self, body: &[u8]) -> (loaded: Result<Vec<String>, CatalogParseError>)
        ensures
            match loaded {
                Ok(posters) => catalog_of(body@) matches Ok(entries) && final(self)@ == old(self)@ + entries
                    && texts_of(posters@) == posters_of(entries),
                Err(error) => final(self)@ == old(self)@ && catalog_of(body@) == Err::<
                    Seq<EntryView>,
                    CatalogParseError,
                >(error),
            },
    {
        let entries = match parse_catalog(body) {
            Ok(entries) => entries,
            Err(error) => { return Err(error); },
        };
        let mut posters: Vec<String> = Vec::new();
        let mut index: usize = 0;
        while index < entries.len()
            invariant
                index <= entries@.len(),
                posters@.len() == index,
                forall|i: int| 0 <= i < index ==> posters@[i]@ == entries@[i].poster@,
            decreases entries@.len() - index,
        {
            posters.push(entries[index].poster.clone());
            index += 1;
        }
        self.publish(entries);
        Ok(posters)
    }

    /// Takes the outcome of the request for a catalog document. Where the
    /// request failed, nothing is read and the catalog stays as it was.
    pub fn complete_load(&mut self, outcome: &Result<Response, TransportError>) -> (loaded: Result<
        Vec<String>,
        LoadError,
    >)
        ensures
            match loaded {
                Ok(posters) => load_outcome(*outcome) matches Ok(entries) && final(self)@ == old(self)@ + entries
                    && texts_of(posters@) == posters_of(entries),
                Err(error) => final(self)@ == old(self)@ && load_outcome(*outcome) == Err::<
                    Seq<EntryView>,
                    LoadError,
                >(error),
            },
    {
        match outcome {
            Ok(response) => match self.load(response.body.as_slice()) {
                Ok(posters) => Ok(posters),
                Err(error) => Err(LoadError::Parse(error)),
            },
            Err(_) => Err(LoadError::Transport),
        }
    }
}

} // verus!
