//! The durable store of shortened URLs, as the service sees it.

use vstd::prelude::*;
use crate::models::error::AppError;
use crate::models::url::{TinyUrl, TinyUrlView};

verus! {

/// The records of a durable store, by short code.
pub type Records = Map<Seq<char>, TinyUrlView>;

/// Whether `record` is stored under its own short code in `records`.
pub open spec fn holds(records: Map<Seq<char>, TinyUrlView>, record: TinyUrlView) -> bool {
    records.contains_key(record.short_code) && records[record.short_code] == record
}

/// Whether `record` is a record for `long_url` and none for that URL in
/// `records` was created later.
pub open spec fn latest_for(
    records: Map<Seq<char>, TinyUrlView>,
    long_url: Seq<char>,
    record: TinyUrlView,
) -> bool {
    &&& holds(records, record)
    &&& record.long_url == long_url
    &&& forall|code: Seq<char>| #[trigger]
        records.contains_key(code) && records[code].long_url == long_url
            ==> records[code].created_at.le(record.created_at)
}

/// Whether no record in `records` is for `long_url`.
pub open spec fn none_for(records: Map<Seq<char>, TinyUrlView>, long_url: Seq<char>) -> bool {
    forall|code: Seq<char>| #[trigger]
        records.contains_key(code) ==> records[code].long_url != long_url
}

/// Whether `saved` is what the store made of `given` when it stored it
/// anew: the store assigns the id and the timestamps, the rest is as given.
pub open spec fn stored_as(given: TinyUrlView, saved: TinyUrlView) -> bool {
    &&& saved.short_code == given.short_code
    &&& saved.long_url == given.long_url
    &&& saved.qr_code == given.qr_code
    &&& saved.clicks == given.clicks
}

/// Whether `saved` is what the store made of `given` when it updated the
/// record `before`: id and creation time stay, the rest is as given but for
/// the time of the update, which the store assigns.
pub open spec fn updated_as(before: TinyUrlView, given: TinyUrlView, saved: TinyUrlView) -> bool {
    &&& stored_as(given, saved)
    &&& saved.id == before.id
    &&& saved.created_at == before.created_at
}

/// The durable store: one record for each short code.
///
/// `records` are the records by short code. An operation that fails reports
/// `AppError::Database` and leaves the records as they were. A `reliable`
/// store fails only where it must: on a short code that is taken, and on an
/// update of a record that is not there.
///
/// `records` and `reliable` exist for contracts alone and are never run: an
/// implementation in ordinary Rust gives them bodies that panic.
pub trait UrlRepository {
    /// The records held, by short code.
    spec fn records(&self) -> Records;

    /// Whether this store fails only where it must.
    spec fn reliable(&self) -> bool;

    /// Stores a new record. The short code must be free: a code that is
    /// taken makes the store fail.
    fn create(&mut self, url: &TinyUrl) -> (r: Result<TinyUrl, AppError>)
        ensures
            final(self).reliable() == old(self).reliable(),
            old(self).reliable() ==> (r is Err <==> old(self).records().contains_key(
                url@.short_code,
            )),
            match r {
                Ok(saved) => {
                    &&& !old(self).records().contains_key(url@.short_code)
                    &&& stored_as(url@, saved@)
                    &&& final(self).records() == old(self).records().insert(url@.short_code, saved@)
                },
                Err(e) => e is Database && final(self).records() == old(self).records(),
            },
    ;

    /// The record for `short_code`, if there is one.
    fn find_by_short_code(&self, short_code: &str) -> (r: Result<Option<TinyUrl>, AppError>)
        ensures
            self.reliable() ==> r is Ok,
            match r {
                Ok(Some(found)) => found@.short_code == short_code@ && holds(
                    self.records(),
                    found@,
                ),
                Ok(None) => !self.records().contains_key(short_code@),
                Err(e) => e is Database,
            },
    ;

    /// The record for `long_url` that was created last, if there is any.
    fn find_by_long_url(&self, long_url: &str) -> (r: Result<Option<TinyUrl>, AppError>)
        ensures
            self.reliable() ==> r is Ok,
            match r {
                Ok(Some(found)) => latest_for(self.records(), long_url@, found@),
                Ok(None) => none_for(self.records(), long_url@),
                Err(e) => e is Database,
            },
    ;

    /// Writes the URL, the QR code and the clicks of `url` to the record with
    /// its short code. Where there is no such record the store fails.
    fn update(&mut self, url: &TinyUrl) -> (r: Result<TinyUrl, AppError>)
        ensures
            final(self).reliable() == old(self).reliable(),
            old(self).reliable() ==> (r is Err <==> !old(self).records().contains_key(
                url@.short_code,
            )),
            match r {
                Ok(saved) => {
                    &&& old(self).records().contains_key(url@.short_code)
                    &&& updated_as(old(self).records()[url@.short_code], url@, saved@)
                    &&& final(self).records() == old(self).records().insert(url@.short_code, saved@)
                },
                Err(e) => e is Database && final(self).records() == old(self).records(),
            },
    ;

    /// Removes the record for `short_code` and says whether there was one.
    fn delete_by_short_code(&mut self, short_code: &str) -> (r: Result<bool, AppError>)
        ensures
            final(self).reliable() == old(self).reliable(),
            old(self).reliable() ==> r is Ok,
            match r {
                Ok(removed) => {
                    &&& removed == old(self).records().contains_key(short_code@)
                    &&& final(self).records() == old(self).records().remove(short_code@)
                },
                Err(e) => e is Database && final(self).records() == old(self).records(),
            },
    ;

    /// The record for `short_code` with its click count, if there is one.
    fn get_stats(&self, short_code: &str) -> (r: Result<Option<TinyUrl>, AppError>)
        ensures
            self.reliable() ==> r is Ok,
            match r {
                Ok(Some(found)) => found@.short_code == short_code@ && holds(
                    self.records(),
                    found@,
                ),
                Ok(None) => !self.records().contains_key(short_code@),
                Err(e) => e is Database,
            },
    ;

    /// Whether there is a record for `short_code`.
    fn code_exists(&self, short_code: &str) -> (r: Result<bool, AppError>)
        ensures
            self.reliable() ==> r is Ok,
            match r {
                Ok(found) => found == self.records().contains_key(short_code@),
                Err(e) => e is Database,
            },
    ;
}

} // verus!
