//! The options of a `find` query, as PHP hands them over.

use vstd::prelude::*;
use crate::bson::Document;
use crate::conversion::PhpDocument;

verus! {

/// The options of a `find` query that the PHP class sets. Durations are in
/// nanoseconds. The driver's other options (a BSON comment, the cursor type,
/// a hint, a collation, a read concern, a selection criterion) are left unset.
pub struct FindOptions {
    pub allow_disk_use: Option<bool>,
    pub allow_partial_results: Option<bool>,
    pub batch_size: Option<u32>,
    pub comment: Option<String>,
    pub limit: Option<i64>,
    pub max: Option<Document>,
    pub max_await_time_nanos: Option<u64>,
    pub max_scan: Option<u64>,
    pub max_time_nanos: Option<u64>,
    pub min: Option<Document>,
    pub no_cursor_timeout: Option<bool>,
    pub projection: Option<Document>,
    pub return_key: Option<bool>,
    pub show_record_id: Option<bool>,
    pub skip: Option<u64>,
    pub sort: Option<Document>,
    pub let_vars: Option<Document>,
}

/// The PHP class that holds the options of a `find` query.
pub struct MongoFindOptions {
    pub options: FindOptions,
}

/// The document inside an optional PHP document.
pub open spec fn document_of(d: Option<PhpDocument>) -> Option<Document> {
    match d {
        Some(p) => Some(p.0),
        None => None,
    }
}

/// Each document option is carried unchanged: a given document, whatever
/// its number of entries, is the document of the option; none gives none.
pub proof fn law_document_option_carried(d: Option<PhpDocument>)
    ensures
        document_of(d) is Some <==> d is Some,
        d matches Some(p) ==> document_of(d) == Some(p.0),
{
}

fn take_document(d: Option<PhpDocument>) -> (res: Option<Document>)
    ensures
        res == document_of(d),
{
    match d {
        Some(p) => Some(p.0),
        None => None,
    }
}

impl MongoFindOptions {
    /// Options with each given value in its field; the BSON comment and the
    /// cursor type are accepted and not used.
    pub fn __construct(
        allow_disk_use: Option<bool>,
        allow_partial_results: Option<bool>,
        batch_size: Option<u32>,
        comment: Option<String>,
        _comment_bson: Option<PhpDocument>,
        _cursor_type: Option<u8>,
        limit: Option<i64>,
        max: Option<PhpDocument>,
        max_await_time: Option<u64>,
        max_scan: Option<u64>,
        max_time: Option<u64>,
        min: Option<PhpDocument>,
        no_cursor_timeout: Option<bool>,
        projection: Option<PhpDocument>,
        return_key: Option<bool>,
        show_record_id: Option<bool>,
        skip: Option<u64>,
        sort: Option<PhpDocument>,
        let_vars: Option<PhpDocument>,
    ) -> (res: MongoFindOptions)
        ensures
            res.options == (FindOptions {
                allow_disk_use,
                allow_partial_results,
                batch_size,
                comment,
                limit,
                max: document_of(max),
                max_await_time_nanos: max_await_time,
                max_scan,
                max_time_nanos: max_time,
                min: document_of(min),
                no_cursor_timeout,
                projection: document_of(projection),
                return_key,
                show_record_id,
                skip,
                sort: document_of(sort),
                let_vars: document_of(let_vars),
            }),
    {
        MongoFindOptions {
            options: FindOptions {
                allow_disk_use,
                allow_partial_results,
                batch_size,
                comment,
                limit,
                max: take_document(max),
                max_await_time_nanos: max_await_time,
                max_scan,
                max_time_nanos: max_time,
                min: take_document(min),
                no_cursor_timeout,
                projection: take_document(projection),
                return_key,
                show_record_id,
                skip,
                sort: take_document(sort),
                let_vars: take_document(let_vars),
            },
        }
    }
}

} // verus!
