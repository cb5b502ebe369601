//! Declarations of the driver's types that the library carries through
//! without looking inside them.

use vstd::prelude::*;

verus! {

/// A handle to a MongoDB deployment.
#[verifier::external_type_specification]
#[verifier::external_body]
pub struct ExClient(mongodb::Client);

/// A handle to one database of a deployment.
#[verifier::external_type_specification]
#[verifier::external_body]
pub struct ExDatabase(mongodb::Database);

/// A handle to one collection of a database.
#[verifier::external_type_specification]
#[verifier::external_body]
#[verifier::reject_recursive_types(T)]
pub struct ExCollection<T>(mongodb::Collection<T>);

/// An owned BSON document in its raw byte encoding, as the server sent it.
#[verifier::external_type_specification]
#[verifier::external_body]
pub struct ExRawDocumentBuf(mongodb::bson::RawDocumentBuf);

/// An iterator over the elements of a raw BSON document.
#[verifier::external_type_specification]
#[verifier::external_body]
pub struct ExRawIter<'a>(mongodb::bson::raw::RawIter<'a>);

/// One element of a raw BSON document, not yet read.
#[verifier::external_type_specification]
#[verifier::external_body]
pub struct ExRawElement<'a>(mongodb::bson::raw::RawElement<'a>);

/// The error of reading raw BSON bytes.
#[verifier::external_type_specification]
#[verifier::external_body]
pub struct ExRawError(mongodb::bson::raw::Error);

/// The error of an operation of the driver.
#[verifier::external_type_specification]
#[verifier::external_body]
pub struct ExMongoError(mongodb::error::Error);

/// The error of parsing an ObjectId from its hex form.
#[verifier::external_type_specification]
#[verifier::external_body]
pub struct ExOidError(mongodb::bson::oid::Error);

} // verus!
