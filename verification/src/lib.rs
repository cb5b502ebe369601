//! Verified core of an asynchronous MongoDB driver for PHP: the BSON and
//! PHP value models and the conversions between them, the reading of the
//! raw BSON documents that the server sends, ObjectId handling,
//! the find options, the client/database/collection handles and the state
//! machine of the document cursor.
#![allow(non_snake_case)]

pub mod external;
pub mod object_id;
pub mod bson;
pub mod zval;
pub mod conversion;
pub mod round_trip;
pub mod conversion_laws;
pub mod cursor;
pub mod find_options;
pub mod client;
pub mod raw_document;
