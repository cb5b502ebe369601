//! Conversions between PHP values and BSON.

use vstd::prelude::*;
use vstd::utf8::*;
use crate::bson::{Bson, BsonV, Document, entries_insert, lemma_bson_document_model, lemma_bson_array_model};
use crate::zval::{PhpKey, PhpKeyV, PhpObject, PhpObjectV, PhpType, PhpVal, PhpValue, type_of};
use crate::object_id::{is_object_id_hex, object_id_bytes_of_hex, parse_object_id, hex_of_bytes, object_id_to_hex};

verus! {

broadcast use vstd::string::group_string_axioms;

/// The name of the PHP class that stands for a BSON ObjectId.
pub const OBJECT_ID_CLASS: &'static str = "\\MongoDB\\Bson\\ObjectId";

/// Why a PHP value could not be turned into BSON.
#[derive(Debug, PartialEq)]
pub enum ConversionError {
    /// A string that is not valid UTF-8 ("Binary data was provided!").
    BinaryString,
    /// An object of a class other than the ObjectId class
    /// ("Unexpected object of type {declared_name}, {class_name}!").
    UnexpectedObject { declared_name: String, class_name: String },
    /// An integer key in an array that is not a list
    /// ("Unexpected integer key {key}").
    UnexpectedIntegerKey(i64),
    /// A value of a type that has no BSON counterpart ("Unexpected type {type}").
    UnexpectedType(PhpType),
}

/// The mathematical value of a [`ConversionError`].
pub enum ConversionErrorV {
    BinaryString,
    UnexpectedObject { declared_name: Seq<char>, class_name: Seq<char> },
    UnexpectedIntegerKey(i64),
    UnexpectedType(PhpType),
}

impl View for ConversionError {
    type V = ConversionErrorV;

    open spec fn view(&self) -> ConversionErrorV {
        match self {
            ConversionError::BinaryString => ConversionErrorV::BinaryString,
            ConversionError::UnexpectedObject { declared_name, class_name } => ConversionErrorV::UnexpectedObject {
                declared_name: declared_name@,
                class_name: class_name@,
            },
            ConversionError::UnexpectedIntegerKey(k) => ConversionErrorV::UnexpectedIntegerKey(*k),
            ConversionError::UnexpectedType(t) => ConversionErrorV::UnexpectedType(*t),
        }
    }
}

/// How a conversion ends: with a value, with an error, or by aborting the
/// request (a panic).
pub enum Outcome<T> {
    Value(T),
    Failure(ConversionErrorV),
    Panic,
}

/// The mathematical value of the entries of a PHP array.
pub open spec fn entries_model(es: Seq<(PhpKey, PhpValue)>) -> Seq<(PhpKeyV, PhpVal)> {
    Seq::new(es.len(), |i: int| (es[i].0@, es[i].1@))
}

/// The keys of the array are 0, 1, 2, ... in iteration order.
pub open spec fn is_list(es: Seq<(PhpKeyV, PhpVal)>) -> bool {
    forall|j: int| 0 <= j < es.len() ==> ((#[trigger] es[j]).0 matches PhpKeyV::Long(k) && k as int == j)
}

/// The BSON value of a PHP value: null, booleans, integers, floats and
/// UTF-8 strings map to their BSON counterparts; an array whose keys are
/// 0, 1, 2, ... becomes a BSON array, any other array a document; references
/// and pointers are followed; an object of the ObjectId class becomes the
/// ObjectId that its string form spells.
pub open spec fn bson_of_zval(v: PhpVal) -> Outcome<BsonV>
    decreases v, 1int,
{
    match v {
        PhpVal::Null => Outcome::Value(BsonV::Null),
        PhpVal::Bool(b) => Outcome::Value(BsonV::Boolean(b)),
        PhpVal::Long(n) => Outcome::Value(BsonV::Int64(n)),
        PhpVal::Double(d) => Outcome::Value(BsonV::Double(d)),
        PhpVal::String(bytes) => if valid_utf8(bytes) {
            Outcome::Value(BsonV::String(decode_utf8(bytes)))
        } else {
            Outcome::Failure(ConversionErrorV::BinaryString)
        },
        PhpVal::Array(es) => if is_list(es) {
            match bson_of_list(es, es.len() as int) {
                Outcome::Value(xs) => Outcome::Value(BsonV::Array(xs)),
                Outcome::Failure(e) => Outcome::Failure(e),
                Outcome::Panic => Outcome::Panic,
            }
        } else {
            match document_of_zval(v) {
                Outcome::Value(d) => Outcome::Value(BsonV::Document(d)),
                Outcome::Failure(e) => Outcome::Failure(e),
                Outcome::Panic => Outcome::Panic,
            }
        },
        PhpVal::Reference(b) => bson_of_zval(*b),
        PhpVal::Pointer(b) => bson_of_zval(*b),
        PhpVal::Object(o) => if o.class_name == OBJECT_ID_CLASS@ {
            match o.string_form {
                Some(s) => if is_object_id_hex(s) {
                    Outcome::Value(BsonV::ObjectId(object_id_bytes_of_hex(s)))
                } else {
                    Outcome::Panic
                },
                None => Outcome::Panic,
            }
        } else {
            match o.declared_class {
                Some(t) => Outcome::Failure(
                    ConversionErrorV::UnexpectedObject { declared_name: t, class_name: o.class_name },
                ),
                None => Outcome::Panic,
            }
        },
        PhpVal::Other(t) => Outcome::Failure(ConversionErrorV::UnexpectedType(t)),
    }
}

/// The BSON values of the first `n` entries of a list, converted in order;
/// the first entry that fails decides the outcome.
pub open spec fn bson_of_list(es: Seq<(PhpKeyV, PhpVal)>, n: int) -> Outcome<Seq<BsonV>>
    decreases es, n,
{
    if n <= 0 || n > es.len() {
        Outcome::Value(Seq::empty())
    } else {
        match bson_of_list(es, n - 1) {
            Outcome::Value(xs) => match bson_of_zval(es[n - 1].1) {
                Outcome::Value(x) => Outcome::Value(xs.push(x)),
                Outcome::Failure(e) => Outcome::Failure(e),
                Outcome::Panic => Outcome::Panic,
            },
            Outcome::Failure(e) => Outcome::Failure(e),
            Outcome::Panic => Outcome::Panic,
        }
    }
}

/// The BSON document of a PHP array whose keys are strings; any other value
/// is refused with its type.
pub open spec fn document_of_zval(v: PhpVal) -> Outcome<Seq<(Seq<char>, BsonV)>>
    decreases v, 0int,
{
    match v {
        PhpVal::Array(es) => document_of_entries(es, es.len() as int),
        _ => Outcome::Failure(ConversionErrorV::UnexpectedType(type_of(v))),
    }
}

/// The document built from the first `n` entries, in order: an integer key
/// is refused, a string key is inserted with its converted value.
pub open spec fn document_of_entries(es: Seq<(PhpKeyV, PhpVal)>, n: int) -> Outcome<Seq<(Seq<char>, BsonV)>>
    decreases es, n,
{
    if n <= 0 || n > es.len() {
        Outcome::Value(Seq::empty())
    } else {
        match document_of_entries(es, n - 1) {
            Outcome::Value(d) => match es[n - 1].0 {
                PhpKeyV::Long(k) => Outcome::Failure(ConversionErrorV::UnexpectedIntegerKey(k)),
                PhpKeyV::String(k) => match bson_of_zval(es[n - 1].1) {
                    Outcome::Value(x) => Outcome::Value(entries_insert(d, k, x)),
                    Outcome::Failure(e) => Outcome::Failure(e),
                    Outcome::Panic => Outcome::Panic,
                },
            },
            Outcome::Failure(e) => Outcome::Failure(e),
            Outcome::Panic => Outcome::Panic,
        }
    }
}

/// Once a prefix of a list fails, every longer prefix fails the same way.
proof fn lemma_list_stops(es: Seq<(PhpKeyV, PhpVal)>, m: int, n: int)
    requires
        0 <= m <= n <= es.len(),
        !(bson_of_list(es, m) is Value),
    ensures
        bson_of_list(es, n) == bson_of_list(es, m),
    decreases n - m,
{
    if m < n {
        lemma_list_stops(es, m, n - 1);
    }
}

/// Once a prefix of a document fails, every longer prefix fails the same way.
proof fn lemma_document_stops(es: Seq<(PhpKeyV, PhpVal)>, m: int, n: int)
    requires
        0 <= m <= n <= es.len(),
        !(document_of_entries(es, m) is Value),
    ensures
        document_of_entries(es, n) == document_of_entries(es, m),
    decreases n - m,
{
    if m < n {
        lemma_document_stops(es, m, n - 1);
    }
}

/// The array of a PHP value is the model of its entries.
proof fn lemma_array_model(es: Vec<(PhpKey, PhpValue)>)
    ensures
        PhpValue::Array(es)@ == PhpVal::Array(entries_model(es@)),
{
    let a = PhpValue::Array(es)@;
    if let PhpVal::Array(s) = a {
        assert(s =~= entries_model(es@));
    }
}

/// `res` is the result that the outcome `o` describes.
pub open spec fn bson_result_is(res: Result<Bson, ConversionError>, o: Outcome<BsonV>) -> bool {
    match res {
        Ok(b) => o == Outcome::Value(b@),
        Err(e) => o == Outcome::<BsonV>::Failure(e@),
    }
}

/// `res` is the result that the outcome `o` describes.
pub open spec fn document_result_is(res: Result<Document, ConversionError>, o: Outcome<Seq<(Seq<char>, BsonV)>>) -> bool {
    match res {
        Ok(d) => o == Outcome::Value(d@),
        Err(e) => o == Outcome::<Seq<(Seq<char>, BsonV)>>::Failure(e@),
    }
}

/// `std::str::from_utf8`: the bytes read as a string where they are UTF-8.
/// Trusted: it succeeds exactly on valid UTF-8 and the string holds the
/// characters those bytes encode.
#[verifier::external_body]
fn utf8_str(bytes: &[u8]) -> (res: Option<&str>)
    ensures
        res is Some <==> valid_utf8(bytes@),
        res matches Some(s) ==> s@ == decode_utf8(bytes@),
{
    match std::str::from_utf8(bytes) {
        Ok(s) => Some(s),
        Err(_) => None,
    }
}

/// Whether the keys of the entries are 0, 1, 2, ... in order.
fn keys_form_list(entries: &Vec<(PhpKey, PhpValue)>) -> (res: bool)
    ensures
        res == is_list(entries_model(entries@)),
{
    let ghost es = entries_model(entries@);
    let mut i: usize = 0;
    while i < entries.len()
        invariant
            i <= entries@.len(),
            es == entries_model(entries@),
            forall|j: int| 0 <= j < i ==> ((#[trigger] es[j]).0 matches PhpKeyV::Long(k) && k as int == j),
        decreases entries@.len() - i,
    {
        match &entries[i].0 {
            PhpKey::Long(k) => {
                if !(*k >= 0 && (*k as u64) == (i as u64)) {
                    assert(!((es[i as int]).0 matches PhpKeyV::Long(k) && k as int == i));
                    return false;
                }
            },
            PhpKey::String(_) => {
                assert(!((es[i as int]).0 matches PhpKeyV::Long(k) && k as int == i));
                return false;
            },
        }
        i = i + 1;
    }
    true
}

/// `res` is the result that the outcome `o` describes, with nothing standing
/// for an abort.
pub open spec fn checked_bson_result_is(res: Option<Result<Bson, ConversionError>>, o: Outcome<BsonV>) -> bool {
    match res {
        None => o is Panic,
        Some(r) => bson_result_is(r, o),
    }
}

/// `res` is the result that the outcome `o` describes, with nothing standing
/// for an abort.
pub open spec fn checked_document_result_is(
    res: Option<Result<Document, ConversionError>>,
    o: Outcome<Seq<(Seq<char>, BsonV)>>,
) -> bool {
    match res {
        None => o is Panic,
        Some(r) => document_result_is(r, o),
    }
}

/// Converts a PHP value to BSON; nothing where the conversion aborts the
/// request (an ObjectId object whose string form is missing or is not an
/// ObjectId, or another object whose type tag names no class).
#[verifier::loop_isolation(false)]
pub fn zval_to_bson_checked(zval: &PhpValue) -> (res: Option<Result<Bson, ConversionError>>)
    ensures
        checked_bson_result_is(res, bson_of_zval(zval@)),
    decreases zval, 1int,
{
    match zval {
        PhpValue::Null => Some(Ok(Bson::Null)),
        PhpValue::Bool(b) => Some(Ok(Bson::Boolean(*b))),
        PhpValue::Long(n) => Some(Ok(Bson::Int64(*n))),
        PhpValue::Double(d) => Some(Ok(Bson::Double(*d))),
        PhpValue::String(bytes) => match utf8_str(bytes.as_slice()) {
            None => Some(Err(ConversionError::BinaryString)),
            Some(v) => Some(Ok(Bson::String(v.to_owned()))),
        },
        PhpValue::Array(entries) => {
            proof {
                lemma_array_model(*entries);
            }
            let ghost es = entries_model(entries@);
            if !keys_form_list(entries) {
                return match zval_to_document_checked(zval) {
                    Some(Ok(d)) => {
                        proof {
                            lemma_bson_document_model(d);
                        }
                        Some(Ok(Bson::Document(d)))
                    },
                    Some(Err(e)) => Some(Err(e)),
                    None => None,
                };
            }
            let mut barr: Vec<Bson> = Vec::new();
            assert(barr@.map_values(|b: Bson| b@) =~= Seq::<BsonV>::empty());
            let mut i: usize = 0;
            while i < entries.len()
                invariant
                    i <= entries@.len(),
                    es == entries_model(entries@),
                    zval@ == PhpVal::Array(es),
                    is_list(es),
                    bson_of_list(es, i as int) == Outcome::Value(barr@.map_values(|b: Bson| b@)),
                decreases entries@.len() - i,
            {
                proof {
                    assert(decreases_to!(*zval => zval->Array_0));
                    assert(decreases_to!(zval->Array_0 => zval->Array_0@));
                    assert(decreases_to!(zval->Array_0@ => zval->Array_0@[i as int]));
                    assert(decreases_to!(zval->Array_0@[i as int] => zval->Array_0@[i as int].1));
                }
                assert(es[i as int].1 == entries@[i as int].1@);
                match zval_to_bson_checked(&entries[i].1) {
                    Some(Ok(b)) => {
                        let ghost prev = barr@.map_values(|b: Bson| b@);
                        let ghost bv = b@;
                        barr.push(b);
                        assert(barr@.map_values(|b: Bson| b@) =~= prev.push(bv));
                    },
                    Some(Err(e)) => {
                        proof {
                            lemma_list_stops(es, i + 1, es.len() as int);
                        }
                        return Some(Err(e));
                    },
                    None => {
                        proof {
                            lemma_list_stops(es, i + 1, es.len() as int);
                        }
                        return None;
                    },
                }
                i = i + 1;
            }
            proof {
                lemma_bson_array_model(barr);
            }
            Some(Ok(Bson::Array(barr)))
        },
        PhpValue::Reference(b) => zval_to_bson_checked(b),
        PhpValue::Pointer(b) => zval_to_bson_checked(b),
        PhpValue::Object(o) => {
            let class = String::from_str(OBJECT_ID_CLASS);
            if o.class_name == class {
                match &o.string_form {
                    Some(s) => match parse_object_id(s.as_str()) {
                        Ok(bytes) => Some(Ok(Bson::ObjectId(bytes))),
                        Err(_) => None,
                    },
                    None => None,
                }
            } else {
                match &o.declared_class {
                    Some(t) => Some(Err(ConversionError::UnexpectedObject {
                        declared_name: t.clone(),
                        class_name: o.class_name.clone(),
                    })),
                    None => None,
                }
            }
        },
        PhpValue::Other(t) => Some(Err(ConversionError::UnexpectedType(*t))),
    }
}

/// Converts a PHP array with string keys to a BSON document; nothing where
/// the conversion aborts the request.
#[verifier::loop_isolation(false)]
pub fn zval_to_document_checked(zval: &PhpValue) -> (res: Option<Result<Document, ConversionError>>)
    ensures
        checked_document_result_is(res, document_of_zval(zval@)),
    decreases zval, 0int,
{
    let mut doc = Document::new();
    match zval {
        PhpValue::Array(entries) => {
            proof {
                lemma_array_model(*entries);
            }
            let ghost es = entries_model(entries@);
            let mut i: usize = 0;
            while i < entries.len()
                invariant
                    i <= entries@.len(),
                    es == entries_model(entries@),
                    zval@ == PhpVal::Array(es),
                    document_of_entries(es, i as int) == Outcome::Value(doc@),
                decreases entries@.len() - i,
            {
                proof {
                    assert(decreases_to!(*zval => zval->Array_0));
                    assert(decreases_to!(zval->Array_0 => zval->Array_0@));
                    assert(decreases_to!(zval->Array_0@ => zval->Array_0@[i as int]));
                    assert(decreases_to!(zval->Array_0@[i as int] => zval->Array_0@[i as int].1));
                }
                assert(es[i as int].1 == entries@[i as int].1@);
                assert(es[i as int].0 == entries@[i as int].0@);
                match &entries[i].0 {
                    PhpKey::Long(idx) => {
                        proof {
                            lemma_document_stops(es, i + 1, es.len() as int);
                        }
                        return Some(Err(ConversionError::UnexpectedIntegerKey(*idx)));
                    },
                    PhpKey::String(k) => {
                        match zval_to_bson_checked(&entries[i].1) {
                            Some(Ok(b)) => {
                                doc.insert(k.clone(), b);
                            },
                            Some(Err(e)) => {
                                proof {
                                    lemma_document_stops(es, i + 1, es.len() as int);
                                }
                                return Some(Err(e));
                            },
                            None => {
                                proof {
                                    lemma_document_stops(es, i + 1, es.len() as int);
                                }
                                return None;
                            },
                        }
                    },
                }
                i = i + 1;
            }
            Some(Ok(doc))
        },
        _ => Some(Err(ConversionError::UnexpectedType(zval.get_type()))),
    }
}

/// Converts a PHP value to BSON, on a value whose conversion does not abort.
pub fn zval_to_bson(zval: &PhpValue) -> (res: Result<Bson, ConversionError>)
    requires
        !(bson_of_zval(zval@) is Panic),
    ensures
        bson_result_is(res, bson_of_zval(zval@)),
{
    match zval_to_bson_checked(zval) {
        Some(r) => r,
        None => {
            assert(false);
            Err(ConversionError::BinaryString)
        },
    }
}

/// Converts a PHP array with string keys to a BSON document, on a value
/// whose conversion does not abort.
pub fn zval_to_document(zval: &PhpValue) -> (res: Result<Document, ConversionError>)
    requires
        !(document_of_zval(zval@) is Panic),
    ensures
        document_result_is(res, document_of_zval(zval@)),
{
    match zval_to_document_checked(zval) {
        Some(r) => r,
        None => {
            assert(false);
            Err(ConversionError::BinaryString)
        },
    }
}

/// The BSON value holds only element types that have a PHP counterpart:
/// no null and none of the other types (dates, regular expressions, ...),
/// at any depth.
pub open spec fn is_supported(b: BsonV) -> bool
    decreases b, 0int,
{
    match b {
        BsonV::Null => false,
        BsonV::Other(_) => false,
        BsonV::Array(xs) => all_supported(xs, xs.len() as int),
        BsonV::Document(d) => all_values_supported(d, d.len() as int),
        _ => true,
    }
}

/// The first `n` elements are supported.
pub open spec fn all_supported(xs: Seq<BsonV>, n: int) -> bool
    decreases xs, n,
{
    if n <= 0 || n > xs.len() {
        true
    } else {
        all_supported(xs, n - 1) && is_supported(xs[n - 1])
    }
}

/// The values of the first `n` entries are supported.
pub open spec fn all_values_supported(d: Seq<(Seq<char>, BsonV)>, n: int) -> bool
    decreases d, n,
{
    if n <= 0 || n > d.len() {
        true
    } else {
        all_values_supported(d, n - 1) && is_supported(d[n - 1].1)
    }
}

/// Every element of a supported prefix is supported.
pub proof fn lemma_all_supported(xs: Seq<BsonV>, n: int, i: int)
    requires
        0 <= i < n <= xs.len(),
        all_supported(xs, n),
    ensures
        is_supported(xs[i]),
    decreases n,
{
    if i < n - 1 {
        lemma_all_supported(xs, n - 1, i);
    }
}

/// Every value of a supported prefix is supported.
pub proof fn lemma_all_values_supported(d: Seq<(Seq<char>, BsonV)>, n: int, i: int)
    requires
        0 <= i < n <= d.len(),
        all_values_supported(d, n),
    ensures
        is_supported(d[i].1),
    decreases n,
{
    if i < n - 1 {
        lemma_all_values_supported(d, n - 1, i);
    }
}

/// Elements that are each supported are supported together.
pub proof fn lemma_all_supported_of(xs: Seq<BsonV>, n: int)
    requires
        0 <= n <= xs.len(),
        forall|i: int| 0 <= i < n ==> is_supported(#[trigger] xs[i]),
    ensures
        all_supported(xs, n),
    decreases n,
{
    if n > 0 {
        lemma_all_supported_of(xs, n - 1);
    }
}

/// Entries whose values are each supported are supported together.
pub proof fn lemma_all_values_supported_of(d: Seq<(Seq<char>, BsonV)>, n: int)
    requires
        0 <= n <= d.len(),
        forall|i: int| 0 <= i < n ==> is_supported(#[trigger] d[i].1),
    ensures
        all_values_supported(d, n),
    decreases n,
{
    if n > 0 {
        lemma_all_values_supported_of(d, n - 1);
    }
}

/// An unsupported element makes every longer prefix unsupported.
pub proof fn lemma_not_all_supported(xs: Seq<BsonV>, n: int, i: int)
    requires
        0 <= i < n <= xs.len(),
        !is_supported(xs[i]),
    ensures
        !all_supported(xs, n),
    decreases n,
{
    if i < n - 1 {
        lemma_not_all_supported(xs, n - 1, i);
    }
}

/// An unsupported value makes every longer prefix unsupported.
pub proof fn lemma_not_all_values_supported(d: Seq<(Seq<char>, BsonV)>, n: int, i: int)
    requires
        0 <= i < n <= d.len(),
        !is_supported(d[i].1),
    ensures
        !all_values_supported(d, n),
    decreases n,
{
    if i < n - 1 {
        lemma_not_all_values_supported(d, n - 1, i);
    }
}

/// The PHP value of a BSON value: numbers and booleans map to their PHP
/// counterparts (32-bit integers widen), strings to their UTF-8 bytes, binary
/// data to its bytes, an array to a PHP array keyed 0, 1, 2, ..., a document
/// to a PHP array keyed by its keys, an ObjectId to an object of the ObjectId
/// class built from its hex form.
pub open spec fn zval_of_bson(b: BsonV) -> PhpVal
    decreases b, 0int,
{
    match b {
        BsonV::Double(d) => PhpVal::Double(d),
        BsonV::String(s) => PhpVal::String(encode_utf8(s)),
        BsonV::Array(xs) => PhpVal::Array(
            Seq::new(
                xs.len(),
                |i: int|
                    (
                        PhpKeyV::Long(i as i64),
                        if 0 <= i < xs.len() {
                            zval_of_bson(xs[i])
                        } else {
                            PhpVal::Null
                        },
                    ),
            ),
        ),
        BsonV::Document(d) => PhpVal::Array(zval_entries_of_document(d, d.len() as int)),
        BsonV::Boolean(v) => PhpVal::Bool(v),
        BsonV::ObjectId(bytes) => PhpVal::Object(
            PhpObjectV {
                class_name: OBJECT_ID_CLASS@,
                declared_class: None,
                string_form: Some(hex_of_bytes(bytes)),
            },
        ),
        BsonV::Int32(n) => PhpVal::Long(n as i64),
        BsonV::Int64(n) => PhpVal::Long(n),
        BsonV::Binary(_, bytes) => PhpVal::String(bytes),
        BsonV::Null => PhpVal::Null,
        BsonV::Other(_) => PhpVal::Null,
    }
}

/// The entries of the PHP array built from the first `n` entries of a
/// document, each inserted under its key in order.
pub open spec fn zval_entries_of_document(d: Seq<(Seq<char>, BsonV)>, n: int) -> Seq<(PhpKeyV, PhpVal)>
    decreases d, n,
{
    if n <= 0 || n > d.len() {
        Seq::empty()
    } else {
        entries_insert(
            zval_entries_of_document(d, n - 1),
            PhpKeyV::String(d[n - 1].0),
            zval_of_bson(d[n - 1].1),
        )
    }
}

/// Whether two PHP array keys are the same key.
fn key_eq(a: &PhpKey, b: &PhpKey) -> (res: bool)
    ensures
        res == (a@ == b@),
{
    match (a, b) {
        (PhpKey::Long(x), PhpKey::Long(y)) => *x == *y,
        (PhpKey::String(x), PhpKey::String(y)) => *x == *y,
        _ => false,
    }
}

/// Inserts into the entries of a PHP array: an existing key keeps its place
/// and gets the new value, a new key goes at the end.
fn array_insert(entries: &mut Vec<(PhpKey, PhpValue)>, key: PhpKey, value: PhpValue)
    ensures
        entries_model(final(entries)@) == entries_insert(entries_model(old(entries)@), key@, value@),
{
    let ghost s = entries_model(entries@);
    let mut i: usize = 0;
    while i < entries.len()
        invariant
            i <= entries@.len(),
            s == entries_model(entries@),
            s == entries_model(old(entries)@),
            forall|j: int| 0 <= j < i ==> (#[trigger] s[j]).0 != key@,
        decreases entries@.len() - i,
    {
        if key_eq(&entries[i].0, &key) {
            proof {
                crate::bson::lemma_first_key_index(s, key@, i as int);
            }
            let ghost kv = key@;
            let ghost vv = value@;
            entries[i] = (key, value);
            assert(entries_model(entries@) =~= entries_insert(s, kv, vv));
            return;
        }
        i = i + 1;
    }
    proof {
        assert(!crate::bson::has_key(s, key@)) by {
            if crate::bson::has_key(s, key@) {
                let j = choose|j: int| 0 <= j < s.len() && (#[trigger] s[j]).0 == key@;
                assert(s[j].0 != key@);
            }
        }
    }
    let ghost kv = key@;
    let ghost vv = value@;
    entries.push((key, value));
    assert(entries_model(entries@) =~= entries_insert(s, kv, vv));
}

/// Whether a BSON value can be turned into a PHP value: it holds no null
/// and none of the other element types, at any depth.
#[verifier::loop_isolation(false)]
pub fn bson_is_supported(bson: &Bson) -> (res: bool)
    ensures
        res == is_supported(bson@),
    decreases bson,
{
    match bson {
        Bson::Null => false,
        Bson::Other(_) => false,
        Bson::Array(xs) => {
            proof {
                lemma_bson_array_model(*xs);
            }
            let ghost xv = xs@.map_values(|b: Bson| b@);
            let mut i: usize = 0;
            while i < xs.len()
                invariant
                    i <= xs@.len(),
                    xv == xs@.map_values(|b: Bson| b@),
                    bson@ == BsonV::Array(xv),
                    all_supported(xv, i as int),
                decreases xs@.len() - i,
            {
                proof {
                    assert(decreases_to!(*bson => bson->Array_0));
                    assert(decreases_to!(bson->Array_0 => bson->Array_0@));
                    assert(decreases_to!(bson->Array_0@ => bson->Array_0@[i as int]));
                }
                if !bson_is_supported(&xs[i]) {
                    proof {
                        lemma_not_all_supported(xv, xv.len() as int, i as int);
                    }
                    return false;
                }
                i = i + 1;
            }
            true
        },
        Bson::Document(d) => {
            proof {
                lemma_bson_document_model(*d);
            }
            let mut i: usize = 0;
            while i < d.entries.len()
                invariant
                    i <= d.entries@.len(),
                    bson@ == BsonV::Document(d@),
                    all_values_supported(d@, i as int),
                decreases d.entries@.len() - i,
            {
                proof {
                    assert(decreases_to!(*bson => bson->Document_0));
                    assert(decreases_to!(bson->Document_0 => bson->Document_0.entries));
                    assert(decreases_to!(bson->Document_0.entries => bson->Document_0.entries@));
                    assert(decreases_to!(bson->Document_0.entries@ => bson->Document_0.entries@[i as int]));
                    assert(decreases_to!(bson->Document_0.entries@[i as int] => bson->Document_0.entries@[i as int].1));
                }
                if !bson_is_supported(&d.entries[i].1) {
                    proof {
                        lemma_not_all_values_supported(d@, d@.len() as int, i as int);
                    }
                    return false;
                }
                i = i + 1;
            }
            true
        },
        _ => true,
    }
}

/// Whether every value of a document can be turned into a PHP value.
pub fn document_is_supported(document: &Document) -> (res: bool)
    ensures
        res == all_values_supported(document@, document@.len() as int),
{
    let mut i: usize = 0;
    while i < document.entries.len()
        invariant
            i <= document.entries@.len(),
            all_values_supported(document@, i as int),
        decreases document.entries@.len() - i,
    {
        if !bson_is_supported(&document.entries[i].1) {
            proof {
                lemma_not_all_values_supported(document@, document@.len() as int, i as int);
            }
            return false;
        }
        i = i + 1;
    }
    true
}

/// Converts a BSON value to a PHP value.
#[verifier::loop_isolation(false)]
pub fn bson_to_zval(bson: &Bson) -> (res: PhpValue)
    requires
        is_supported(bson@),
    ensures
        res@ == zval_of_bson(bson@),
    decreases bson, 1int,
{
    match bson {
        Bson::Double(d) => PhpValue::Double(*d),
        Bson::Int32(n) => PhpValue::Long(*n as i64),
        Bson::Int64(n) => PhpValue::Long(*n),
        Bson::Boolean(v) => PhpValue::Bool(*v),
        Bson::String(s) => PhpValue::String(s.as_str().as_bytes_vec()),
        Bson::Binary(_, bytes) => {
            let copy = bytes.clone();
            assert(copy@ =~= bytes@);
            PhpValue::String(copy)
        },
        Bson::ObjectId(bytes) => {
            PhpValue::Object(PhpObject {
                class_name: String::from_str(OBJECT_ID_CLASS),
                declared_class: None,
                string_form: Some(object_id_to_hex(*bytes)),
            })
        },
        Bson::Array(xs) => {
            proof {
                lemma_bson_array_model(*xs);
            }
            let ghost xv = xs@.map_values(|b: Bson| b@);
            let mut zarr: Vec<(PhpKey, PhpValue)> = Vec::new();
            let mut i: usize = 0;
            while i < xs.len()
                invariant
                    i <= xs@.len(),
                    xv == xs@.map_values(|b: Bson| b@),
                    bson@ == BsonV::Array(xv),
                    is_supported(bson@),
                    zarr@.len() == i,
                    forall|j: int| 0 <= j < i ==> (#[trigger] zarr@[j]).0@ == PhpKeyV::Long(j as i64) && zarr@[j].1@ == zval_of_bson(xv[j]),
                decreases xs@.len() - i,
            {
                proof {
                    assert(decreases_to!(*bson => bson->Array_0));
                    assert(decreases_to!(bson->Array_0 => bson->Array_0@));
                    assert(decreases_to!(bson->Array_0@ => bson->Array_0@[i as int]));
                    lemma_all_supported(xv, xv.len() as int, i as int);
                }
                let z = bson_to_zval(&xs[i]);
                zarr.push((PhpKey::Long(#[verifier::truncate] (i as i64)), z));
                i = i + 1;
            }
            let res = PhpValue::Array(zarr);
            proof {
                lemma_array_model(zarr);
                if let PhpVal::Array(t) = zval_of_bson(bson@) {
                    assert(entries_model(zarr@) =~= t);
                }
            }
            res
        },
        Bson::Document(d) => {
            proof {
                lemma_bson_document_model(*d);
                assert(decreases_to!(*bson => bson->Document_0));
            }
            let z = document_entries_to_zval(d);
            proof {
                lemma_array_model(z);
            }
            PhpValue::Array(z)
        },
        Bson::Null => {
            assert(false);
            PhpValue::Null
        },
        Bson::Other(_) => {
            assert(false);
            PhpValue::Null
        },
    }
}

/// The entries of the PHP array built from a document.
#[verifier::loop_isolation(false)]
fn document_entries_to_zval(document: &Document) -> (res: Vec<(PhpKey, PhpValue)>)
    requires
        all_values_supported(document@, document@.len() as int),
    ensures
        entries_model(res@) == zval_entries_of_document(document@, document@.len() as int),
    decreases document, 0int,
{
    let mut zarr: Vec<(PhpKey, PhpValue)> = Vec::new();
    assert(entries_model(zarr@) =~= Seq::<(PhpKeyV, PhpVal)>::empty());
    let mut i: usize = 0;
    while i < document.entries.len()
        invariant
            i <= document.entries@.len(),
            entries_model(zarr@) == zval_entries_of_document(document@, i as int),
        decreases document.entries@.len() - i,
    {
        proof {
            assert(decreases_to!(*document => document.entries));
            assert(decreases_to!(document.entries => document.entries@));
            assert(decreases_to!(document.entries@ => document.entries@[i as int]));
            assert(decreases_to!(document.entries@[i as int] => document.entries@[i as int].1));
            lemma_all_values_supported(document@, document@.len() as int, i as int);
        }
        let z = bson_to_zval(&document.entries[i].1);
        array_insert(&mut zarr, PhpKey::String(document.entries[i].0.clone()), z);
        i = i + 1;
    }
    zarr
}

/// Turns a document into a PHP array, stored into `zval`.
pub fn document_to_zval(document: &Document, zval: &mut PhpValue)
    requires
        all_values_supported(document@, document@.len() as int),
    ensures
        final(zval)@ == PhpVal::Array(zval_entries_of_document(document@, document@.len() as int)),
{
    let z = document_entries_to_zval(document);
    proof {
        lemma_array_model(z);
    }
    *zval = PhpValue::Array(z);
}

/// A PHP array taken as a BSON document.
#[derive(Debug, PartialEq)]
pub struct PhpDocument(pub Document);

/// Whether the conversion to BSON reads the string form of an object of this
/// class: it does for the ObjectId class only.
pub fn reads_string_form(class_name: &String) -> (res: bool)
    ensures
        res == (class_name@ == OBJECT_ID_CLASS@),
{
    let class = String::from_str(OBJECT_ID_CLASS);
    *class_name == class
}

/// A document as the server sent it, on its way to PHP.
#[derive(Debug, PartialEq)]
pub struct PhpRawDocument(pub mongodb::bson::RawDocumentBuf);

impl PhpDocument {
    /// The document of a PHP array with string keys; nothing where the value
    /// is not one.
    pub fn from_zval(zval: &PhpValue) -> (res: Option<PhpDocument>)
        requires
            !(document_of_zval(zval@) is Panic),
        ensures
            document_of_zval(zval@) is Value <==> res is Some,
            res matches Some(d) ==> document_of_zval(zval@) == Outcome::Value(d.0@),
    {
        match zval_to_document(zval) {
            Ok(v) => Some(PhpDocument(v)),
            Err(_) => None,
        }
    }
}

impl From<PhpDocument> for Document {
    /// The document that a PHP array was taken as.
    fn from(v: PhpDocument) -> (res: Document) {
        v.0
    }
}

impl vstd::std_specs::convert::FromSpecImpl<PhpDocument> for Document {
    open spec fn obeys_from_spec() -> bool {
        true
    }

    open spec fn from_spec(v: PhpDocument) -> Document {
        v.0
    }
}

impl From<mongodb::bson::RawDocumentBuf> for PhpRawDocument {
    /// A raw document that the server sent, on its way to PHP.
    fn from(v: mongodb::bson::RawDocumentBuf) -> (res: PhpRawDocument) {
        PhpRawDocument(v)
    }
}

impl vstd::std_specs::convert::FromSpecImpl<mongodb::bson::RawDocumentBuf> for PhpRawDocument {
    open spec fn obeys_from_spec() -> bool {
        true
    }

    open spec fn from_spec(v: mongodb::bson::RawDocumentBuf) -> PhpRawDocument {
        PhpRawDocument(v)
    }
}

} // verus!
