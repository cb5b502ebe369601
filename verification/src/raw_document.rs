//! Reading the raw BSON documents that the server sends into the library's
//! BSON model, and from there into PHP values.

use vstd::prelude::*;
use vstd::slice::slice_to_vec;
use mongodb::bson::raw::{RawBsonRef, RawDocument, RawDocumentBuf, RawElement, RawIter};
use crate::bson::{Bson, BsonV, Document, lemma_bson_array_model, lemma_bson_document_model};
use crate::zval::{PhpVal, PhpValue};
use crate::conversion::{
    PhpRawDocument, document_to_zval, is_supported, lemma_all_supported_of,
    lemma_all_values_supported_of, zval_entries_of_document, zval_of_bson,
};

verus! {

/// One raw element's value, read one level deep, borrowing from the bytes
/// of its document: a nested document or array stays as its bytes.
pub enum RawValue<'a> {
    /// A double, by its IEEE-754 bit pattern.
    Double(u64),
    String(&'a str),
    /// An array, by the bytes of its encoding.
    Array(&'a [u8]),
    /// A document, by the bytes of its encoding.
    Document(&'a [u8]),
    Boolean(bool),
    Null,
    ObjectId([u8; 12]),
    Int32(i32),
    Int64(i64),
    /// Binary data: its subtype byte and its bytes.
    Binary(u8, &'a [u8]),
    /// Any other element type, by its type byte.
    Other(u8),
}

/// The mathematical value of a [`RawValue`].
pub enum RawValueV {
    Double(u64),
    String(Seq<char>),
    Array(Seq<u8>),
    Document(Seq<u8>),
    Boolean(bool),
    Null,
    ObjectId(Seq<u8>),
    Int32(i32),
    Int64(i64),
    Binary(u8, Seq<u8>),
    Other(u8),
}

impl<'a> View for RawValue<'a> {
    type V = RawValueV;

    open spec fn view(&self) -> RawValueV {
        match self {
            RawValue::Double(x) => RawValueV::Double(*x),
            RawValue::String(s) => RawValueV::String((*s)@),
            RawValue::Array(b) => RawValueV::Array((*b)@),
            RawValue::Document(b) => RawValueV::Document((*b)@),
            RawValue::Boolean(b) => RawValueV::Boolean(*b),
            RawValue::Null => RawValueV::Null,
            RawValue::ObjectId(b) => RawValueV::ObjectId(b@),
            RawValue::Int32(n) => RawValueV::Int32(*n),
            RawValue::Int64(n) => RawValueV::Int64(*n),
            RawValue::Binary(t, b) => RawValueV::Binary(*t, (*b)@),
            RawValue::Other(t) => RawValueV::Other(*t),
        }
    }
}

/// What `RawDocumentBuf::as_bytes` gives: the document's encoding.
pub uninterp spec fn raw_document_bytes(doc: RawDocumentBuf) -> Seq<u8>;

/// What iterating over a raw document gives, by its bytes: nothing where
/// `RawDocument::from_bytes` refuses them; otherwise, for each element until
/// the end, its key and value, or nothing where reading that element fails.
pub uninterp spec fn raw_document_elements(bytes: Seq<u8>) -> Option<Seq<Option<(Seq<char>, RawValueV)>>>;

/// The elements that a raw iterator has still to give, nothing standing for
/// an element that fails to parse.
pub uninterp spec fn raw_iter_items(it: RawIter) -> Seq<Option<RawElement>>;

/// What `RawElement::key` gives.
pub uninterp spec fn raw_element_key(elem: RawElement) -> Seq<char>;

/// What `RawElement::value` gives, read one level deep; nothing where it
/// fails.
pub uninterp spec fn raw_element_value(elem: RawElement) -> Option<RawValueV>;

/// The key and value of an item of a raw iterator, if it reads.
pub open spec fn raw_item_entry(x: Option<RawElement>) -> Option<(Seq<char>, RawValueV)> {
    match x {
        Some(e) => match raw_element_value(e) {
            Some(v) => Some((raw_element_key(e), v)),
            None => None,
        },
        None => None,
    }
}

/// A nested document or array in the entry is shorter than `n` bytes.
pub open spec fn nested_below(x: Option<(Seq<char>, RawValueV)>, n: int) -> bool {
    match x {
        Some((_, RawValueV::Document(b))) => b.len() < n,
        Some((_, RawValueV::Array(b))) => b.len() < n,
        _ => true,
    }
}

/// `RawDocumentBuf::as_bytes`: the bytes of the document, as
/// `raw_document_bytes` names them.
#[verifier::external_body]
fn bytes_of_raw_document(doc: &RawDocumentBuf) -> (res: &[u8])
    ensures
        res@ == raw_document_bytes(*doc),
{
    doc.as_bytes()
}

/// `RawDocument::from_bytes`, then `RawDocument::iter_elements` on the
/// document it accepts. Claimed: it accepts the bytes exactly where
/// `raw_document_elements` gives something; the iterator then gives those
/// elements in order; and a nested document or array that an element holds
/// is a part of the bytes that starts after their length, the element's type
/// byte and its key, so it is shorter than them.
#[verifier::external_body]
fn open_raw_document(bytes: &[u8]) -> (res: Result<RawIter<'_>, mongodb::bson::raw::Error>)
    ensures
        res is Ok <==> raw_document_elements(bytes@) is Some,
        res matches Ok(it) ==> raw_iter_items(it).map_values(|x: Option<RawElement>| raw_item_entry(x))
            == raw_document_elements(bytes@)->Some_0,
        res matches Ok(_) ==> forall|i: int|
            0 <= i < raw_document_elements(bytes@)->Some_0.len()
                ==> nested_below(#[trigger] raw_document_elements(bytes@)->Some_0[i], bytes@.len() as int),
{
    match RawDocument::from_bytes(bytes) {
        Ok(doc) => Ok(doc.iter_elements()),
        Err(e) => Err(e),
    }
}

/// `RawIter::next`. Claimed: it gives the iterator's next item (an element,
/// or an error where that element fails to parse) and moves past it, or
/// nothing once no item is left.
#[verifier::external_body]
fn raw_iter_next<'a>(it: &mut RawIter<'a>) -> (res: Option<Result<RawElement<'a>, mongodb::bson::raw::Error>>)
    ensures
        raw_iter_items(*old(it)).len() == 0 ==> res is None,
        raw_iter_items(*old(it)).len() > 0 ==> {
            &&& res matches Some(r)
            &&& (r is Ok <==> raw_iter_items(*old(it))[0] is Some)
            &&& (r matches Ok(e) ==> raw_iter_items(*old(it))[0] == Some(e))
            &&& raw_iter_items(*final(it)) == raw_iter_items(*old(it)).drop_first()
        },
{
    match it.next() {
        Some(Ok(e)) => Some(Ok(e)),
        Some(Err(e)) => Some(Err(e)),
        None => None,
    }
}

/// `RawElement::key`, copied into a `String`.
#[verifier::external_body]
fn key_of_raw_element(elem: &RawElement) -> (res: String)
    ensures
        res@ == raw_element_key(*elem),
{
    elem.key().to_string()
}

/// `RawElement::value`. Claimed: it fails exactly where `raw_element_value`
/// gives nothing; otherwise its value is taken one for one: a double by its
/// bit pattern, a nested document or array by the bytes of its encoding,
/// binary data by its subtype byte and bytes, an element of a type that the
/// library does not read by its type byte.
#[verifier::external_body]
fn value_of_raw_element<'a>(elem: &RawElement<'a>) -> (res: Result<RawValue<'a>, mongodb::bson::raw::Error>)
    ensures
        res is Ok <==> raw_element_value(*elem) is Some,
        res matches Ok(v) ==> raw_element_value(*elem) == Some(v@),
{
    Ok(match elem.value()? {
        RawBsonRef::Double(x) => RawValue::Double(x.to_bits()),
        RawBsonRef::String(s) => RawValue::String(s),
        RawBsonRef::Array(a) => RawValue::Array(a.as_bytes()),
        RawBsonRef::Document(d) => RawValue::Document(d.as_bytes()),
        RawBsonRef::Boolean(b) => RawValue::Boolean(b),
        RawBsonRef::Null => RawValue::Null,
        RawBsonRef::ObjectId(o) => RawValue::ObjectId(o.bytes()),
        RawBsonRef::Int32(n) => RawValue::Int32(n),
        RawBsonRef::Int64(n) => RawValue::Int64(n),
        RawBsonRef::Binary(b) => RawValue::Binary(u8::from(b.subtype), b.bytes),
        other => RawValue::Other(other.element_type() as u8),
    })
}

/// How far walking raw bytes in order gets, as the conversion to PHP walks
/// them (nested documents and arrays where they stand): what was read, or
/// what stopped the walk first.
pub enum RawRead<T> {
    /// Everything was read.
    Read(T),
    /// A value with no PHP counterpart (null, dates, ...) came first.
    Unsupported,
    /// Bytes that fail to read came first.
    Malformed,
}

/// Walks a raw document, at most `d` levels deep.
pub open spec fn raw_doc_read(bytes: Seq<u8>, d: nat) -> RawRead<Seq<(Seq<char>, BsonV)>>
    decreases d, 2int, 0int,
{
    match raw_document_elements(bytes) {
        None => RawRead::Malformed,
        Some(items) => raw_items_read(items, items.len() as int, d),
    }
}

/// Walks the first `n` items, in order.
pub open spec fn raw_items_read(items: Seq<Option<(Seq<char>, RawValueV)>>, n: int, d: nat) -> RawRead<Seq<(Seq<char>, BsonV)>>
    decreases d, 1int, n,
{
    if n <= 0 || n > items.len() {
        RawRead::Read(Seq::empty())
    } else {
        match raw_items_read(items, n - 1, d) {
            RawRead::Read(es) => match items[n - 1] {
                None => RawRead::Malformed,
                Some((k, v)) => match raw_value_read(v, d) {
                    RawRead::Read(b) => RawRead::Read(es.push((k, b))),
                    RawRead::Unsupported => RawRead::Unsupported,
                    RawRead::Malformed => RawRead::Malformed,
                },
            },
            RawRead::Unsupported => RawRead::Unsupported,
            RawRead::Malformed => RawRead::Malformed,
        }
    }
}

/// Walks a raw value; a nested document or array is walked with one level
/// less.
pub open spec fn raw_value_read(v: RawValueV, d: nat) -> RawRead<BsonV>
    decreases d, 0int, 0int,
{
    match v {
        RawValueV::Double(x) => RawRead::Read(BsonV::Double(x)),
        RawValueV::String(s) => RawRead::Read(BsonV::String(s)),
        RawValueV::Array(b) => if d == 0 {
            RawRead::Malformed
        } else {
            match raw_doc_read(b, (d - 1) as nat) {
                RawRead::Read(es) => RawRead::Read(BsonV::Array(es.map_values(|e: (Seq<char>, BsonV)| e.1))),
                RawRead::Unsupported => RawRead::Unsupported,
                RawRead::Malformed => RawRead::Malformed,
            }
        },
        RawValueV::Document(b) => if d == 0 {
            RawRead::Malformed
        } else {
            match raw_doc_read(b, (d - 1) as nat) {
                RawRead::Read(es) => RawRead::Read(BsonV::Document(es)),
                RawRead::Unsupported => RawRead::Unsupported,
                RawRead::Malformed => RawRead::Malformed,
            }
        },
        RawValueV::Boolean(x) => RawRead::Read(BsonV::Boolean(x)),
        RawValueV::Null => RawRead::Unsupported,
        RawValueV::ObjectId(b) => RawRead::Read(BsonV::ObjectId(b)),
        RawValueV::Int32(n) => RawRead::Read(BsonV::Int32(n)),
        RawValueV::Int64(n) => RawRead::Read(BsonV::Int64(n)),
        RawValueV::Binary(t, b) => RawRead::Read(BsonV::Binary(t, b)),
        RawValueV::Other(_) => RawRead::Unsupported,
    }
}

/// Walks a raw document to its end. (Each nested document is shorter than
/// the one holding it, so walking as many levels as there are bytes reaches
/// all of them.)
pub open spec fn raw_document_read(bytes: Seq<u8>) -> RawRead<Seq<(Seq<char>, BsonV)>> {
    raw_doc_read(bytes, bytes.len())
}

/// What a walk reads has a PHP counterpart at every depth.
proof fn lemma_doc_read_supported(bytes: Seq<u8>, d: nat)
    ensures
        raw_doc_read(bytes, d) matches RawRead::Read(es) ==> forall|i: int|
            0 <= i < es.len() ==> is_supported(#[trigger] es[i].1),
    decreases d, 2int, 0int,
{
    if let Some(items) = raw_document_elements(bytes) {
        lemma_items_read_supported(items, items.len() as int, d);
    }
}

proof fn lemma_items_read_supported(items: Seq<Option<(Seq<char>, RawValueV)>>, n: int, d: nat)
    ensures
        raw_items_read(items, n, d) matches RawRead::Read(es) ==> forall|i: int|
            0 <= i < es.len() ==> is_supported(#[trigger] es[i].1),
    decreases d, 1int, n,
{
    if 0 < n <= items.len() {
        lemma_items_read_supported(items, n - 1, d);
        if let Some((k, v)) = items[n - 1] {
            lemma_value_read_supported(v, d);
        }
    }
}

proof fn lemma_value_read_supported(v: RawValueV, d: nat)
    ensures
        raw_value_read(v, d) matches RawRead::Read(b) ==> is_supported(b),
    decreases d, 0int, 0int,
{
    if d > 0 {
        match v {
            RawValueV::Array(b) => {
                lemma_doc_read_supported(b, (d - 1) as nat);
                if let RawRead::Read(es) = raw_doc_read(b, (d - 1) as nat) {
                    let xs = es.map_values(|e: (Seq<char>, BsonV)| e.1);
                    assert forall|i: int| 0 <= i < xs.len() implies is_supported(#[trigger] xs[i]) by {
                        assert(xs[i] == es[i].1);
                    }
                    lemma_all_supported_of(xs, xs.len() as int);
                }
            },
            RawValueV::Document(b) => {
                lemma_doc_read_supported(b, (d - 1) as nat);
                if let RawRead::Read(es) = raw_doc_read(b, (d - 1) as nat) {
                    lemma_all_values_supported_of(es, es.len() as int);
                }
            },
            _ => {},
        }
    }
}

/// Reading a raw scalar keeps its type and payload, and so does its PHP
/// value: a boolean stays that boolean, a 32- or 64-bit integer that integer
/// (a PHP integer), a double its bit pattern, a string its characters, an
/// ObjectId its bytes, binary data its bytes (a PHP string); a null or a
/// value of another type has no PHP counterpart.
pub proof fn law_raw_scalar_keeps_payload(v: RawValueV, d: nat)
    ensures
        v matches RawValueV::Boolean(b) ==> raw_value_read(v, d) == RawRead::Read(BsonV::Boolean(b))
            && zval_of_bson(BsonV::Boolean(b)) == PhpVal::Bool(b),
        v matches RawValueV::Int32(n) ==> raw_value_read(v, d) == RawRead::Read(BsonV::Int32(n))
            && zval_of_bson(BsonV::Int32(n)) == PhpVal::Long(n as i64) && n as i64 == n,
        v matches RawValueV::Int64(n) ==> raw_value_read(v, d) == RawRead::Read(BsonV::Int64(n))
            && zval_of_bson(BsonV::Int64(n)) == PhpVal::Long(n),
        v matches RawValueV::Double(x) ==> raw_value_read(v, d) == RawRead::Read(BsonV::Double(x))
            && zval_of_bson(BsonV::Double(x)) == PhpVal::Double(x),
        v matches RawValueV::String(t) ==> raw_value_read(v, d) == RawRead::Read(BsonV::String(t)),
        v matches RawValueV::ObjectId(b) ==> raw_value_read(v, d) == RawRead::Read(BsonV::ObjectId(b)),
        v matches RawValueV::Binary(t, b) ==> raw_value_read(v, d) == RawRead::Read(BsonV::Binary(t, b))
            && zval_of_bson(BsonV::Binary(t, b)) == PhpVal::String(b),
        v is Null ==> raw_value_read(v, d) is Unsupported,
        v is Other ==> raw_value_read(v, d) is Unsupported,
{
}

/// The values of the first `n` items, each read on its own.
spec fn read_entries(items: Seq<Option<(Seq<char>, RawValueV)>>, n: int, d: nat) -> Seq<(Seq<char>, BsonV)> {
    Seq::new(n as nat, |i: int| (items[i]->Some_0.0, raw_value_read(items[i]->Some_0.1, d)->Read_0))
}

proof fn lemma_items_prefix(items: Seq<Option<(Seq<char>, RawValueV)>>, n: int, d: nat)
    requires
        0 <= n <= items.len(),
        forall|i: int| 0 <= i < items.len() ==> (#[trigger] items[i]) is Some
            && raw_value_read(items[i]->Some_0.1, d) is Read,
    ensures
        raw_items_read(items, n, d) == RawRead::Read(read_entries(items, n, d)),
    decreases n,
{
    if n > 0 {
        lemma_items_prefix(items, n - 1, d);
        assert(items[n - 1] is Some);
        assert(read_entries(items, n - 1, d).push(
            (items[n - 1]->Some_0.0, raw_value_read(items[n - 1]->Some_0.1, d)->Read_0),
        ) =~= read_entries(items, n, d));
    } else {
        assert(read_entries(items, 0, d) =~= Seq::<(Seq<char>, BsonV)>::empty());
    }
}

/// Where every element of a raw document reads, the walk reads them all: as
/// many entries as elements, entry `i` holding the key of element `i` and
/// the value read from it; none is dropped, added or moved.
pub proof fn law_raw_items_keep_every_entry(items: Seq<Option<(Seq<char>, RawValueV)>>, d: nat)
    requires
        forall|i: int| 0 <= i < items.len() ==> (#[trigger] items[i]) is Some
            && raw_value_read(items[i]->Some_0.1, d) is Read,
    ensures
        raw_items_read(items, items.len() as int, d) matches RawRead::Read(es) && {
            &&& es.len() == items.len()
            &&& forall|i: int| 0 <= i < items.len() ==> #[trigger] es[i]
                == (items[i]->Some_0.0, raw_value_read(items[i]->Some_0.1, d)->Read_0)
        },
{
    lemma_items_prefix(items, items.len() as int, d);
}

/// Once a walk of a prefix of the items stops, walks of longer prefixes stop
/// the same way.
proof fn lemma_raw_items_stop(items: Seq<Option<(Seq<char>, RawValueV)>>, m: int, n: int, d: nat)
    requires
        0 <= m <= n <= items.len(),
        !(raw_items_read(items, m, d) is Read),
    ensures
        raw_items_read(items, n, d) == raw_items_read(items, m, d),
    decreases n - m,
{
    if m < n {
        lemma_raw_items_stop(items, m, n - 1, d);
    }
}

/// Walks a raw document, `d` levels deep: its entries, nothing where a value
/// without a PHP counterpart comes first, or the error of the first bytes
/// that fail to read.
#[verifier::loop_isolation(false)]
fn entries_of_raw_bytes(bytes: &[u8], Ghost(d): Ghost<nat>) -> (res: Result<Option<Vec<(String, Bson)>>, mongodb::bson::raw::Error>)
    requires
        bytes@.len() <= d,
    ensures
        res is Err <==> raw_doc_read(bytes@, d) is Malformed,
        res matches Ok(None) <==> raw_doc_read(bytes@, d) is Unsupported,
        res matches Ok(Some(v)) ==> raw_doc_read(bytes@, d) == RawRead::Read(Document { entries: v }@),
    decreases d, 2int, 0int,
{
    let mut it = match open_raw_document(bytes) {
        Ok(it) => it,
        Err(e) => return Err(e),
    };
    let ghost items = raw_document_elements(bytes@)->Some_0;
    let mut out: Vec<(String, Bson)> = Vec::new();
    let ghost mut i: int = 0;
    assert(Document { entries: out }@ =~= Seq::<(Seq<char>, BsonV)>::empty());
    loop
        invariant
            0 <= i <= items.len(),
            raw_iter_items(it).map_values(|x: Option<RawElement>| raw_item_entry(x)) == items.skip(i),
            raw_items_read(items, i, d) == RawRead::Read(Document { entries: out }@),
            raw_doc_read(bytes@, d) == raw_items_read(items, items.len() as int, d),
        decreases items.len() - i,
    {
        let ghost before = raw_iter_items(it);
        assert(before.len() == items.len() - i);
        match raw_iter_next(&mut it) {
            None => {
                assert(i == items.len());
                return Ok(Some(out));
            },
            Some(Err(e)) => {
                assert(items[i] == raw_item_entry(before[0])) by {
                    assert(items.skip(i)[0] == items[i]);
                    assert(before.map_values(|x: Option<RawElement>| raw_item_entry(x))[0]
                        == raw_item_entry(before[0]));
                }
                proof {
                    lemma_raw_items_stop(items, i + 1, items.len() as int, d);
                }
                return Err(e);
            },
            Some(Ok(elem)) => {
                assert(items[i] == raw_item_entry(before[0])) by {
                    assert(items.skip(i)[0] == items[i]);
                    assert(before.map_values(|x: Option<RawElement>| raw_item_entry(x))[0]
                        == raw_item_entry(before[0]));
                }
                let k = key_of_raw_element(&elem);
                match value_of_raw_element(&elem) {
                    Err(e) => {
                        proof {
                            lemma_raw_items_stop(items, i + 1, items.len() as int, d);
                        }
                        return Err(e);
                    },
                    Ok(v) => {
                        assert(nested_below(items[i], bytes@.len() as int));
                        match bson_of_raw_value(v, Ghost(d)) {
                            Err(e) => {
                                proof {
                                    lemma_raw_items_stop(items, i + 1, items.len() as int, d);
                                }
                                return Err(e);
                            },
                            Ok(None) => {
                                proof {
                                    lemma_raw_items_stop(items, i + 1, items.len() as int, d);
                                }
                                return Ok(None);
                            },
                            Ok(Some(b)) => {
                                let ghost prev = Document { entries: out }@;
                                let ghost kv = k@;
                                let ghost bv = b@;
                                out.push((k, b));
                                assert(Document { entries: out }@ =~= prev.push((kv, bv)));
                            },
                        }
                    },
                }
                proof {
                    let ghost rest = raw_iter_items(it).map_values(|x: Option<RawElement>| raw_item_entry(x));
                    let ghost all = before.map_values(|x: Option<RawElement>| raw_item_entry(x));
                    assert forall|j: int| 0 <= j < rest.len() implies rest[j] == items.skip(i + 1)[j] by {
                        assert(all[j + 1] == items.skip(i)[j + 1]);
                        assert(raw_iter_items(it)[j] == before[j + 1]);
                    }
                    assert(rest =~= items.skip(i + 1));
                    i = i + 1;
                }
            },
        }
    }
}

/// Walks a raw value, `d` levels deep: its BSON value, nothing where a value
/// without a PHP counterpart comes first, or the error of the first bytes
/// that fail to read.
fn bson_of_raw_value(v: RawValue<'_>, Ghost(d): Ghost<nat>) -> (res: Result<Option<Bson>, mongodb::bson::raw::Error>)
    requires
        nested_below(Some((Seq::empty(), v@)), d as int),
    ensures
        res is Err <==> raw_value_read(v@, d) is Malformed,
        res matches Ok(None) <==> raw_value_read(v@, d) is Unsupported,
        res matches Ok(Some(b)) ==> raw_value_read(v@, d) == RawRead::Read(b@),
    decreases d, 0int, 0int,
{
    match v {
        RawValue::Double(x) => Ok(Some(Bson::Double(x))),
        RawValue::String(s) => Ok(Some(Bson::String(String::from_str(s)))),
        RawValue::Boolean(x) => Ok(Some(Bson::Boolean(x))),
        RawValue::Null => Ok(None),
        RawValue::ObjectId(b) => Ok(Some(Bson::ObjectId(b))),
        RawValue::Int32(n) => Ok(Some(Bson::Int32(n))),
        RawValue::Int64(n) => Ok(Some(Bson::Int64(n))),
        RawValue::Binary(t, b) => Ok(Some(Bson::Binary(t, slice_to_vec(b)))),
        RawValue::Other(_) => Ok(None),
        RawValue::Document(b) => {
            match entries_of_raw_bytes(b, Ghost((d - 1) as nat)) {
                Ok(Some(entries)) => {
                    let doc = Document { entries };
                    proof {
                        lemma_bson_document_model(doc);
                    }
                    Ok(Some(Bson::Document(doc)))
                },
                Ok(None) => Ok(None),
                Err(e) => Err(e),
            }
        },
        RawValue::Array(b) => {
            match entries_of_raw_bytes(b, Ghost((d - 1) as nat)) {
                Ok(Some(entries)) => {
                    let ghost es = Document { entries }@;
                    let vals = values_of_entries(entries);
                    proof {
                        lemma_bson_array_model(vals);
                    }
                    assert(vals@.map_values(|x: Bson| x@) =~= es.map_values(|e: (Seq<char>, BsonV)| e.1));
                    Ok(Some(Bson::Array(vals)))
                },
                Ok(None) => Ok(None),
                Err(e) => Err(e),
            }
        },
    }
}

/// The values of the entries, in order.
fn values_of_entries(entries: Vec<(String, Bson)>) -> (res: Vec<Bson>)
    ensures
        res@.map_values(|x: Bson| x@) == (Document { entries }@).map_values(|e: (Seq<char>, BsonV)| e.1),
{
    let ghost orig = Document { entries }@;
    let ghost n = entries@.len();
    let mut entries = entries;
    let mut vals: Vec<Bson> = Vec::new();
    while entries.len() > 0
        invariant
            vals@.len() + entries@.len() == n,
            orig.len() == n,
            forall|j: int| 0 <= j < vals@.len() ==> #[trigger] vals@[j]@ == orig[j].1,
            forall|j: int| 0 <= j < entries@.len() ==> #[trigger] entries@[j].1@ == orig[j + vals@.len()].1,
        decreases entries@.len(),
    {
        let (_, b) = entries.remove(0);
        vals.push(b);
    }
    assert(vals@.map_values(|x: Bson| x@) =~= orig.map_values(|e: (Seq<char>, BsonV)| e.1));
    vals
}

/// Writes a raw document that the server sent into `zval` as a PHP array,
/// walking it in order, nested documents and arrays where they stand: the
/// error of the first bytes that fail to read, where they come before any
/// value without a PHP counterpart; `false`, leaving `zval` as it was, where
/// such a value (null, dates, ...) comes first; otherwise `true`, with the
/// array of its entries.
pub fn raw_document_to_zval(doc: &PhpRawDocument, zval: &mut PhpValue) -> (res: Result<bool, mongodb::bson::raw::Error>)
    ensures
        res is Err <==> raw_document_read(raw_document_bytes(doc.0)) is Malformed,
        res matches Ok(false) <==> raw_document_read(raw_document_bytes(doc.0)) is Unsupported,
        res matches Ok(true) <==> raw_document_read(raw_document_bytes(doc.0)) is Read,
        raw_document_read(raw_document_bytes(doc.0)) matches RawRead::Read(d)
            ==> final(zval)@ == PhpVal::Array(zval_entries_of_document(d, d.len() as int)),
        !(res matches Ok(true)) ==> *final(zval) == *old(zval),
{
    let bytes = bytes_of_raw_document(&doc.0);
    match entries_of_raw_bytes(bytes, Ghost(bytes@.len())) {
        Err(e) => Err(e),
        Ok(None) => Ok(false),
        Ok(Some(entries)) => {
            let d = Document { entries };
            proof {
                lemma_doc_read_supported(bytes@, bytes@.len());
                assert(raw_doc_read(bytes@, bytes@.len()) == RawRead::Read(d@));
                let ghost es = raw_doc_read(bytes@, bytes@.len())->Read_0;
                assert forall|i: int| 0 <= i < d@.len() implies is_supported(#[trigger] d@[i].1) by {
                    assert(es[i].1 == d@[i].1);
                }
                lemma_all_values_supported_of(d@, d@.len() as int);
            }
            document_to_zval(&d, zval);
            Ok(true)
        },
    }
}

} // verus!
