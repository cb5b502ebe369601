//! What comes back from BSON of a PHP value that was turned into BSON.

use vstd::prelude::*;
use vstd::utf8::*;
use crate::bson::{BsonV, entries_insert, has_key, keys_unique, lemma_insert_unique};
use crate::zval::{PhpKeyV, PhpVal};
use crate::object_id::{to_lower_hex_digit, law_object_id_hex_normalizes, law_object_id_hex_round_trip};
use crate::conversion::{
    OBJECT_ID_CLASS, Outcome, is_list, bson_of_zval, bson_of_list, document_of_zval,
    document_of_entries, is_supported, all_supported, all_values_supported, zval_of_bson,
    zval_entries_of_document, lemma_all_supported_of, lemma_all_values_supported_of,
};

verus! {

/// The digits of `s` are already in lower case.
pub open spec fn is_lower_hex(s: Seq<char>) -> bool {
    s.map_values(|c: char| to_lower_hex_digit(c)) == s
}

/// A PHP value that BSON can carry there and back: booleans, integers,
/// floats, strings, ObjectId objects whose hex form is in lower case, and
/// arrays of such values with distinct keys.
pub open spec fn round_trips(v: PhpVal) -> bool
    decreases v, 0int,
{
    match v {
        PhpVal::Bool(_) => true,
        PhpVal::Long(_) => true,
        PhpVal::Double(_) => true,
        PhpVal::String(_) => true,
        PhpVal::Array(es) => keys_unique(es) && all_round_trip(es, es.len() as int),
        PhpVal::Object(o) => {
            &&& o.class_name == OBJECT_ID_CLASS@
            &&& o.declared_class is None
            &&& o.string_form matches Some(s) && is_lower_hex(s)
        },
        _ => false,
    }
}

/// The values of the first `n` entries round-trip.
pub open spec fn all_round_trip(es: Seq<(PhpKeyV, PhpVal)>, n: int) -> bool
    decreases es, n,
{
    if n <= 0 || n > es.len() {
        true
    } else {
        all_round_trip(es, n - 1) && round_trips(es[n - 1].1)
    }
}

proof fn lemma_all_round_trip(es: Seq<(PhpKeyV, PhpVal)>, n: int, i: int)
    requires
        0 <= i < n <= es.len(),
        all_round_trip(es, n),
    ensures
        round_trips(es[i].1),
    decreases n,
{
    if i < n - 1 {
        lemma_all_round_trip(es, n - 1, i);
    }
}

/// The first `n` entries of a list convert to BSON values that convert back
/// to the entries' values.
proof fn lemma_list_round_trip(es: Seq<(PhpKeyV, PhpVal)>, n: int)
    requires
        0 <= n <= es.len(),
        all_round_trip(es, es.len() as int),
        bson_of_list(es, n) is Value,
    ensures
        ({
            let xs = bson_of_list(es, n)->Value_0;
            &&& xs.len() == n
            &&& forall|i: int| 0 <= i < n ==> is_supported(#[trigger] xs[i]) && zval_of_bson(xs[i]) == es[i].1
        }),
    decreases es, n,
{
    if n > 0 {
        lemma_list_round_trip(es, n - 1);
        lemma_all_round_trip(es, es.len() as int, n - 1);
        law_php_bson_round_trip(es[n - 1].1);
    }
}

/// The first `n` entries of an array with string keys build a document whose
/// entries are those keys, in order, with values that convert back to the
/// entries' values.
proof fn lemma_document_round_trip(es: Seq<(PhpKeyV, PhpVal)>, n: int)
    requires
        0 <= n <= es.len(),
        keys_unique(es),
        all_round_trip(es, es.len() as int),
        document_of_entries(es, n) is Value,
    ensures
        ({
            let d = document_of_entries(es, n)->Value_0;
            &&& d.len() == n
            &&& forall|i: int| 0 <= i < n ==> {
                &&& es[i].0 == PhpKeyV::String((#[trigger] d[i]).0)
                &&& is_supported(d[i].1)
                &&& zval_of_bson(d[i].1) == es[i].1
            }
        }),
    decreases es, n,
{
    if n > 0 {
        lemma_document_round_trip(es, n - 1);
        lemma_all_round_trip(es, es.len() as int, n - 1);
        law_php_bson_round_trip(es[n - 1].1);
        let d0 = document_of_entries(es, n - 1)->Value_0;
        let k = es[n - 1].0->String_0;
        assert(!has_key(d0, k)) by {
            if has_key(d0, k) {
                let j = choose|j: int| 0 <= j < d0.len() && (#[trigger] d0[j]).0 == k;
                assert(es[j].0 == es[n - 1].0);
            }
        }
        assert(keys_unique(d0)) by {
            assert forall|a: int, b: int| 0 <= a < d0.len() && 0 <= b < d0.len() && a != b implies (#[trigger] d0[a]).0 != (#[trigger] d0[b]).0 by {
                assert(es[a].0 != es[b].0);
            }
        }
        lemma_insert_unique(d0, k, bson_of_zval(es[n - 1].1)->Value_0);
    }
}

/// Reading back a document whose keys are the array's string keys, in order,
/// and whose values read back to the array's values gives the array.
proof fn lemma_entries_of_document(es: Seq<(PhpKeyV, PhpVal)>, d: Seq<(Seq<char>, BsonV)>, m: int)
    requires
        0 <= m <= d.len(),
        d.len() == es.len(),
        keys_unique(es),
        forall|i: int| 0 <= i < d.len() ==> {
            &&& es[i].0 == PhpKeyV::String((#[trigger] d[i]).0)
            &&& zval_of_bson(d[i].1) == es[i].1
        },
    ensures
        zval_entries_of_document(d, m) == es.take(m),
    decreases m,
{
    if m > 0 {
        lemma_entries_of_document(es, d, m - 1);
        let prev = es.take(m - 1);
        assert(!has_key(prev, PhpKeyV::String(d[m - 1].0))) by {
            if has_key(prev, PhpKeyV::String(d[m - 1].0)) {
                let j = choose|j: int| 0 <= j < prev.len() && (#[trigger] prev[j]).0 == PhpKeyV::String(d[m - 1].0);
                assert(es[j].0 == es[m - 1].0);
            }
        }
        assert(es[m - 1] == (es[m - 1].0, es[m - 1].1));
        assert(es.take(m) =~= prev.push((PhpKeyV::String(d[m - 1].0), zval_of_bson(d[m - 1].1))));
    }
}

/// A PHP value of the kinds that BSON can carry, once turned into BSON,
/// converts back to the same PHP value: the BSON value holds only supported
/// types, and reading it gives the value that was written.
pub proof fn law_php_bson_round_trip(v: PhpVal)
    requires
        round_trips(v),
        bson_of_zval(v) is Value,
    ensures
        is_supported(bson_of_zval(v)->Value_0),
        zval_of_bson(bson_of_zval(v)->Value_0) == v,
    decreases v, 0int,
{
    match v {
        PhpVal::String(bytes) => {
            decode_utf8_encode_utf8(bytes);
        },
        PhpVal::Object(o) => {
            let s = o.string_form->Some_0;
            law_object_id_hex_normalizes(s);
        },
        PhpVal::Array(es) => {
            if is_list(es) {
                lemma_list_round_trip(es, es.len() as int);
                let xs = bson_of_list(es, es.len() as int)->Value_0;
                assert(bson_of_zval(v) == Outcome::Value(BsonV::Array(xs)));
                lemma_all_supported_of(xs, xs.len() as int);
                if let PhpVal::Array(t) = zval_of_bson(BsonV::Array(xs)) {
                    assert forall|i: int| 0 <= i < es.len() implies #[trigger] t[i] == es[i] by {
                        let k = es[i].0->Long_0;
                        assert(es[i].0 == PhpKeyV::Long(k));
                        assert(k as int == i);
                        assert(i as i64 == k);
                    }
                    assert(t =~= es);
                }
            } else {
                assert(document_of_zval(v) == document_of_entries(es, es.len() as int));
                lemma_document_round_trip(es, es.len() as int);
                let d = document_of_entries(es, es.len() as int)->Value_0;
                assert(bson_of_zval(v) == Outcome::Value(BsonV::Document(d)));
                lemma_all_values_supported_of(d, d.len() as int);
                lemma_entries_of_document(es, d, d.len() as int);
                assert(es.take(es.len() as int) =~= es);
            }
        },
        _ => {},
    }
}

/// A BSON value with every 32-bit integer widened to 64 bits, at any depth.
pub open spec fn widen(b: BsonV) -> BsonV
    decreases b, 0int,
{
    match b {
        BsonV::Int32(n) => BsonV::Int64(n as i64),
        BsonV::Array(xs) => BsonV::Array(
            Seq::new(xs.len(), |i: int| if 0 <= i < xs.len() { widen(xs[i]) } else { BsonV::Null }),
        ),
        BsonV::Document(d) => BsonV::Document(
            Seq::new(
                d.len(),
                |i: int| if 0 <= i < d.len() { (d[i].0, widen(d[i].1)) } else { (d[i].0, BsonV::Null) },
            ),
        ),
        _ => b,
    }
}

/// A BSON value that PHP can carry there and back: booleans, integers,
/// doubles, strings, 12-byte ObjectIds, arrays of such values (no longer than
/// `i64::MAX`, the largest PHP array index) and non-empty documents of such
/// values with distinct keys.
pub open spec fn bson_round_trips(b: BsonV) -> bool
    decreases b, 0int,
{
    match b {
        BsonV::Boolean(_) => true,
        BsonV::Int32(_) => true,
        BsonV::Int64(_) => true,
        BsonV::Double(_) => true,
        BsonV::String(_) => true,
        BsonV::ObjectId(bytes) => bytes.len() == 12,
        BsonV::Array(xs) => xs.len() <= i64::MAX && all_bson_round_trip(xs, xs.len() as int),
        BsonV::Document(d) => d.len() > 0 && keys_unique(d) && all_values_bson_round_trip(d, d.len() as int),
        _ => false,
    }
}

/// The first `n` elements round-trip.
pub open spec fn all_bson_round_trip(xs: Seq<BsonV>, n: int) -> bool
    decreases xs, n,
{
    if n <= 0 || n > xs.len() {
        true
    } else {
        all_bson_round_trip(xs, n - 1) && bson_round_trips(xs[n - 1])
    }
}

/// The values of the first `n` entries round-trip.
pub open spec fn all_values_bson_round_trip(d: Seq<(Seq<char>, BsonV)>, n: int) -> bool
    decreases d, n,
{
    if n <= 0 || n > d.len() {
        true
    } else {
        all_values_bson_round_trip(d, n - 1) && bson_round_trips(d[n - 1].1)
    }
}

proof fn lemma_all_bson_round_trip(xs: Seq<BsonV>, n: int, i: int)
    requires
        0 <= i < n <= xs.len(),
        all_bson_round_trip(xs, n),
    ensures
        bson_round_trips(xs[i]),
    decreases n,
{
    if i < n - 1 {
        lemma_all_bson_round_trip(xs, n - 1, i);
    }
}

proof fn lemma_all_values_bson_round_trip(d: Seq<(Seq<char>, BsonV)>, n: int, i: int)
    requires
        0 <= i < n <= d.len(),
        all_values_bson_round_trip(d, n),
    ensures
        bson_round_trips(d[i].1),
    decreases n,
{
    if i < n - 1 {
        lemma_all_values_bson_round_trip(d, n - 1, i);
    }
}

/// The PHP entries of a BSON array.
pub open spec fn list_entries(xs: Seq<BsonV>) -> Seq<(PhpKeyV, PhpVal)> {
    Seq::new(xs.len(), |i: int| (PhpKeyV::Long(i as i64), if 0 <= i < xs.len() { zval_of_bson(xs[i]) } else { PhpVal::Null }))
}

/// The PHP entries of a document with distinct keys: its keys, in order, with
/// the PHP values of its values.
pub open spec fn named_entries(d: Seq<(Seq<char>, BsonV)>, m: int) -> Seq<(PhpKeyV, PhpVal)> {
    Seq::new(m as nat, |i: int| (PhpKeyV::String(d[i].0), zval_of_bson(d[i].1)))
}

/// The first `n` elements, widened.
pub open spec fn widened_prefix(xs: Seq<BsonV>, n: int) -> Seq<BsonV> {
    Seq::new(n as nat, |i: int| widen(xs[i]))
}

/// The first `n` entries, with their values widened.
pub open spec fn widened_entries(d: Seq<(Seq<char>, BsonV)>, n: int) -> Seq<(Seq<char>, BsonV)> {
    Seq::new(n as nat, |i: int| (d[i].0, widen(d[i].1)))
}

/// Converting back the first `n` PHP entries of a BSON array gives the
/// widened elements.
proof fn lemma_list_back(xs: Seq<BsonV>, n: int)
    requires
        0 <= n <= xs.len(),
        all_bson_round_trip(xs, xs.len() as int),
    ensures
        bson_of_list(list_entries(xs), n) == Outcome::Value(widened_prefix(xs, n)),
    decreases xs, n,
{
    if n > 0 {
        lemma_list_back(xs, n - 1);
        lemma_all_bson_round_trip(xs, xs.len() as int, n - 1);
        law_bson_php_round_trip(xs[n - 1]);
        assert(list_entries(xs)[n - 1].1 == zval_of_bson(xs[n - 1]));
        assert(widened_prefix(xs, n - 1).push(widen(xs[n - 1])) =~= widened_prefix(xs, n));
    } else {
        assert(widened_prefix(xs, 0) =~= Seq::<BsonV>::empty());
    }
}

/// The PHP array of a document with distinct keys has its keys in order.
pub proof fn lemma_named_entries(d: Seq<(Seq<char>, BsonV)>, m: int)
    requires
        0 <= m <= d.len(),
        keys_unique(d),
    ensures
        zval_entries_of_document(d, m) == named_entries(d, m),
    decreases m,
{
    if m > 0 {
        lemma_named_entries(d, m - 1);
        let prev = named_entries(d, m - 1);
        let k = PhpKeyV::String(d[m - 1].0);
        assert(!has_key(prev, k)) by {
            if has_key(prev, k) {
                let j = choose|j: int| 0 <= j < prev.len() && (#[trigger] prev[j]).0 == k;
                assert(d[j].0 == d[m - 1].0);
            }
        }
        assert(prev.push((k, zval_of_bson(d[m - 1].1))) =~= named_entries(d, m));
    }
}

/// Converting back the first `n` PHP entries of a document with distinct
/// keys gives its keys with the widened values.
proof fn lemma_document_back(d: Seq<(Seq<char>, BsonV)>, n: int)
    requires
        0 <= n <= d.len(),
        keys_unique(d),
        all_values_bson_round_trip(d, d.len() as int),
    ensures
        document_of_entries(named_entries(d, d.len() as int), n) == Outcome::Value(widened_entries(d, n)),
    decreases d, n,
{
    if n > 0 {
        lemma_document_back(d, n - 1);
        lemma_all_values_bson_round_trip(d, d.len() as int, n - 1);
        law_bson_php_round_trip(d[n - 1].1);
        let es = named_entries(d, d.len() as int);
        assert(es[n - 1] == (PhpKeyV::String(d[n - 1].0), zval_of_bson(d[n - 1].1)));
        let prev = widened_entries(d, n - 1);
        assert(!has_key(prev, d[n - 1].0)) by {
            if has_key(prev, d[n - 1].0) {
                let j = choose|j: int| 0 <= j < prev.len() && (#[trigger] prev[j]).0 == d[n - 1].0;
                assert(d[j].0 == d[n - 1].0);
            }
        }
        assert(prev.push((d[n - 1].0, widen(d[n - 1].1))) =~= widened_entries(d, n));
    } else {
        assert(widened_entries(d, 0) =~= Seq::<(Seq<char>, BsonV)>::empty());
    }
}

/// A BSON value of the kinds that PHP can carry, once turned into a PHP
/// value, converts back to the same BSON value with its 32-bit integers
/// widened to 64 bits: every document keeps its key order and every array
/// its element order.
pub proof fn law_bson_php_round_trip(b: BsonV)
    requires
        bson_round_trips(b),
    ensures
        is_supported(b),
        bson_of_zval(zval_of_bson(b)) == Outcome::Value(widen(b)),
    decreases b, 0int,
{
    match b {
        BsonV::String(s) => {
            encode_utf8_valid_utf8(s);
            encode_utf8_decode_utf8(s);
        },
        BsonV::ObjectId(bytes) => {
            law_object_id_hex_round_trip(bytes);
        },
        BsonV::Array(xs) => {
            let es = list_entries(xs);
            assert(zval_of_bson(b) == PhpVal::Array(es)) by {
                if let PhpVal::Array(t) = zval_of_bson(b) {
                    assert(t =~= es);
                }
            }
            assert(is_list(es)) by {
                assert forall|j: int| 0 <= j < es.len() implies ((#[trigger] es[j]).0 matches PhpKeyV::Long(k) && k as int == j) by {
                    assert(es[j].0 == PhpKeyV::Long(j as i64));
                    assert((j as i64) as int == j);
                }
            }
            lemma_list_back(xs, xs.len() as int);
            assert(widened_prefix(xs, xs.len() as int) =~= widen(b)->Array_0);
            assert forall|i: int| 0 <= i < xs.len() implies is_supported(#[trigger] xs[i]) by {
                lemma_all_bson_round_trip(xs, xs.len() as int, i);
                law_bson_php_round_trip(xs[i]);
            }
            lemma_all_supported_of(xs, xs.len() as int);
        },
        BsonV::Document(d) => {
            lemma_named_entries(d, d.len() as int);
            let es = named_entries(d, d.len() as int);
            assert(zval_of_bson(b) == PhpVal::Array(es));
            assert(!is_list(es)) by {
                assert(es[0].0 == PhpKeyV::String(d[0].0));
            }
            assert(document_of_zval(PhpVal::Array(es)) == document_of_entries(es, es.len() as int));
            lemma_document_back(d, d.len() as int);
            assert(widened_entries(d, d.len() as int) =~= widen(b)->Document_0);
            assert forall|i: int| 0 <= i < d.len() implies is_supported(#[trigger] d[i].1) by {
                lemma_all_values_bson_round_trip(d, d.len() as int, i);
                law_bson_php_round_trip(d[i].1);
            }
            lemma_all_values_supported_of(d, d.len() as int);
        },
        _ => {},
    }
}

} // verus!
