//! What the conversions keep: every element of a list, every entry of an
//! array with string keys, every entry of a BSON document.

use vstd::prelude::*;
use crate::bson::{BsonV, has_key, keys_unique};
use crate::zval::{PhpKeyV, PhpVal};
use crate::conversion::{
    Outcome, is_list, bson_of_zval, bson_of_list, document_of_zval, document_of_entries,
    zval_of_bson,
};
use crate::round_trip::{lemma_named_entries, named_entries};

verus! {

/// The BSON values of the first `n` entries, each converted on its own.
spec fn converted_values(es: Seq<(PhpKeyV, PhpVal)>, n: int) -> Seq<BsonV> {
    Seq::new(n as nat, |i: int| bson_of_zval(es[i].1)->Value_0)
}

/// The string keys of the first `n` entries with their values, each
/// converted on its own.
spec fn converted_entries(es: Seq<(PhpKeyV, PhpVal)>, n: int) -> Seq<(Seq<char>, BsonV)> {
    Seq::new(n as nat, |i: int| (es[i].0->String_0, bson_of_zval(es[i].1)->Value_0))
}

proof fn lemma_list_prefix(es: Seq<(PhpKeyV, PhpVal)>, n: int)
    requires
        0 <= n <= es.len(),
        forall|i: int| 0 <= i < es.len() ==> (#[trigger] bson_of_zval(es[i].1)) is Value,
    ensures
        bson_of_list(es, n) == Outcome::Value(converted_values(es, n)),
    decreases n,
{
    if n > 0 {
        lemma_list_prefix(es, n - 1);
        assert(bson_of_zval(es[n - 1].1) is Value);
        assert(converted_values(es, n - 1).push(bson_of_zval(es[n - 1].1)->Value_0)
            =~= converted_values(es, n));
    } else {
        assert(converted_values(es, 0) =~= Seq::<BsonV>::empty());
    }
}

proof fn lemma_document_prefix(es: Seq<(PhpKeyV, PhpVal)>, n: int)
    requires
        0 <= n <= es.len(),
        forall|i: int| 0 <= i < es.len() ==> (#[trigger] es[i]).0 is String,
        keys_unique(es),
        forall|i: int| 0 <= i < es.len() ==> (#[trigger] bson_of_zval(es[i].1)) is Value,
    ensures
        document_of_entries(es, n) == Outcome::Value(converted_entries(es, n)),
    decreases n,
{
    if n > 0 {
        lemma_document_prefix(es, n - 1);
        let prev = converted_entries(es, n - 1);
        let k = es[n - 1].0->String_0;
        assert(es[n - 1].0 is String);
        assert(bson_of_zval(es[n - 1].1) is Value);
        assert(!has_key(prev, k)) by {
            if has_key(prev, k) {
                let j = choose|j: int| 0 <= j < prev.len() && (#[trigger] prev[j]).0 == k;
                assert(es[j].0 is String);
                assert(es[j].0 == es[n - 1].0);
            }
        }
        assert(prev.push((k, bson_of_zval(es[n - 1].1)->Value_0)) =~= converted_entries(es, n));
    } else {
        assert(converted_entries(es, 0) =~= Seq::<(Seq<char>, BsonV)>::empty());
    }
}

/// A PHP list whose elements each convert becomes a BSON array of the same
/// length, element `i` being the conversion of list element `i`: no element
/// (null included) is dropped, added or moved.
pub proof fn law_list_keeps_every_element(es: Seq<(PhpKeyV, PhpVal)>)
    requires
        is_list(es),
        forall|i: int| 0 <= i < es.len() ==> (#[trigger] bson_of_zval(es[i].1)) is Value,
    ensures
        bson_of_zval(PhpVal::Array(es)) matches Outcome::Value(BsonV::Array(xs)) && {
            &&& xs.len() == es.len()
            &&& forall|i: int| 0 <= i < es.len() ==> #[trigger] xs[i] == bson_of_zval(es[i].1)->Value_0
        },
{
    lemma_list_prefix(es, es.len() as int);
}

/// A PHP array with distinct string keys whose values each convert becomes a
/// document with as many entries, entry `i` holding key `i` of the array and
/// the conversion of value `i`: no entry (one with a null value included) is
/// dropped, added or moved. Where the array is not empty, converting it as a
/// value gives that document too.
pub proof fn law_document_keeps_every_entry(es: Seq<(PhpKeyV, PhpVal)>)
    requires
        forall|i: int| 0 <= i < es.len() ==> (#[trigger] es[i]).0 is String,
        keys_unique(es),
        forall|i: int| 0 <= i < es.len() ==> (#[trigger] bson_of_zval(es[i].1)) is Value,
    ensures
        document_of_zval(PhpVal::Array(es)) matches Outcome::Value(d) && {
            &&& d.len() == es.len()
            &&& forall|i: int| 0 <= i < es.len() ==> {
                &&& es[i].0 == PhpKeyV::String((#[trigger] d[i]).0)
                &&& d[i].1 == bson_of_zval(es[i].1)->Value_0
            }
            &&& es.len() > 0 ==> bson_of_zval(PhpVal::Array(es)) == Outcome::Value(BsonV::Document(d))
        },
{
    lemma_document_prefix(es, es.len() as int);
    if es.len() > 0 {
        assert(es[0].0 is String);
        assert(!is_list(es));
    }
}

/// Every BSON document with distinct keys, the empty one included, converts
/// to a PHP array with as many entries, entry `i` holding key `i` of the
/// document as a string key and the conversion of value `i`.
pub proof fn law_document_becomes_array(d: Seq<(Seq<char>, BsonV)>)
    requires
        keys_unique(d),
    ensures
        zval_of_bson(BsonV::Document(d)) matches PhpVal::Array(z) && {
            &&& z.len() == d.len()
            &&& forall|i: int| 0 <= i < d.len() ==>
                #[trigger] z[i] == (PhpKeyV::String(d[i].0), zval_of_bson(d[i].1))
        },
{
    lemma_named_entries(d, d.len() as int);
    assert(named_entries(d, d.len() as int).len() == d.len());
}

/// A BSON array converts to a PHP list of the same length, entry `i` having
/// key `i` and the conversion of element `i` (for an array whose positions
/// fit a PHP integer).
pub proof fn law_array_becomes_list(xs: Seq<BsonV>)
    requires
        xs.len() <= i64::MAX,
    ensures
        zval_of_bson(BsonV::Array(xs)) matches PhpVal::Array(z) && {
            &&& z.len() == xs.len()
            &&& is_list(z)
            &&& forall|i: int| 0 <= i < xs.len() ==> (#[trigger] z[i]).1 == zval_of_bson(xs[i])
        },
{
    if let PhpVal::Array(z) = zval_of_bson(BsonV::Array(xs)) {
        assert forall|j: int| 0 <= j < z.len() implies ((#[trigger] z[j]).0 matches PhpKeyV::Long(k) && k as int == j) by {
            assert(z[j].0 == PhpKeyV::Long(j as i64));
            assert((j as i64) as int == j);
        }
    }
}

/// PHP scalars keep their payload in BSON: null stays null, a boolean that
/// boolean, an integer that integer (64-bit), a float its bit pattern; a
/// reference or pointer converts as the value it leads to.
pub proof fn law_php_scalar_keeps_payload(v: PhpVal)
    ensures
        v is Null ==> bson_of_zval(v) == Outcome::Value(BsonV::Null),
        v matches PhpVal::Bool(b) ==> bson_of_zval(v) == Outcome::Value(BsonV::Boolean(b)),
        v matches PhpVal::Long(n) ==> bson_of_zval(v) == Outcome::Value(BsonV::Int64(n)),
        v matches PhpVal::Double(x) ==> bson_of_zval(v) == Outcome::Value(BsonV::Double(x)),
        v matches PhpVal::Reference(b) ==> bson_of_zval(v) == bson_of_zval(*b),
        v matches PhpVal::Pointer(b) ==> bson_of_zval(v) == bson_of_zval(*b),
{
}

/// BSON scalars keep their payload in PHP: a boolean stays that boolean, a
/// 32- or 64-bit integer that integer, a double its bit pattern, binary data
/// its bytes as a PHP string.
pub proof fn law_bson_scalar_keeps_payload(b: BsonV)
    ensures
        b matches BsonV::Boolean(x) ==> zval_of_bson(b) == PhpVal::Bool(x),
        b matches BsonV::Int32(n) ==> zval_of_bson(b) == PhpVal::Long(n as i64) && (n as i64) as int == n as int,
        b matches BsonV::Int64(n) ==> zval_of_bson(b) == PhpVal::Long(n),
        b matches BsonV::Double(x) ==> zval_of_bson(b) == PhpVal::Double(x),
        b matches BsonV::Binary(t, bytes) ==> zval_of_bson(b) == PhpVal::String(bytes),
{
}

} // verus!
