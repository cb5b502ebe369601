//! The library's model of BSON values and documents.

use vstd::prelude::*;

verus! {

/// A BSON value as the library sees it.
#[derive(Debug, PartialEq)]
pub enum Bson {
    /// A double, held by its IEEE-754 bit pattern.
    Double(u64),
    String(String),
    Array(Vec<Bson>),
    Document(Document),
    Boolean(bool),
    Null,
    /// An ObjectId, by its 12 bytes.
    ObjectId([u8; 12]),
    Int32(i32),
    Int64(i64),
    /// Binary data: its subtype byte and its bytes.
    Binary(u8, Vec<u8>),
    /// Any other element type (dates, regular expressions, timestamps, ...),
    /// by its type byte.
    Other(u8),
}

/// A BSON document: its keys and values in order.
#[derive(Debug, PartialEq)]
pub struct Document {
    pub entries: Vec<(String, Bson)>,
}

/// The mathematical value of a [`Bson`].
pub enum BsonV {
    Double(u64),
    String(Seq<char>),
    Array(Seq<BsonV>),
    Document(Seq<(Seq<char>, BsonV)>),
    Boolean(bool),
    Null,
    ObjectId(Seq<u8>),
    Int32(i32),
    Int64(i64),
    Binary(u8, Seq<u8>),
    Other(u8),
}

impl Bson {
    pub open spec fn model(self) -> BsonV
        decreases self,
    {
        match self {
            Bson::Double(d) => BsonV::Double(d),
            Bson::String(s) => BsonV::String(s@),
            Bson::Array(xs) => BsonV::Array(
                Seq::new(
                    xs@.len(),
                    |i: int|
                        if 0 <= i < xs@.len() {
                            xs@[i].model()
                        } else {
                            BsonV::Null
                        },
                ),
            ),
            Bson::Document(d) => BsonV::Document(
                Seq::new(
                    d.entries@.len(),
                    |i: int|
                        if 0 <= i < d.entries@.len() {
                            (d.entries@[i].0@, d.entries@[i].1.model())
                        } else {
                            (Seq::empty(), BsonV::Null)
                        },
                ),
            ),
            Bson::Boolean(b) => BsonV::Boolean(b),
            Bson::Null => BsonV::Null,
            Bson::ObjectId(b) => BsonV::ObjectId(b@),
            Bson::Int32(n) => BsonV::Int32(n),
            Bson::Int64(n) => BsonV::Int64(n),
            Bson::Binary(t, b) => BsonV::Binary(t, b@),
            Bson::Other(t) => BsonV::Other(t),
        }
    }
}

impl View for Bson {
    type V = BsonV;

    open spec fn view(&self) -> BsonV {
        self.model()
    }
}

impl View for Document {
    type V = Seq<(Seq<char>, BsonV)>;

    open spec fn view(&self) -> Seq<(Seq<char>, BsonV)> {
        Seq::new(self.entries@.len(), |i: int| (self.entries@[i].0@, self.entries@[i].1@))
    }
}

/// The value of a BSON document value is the value of its document.
pub proof fn lemma_bson_document_model(d: Document)
    ensures
        Bson::Document(d)@ == BsonV::Document(d@),
{
    if let BsonV::Document(s) = Bson::Document(d)@ {
        assert(s =~= d@);
    }
}

/// The value of a BSON array value is the sequence of its elements' values.
pub proof fn lemma_bson_array_model(xs: Vec<Bson>)
    ensures
        Bson::Array(xs)@ == BsonV::Array(xs@.map_values(|b: Bson| b@)),
{
    if let BsonV::Array(s) = Bson::Array(xs)@ {
        assert(s =~= xs@.map_values(|b: Bson| b@));
    }
}

/// `k` is one of the keys of `s`.
pub open spec fn has_key<K, V>(s: Seq<(K, V)>, k: K) -> bool {
    exists|i: int| 0 <= i < s.len() && (#[trigger] s[i]).0 == k
}

/// `i` is the first position of `s` whose key is `k`.
pub open spec fn is_first_key_index<K, V>(s: Seq<(K, V)>, k: K, i: int) -> bool {
    &&& 0 <= i < s.len()
    &&& s[i].0 == k
    &&& forall|j: int| 0 <= j < i ==> (#[trigger] s[j]).0 != k
}

/// The first position of `s` whose key is `k`.
pub open spec fn first_key_index<K, V>(s: Seq<(K, V)>, k: K) -> int {
    choose|i: int| is_first_key_index(s, k, i)
}

/// Ordered-map insertion: where the key is present, its value is replaced
/// in place; otherwise the pair goes at the end.
pub open spec fn entries_insert<K, V>(s: Seq<(K, V)>, k: K, v: V) -> Seq<(K, V)> {
    if has_key(s, k) {
        s.update(first_key_index(s, k), (k, v))
    } else {
        s.push((k, v))
    }
}

/// No key occurs twice in `s`.
pub open spec fn keys_unique<K, V>(s: Seq<(K, V)>) -> bool {
    forall|i: int, j: int| 0 <= i < s.len() && 0 <= j < s.len() && i != j ==> (#[trigger] s[i]).0 != (#[trigger] s[j]).0
}

/// Any position that is the first one with key `k` is the one
/// [`first_key_index`] picks.
pub proof fn lemma_first_key_index<K, V>(s: Seq<(K, V)>, k: K, i: int)
    requires
        is_first_key_index(s, k, i),
    ensures
        first_key_index(s, k) == i,
        has_key(s, k),
{
    assert(s[i].0 == k);
    let j = first_key_index(s, k);
    assert(is_first_key_index(s, k, j));
    if j < i {
        assert(s[j].0 != k);
    } else if i < j {
        assert(s[i].0 != k);
    }
}

/// Inserting into entries with unique keys keeps them unique; a key that was
/// absent is appended.
pub proof fn lemma_insert_unique<K, V>(s: Seq<(K, V)>, k: K, v: V)
    requires
        keys_unique(s),
    ensures
        keys_unique(entries_insert(s, k, v)),
        !has_key(s, k) ==> entries_insert(s, k, v) == s.push((k, v)),
        forall|x: K| has_key(entries_insert(s, k, v), x) <==> (has_key(s, x) || x == k),
{
    let r = entries_insert(s, k, v);
    if has_key(s, k) {
        let i = choose|i: int| 0 <= i < s.len() && (#[trigger] s[i]).0 == k;
        assert(is_first_key_index(s, k, i)) by {
            assert forall|j: int| 0 <= j < i implies (#[trigger] s[j]).0 != k by {
                assert(s[j].0 != s[i].0);
            }
        }
        lemma_first_key_index(s, k, i);
        assert forall|x: K| has_key(r, x) <==> (has_key(s, x) || x == k) by {
            if has_key(s, x) {
                let m = choose|m: int| 0 <= m < s.len() && (#[trigger] s[m]).0 == x;
                assert(r[m].0 == x);
            }
            if has_key(r, x) {
                let m = choose|m: int| 0 <= m < r.len() && (#[trigger] r[m]).0 == x;
                if m != i {
                    assert(s[m].0 == x);
                }
            }
            if x == k {
                assert(r[i].0 == x);
            }
        }
    } else {
        assert forall|x: K| has_key(r, x) <==> (has_key(s, x) || x == k) by {
            if has_key(s, x) {
                let m = choose|m: int| 0 <= m < s.len() && (#[trigger] s[m]).0 == x;
                assert(r[m].0 == x);
            }
            if has_key(r, x) {
                let m = choose|m: int| 0 <= m < r.len() && (#[trigger] r[m]).0 == x;
                if m < s.len() {
                    assert(s[m].0 == x);
                }
            }
            if x == k {
                assert(r[s.len() as int].0 == x);
            }
        }
        assert forall|a: int, b: int| 0 <= a < r.len() && 0 <= b < r.len() && a != b implies (#[trigger] r[a]).0 != (#[trigger] r[b]).0 by {
            if a < s.len() && b < s.len() {
            } else if a < s.len() {
                assert(s[a].0 != k);
            } else {
                assert(s[b].0 != k);
            }
        }
    }
}

impl Document {
    /// An empty document.
    pub fn new() -> (res: Document)
        ensures
            res@ == Seq::<(Seq<char>, BsonV)>::empty(),
    {
        Document { entries: Vec::new() }
    }

    /// Sets `key` to `value`: a key already present keeps its place and gets
    /// the new value; a new key goes at the end.
    pub fn insert(&mut self, key: String, value: Bson)
        ensures
            final(self)@ == entries_insert(old(self)@, key@, value@),
    {
        let ghost s = self@;
        let mut i: usize = 0;
        while i < self.entries.len()
            invariant
                i <= self.entries@.len(),
                self@ == s,
                s == old(self)@,
                forall|j: int| 0 <= j < i ==> (#[trigger] s[j]).0 != key@,
            decreases self.entries@.len() - i,
        {
            if self.entries[i].0 == key {
                proof {
                    assert(s[i as int].0 == key@);
                    lemma_first_key_index(s, key@, i as int);
                }
                let ghost kv = key@;
                let ghost vv = value@;
                self.entries[i] = (key, value);
                assert(self@ =~= entries_insert(s, kv, vv));
                return;
            }
            i = i + 1;
        }
        proof {
            assert(!has_key(s, key@)) by {
                if has_key(s, key@) {
                    let j = choose|j: int| 0 <= j < s.len() && (#[trigger] s[j]).0 == key@;
                    assert(s[j].0 != key@);
                }
            }
        }
        self.entries.push((key, value));
        assert(self@ =~= entries_insert(s, key@, value@));
    }
}

} // verus!
