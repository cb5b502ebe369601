//! BSON ObjectIds: their 24-character hexadecimal form and the PHP class
//! that wraps one.

use vstd::prelude::*;
use mongodb::bson::oid::ObjectId;

verus! {

/// `c` is one of `0-9`, `a-f`, `A-F`.
pub open spec fn is_hex_digit(c: char) -> bool {
    ||| ('0' as u32) <= (c as u32) <= ('9' as u32)
    ||| ('a' as u32) <= (c as u32) <= ('f' as u32)
    ||| ('A' as u32) <= (c as u32) <= ('F' as u32)
}

/// The value, 0 to 15, of a hexadecimal digit.
pub open spec fn hex_digit_value(c: char) -> int {
    if ('0' as u32) <= (c as u32) <= ('9' as u32) {
        (c as u32) - ('0' as u32)
    } else if ('a' as u32) <= (c as u32) <= ('f' as u32) {
        (c as u32) - ('a' as u32) + 10
    } else {
        (c as u32) - ('A' as u32) + 10
    }
}

/// The lower-case hexadecimal digit of a value 0 to 15.
pub open spec fn lower_hex_digit(n: int) -> char {
    if n < 10 {
        (('0' as u32) + n) as char
    } else {
        (('a' as u32) + n - 10) as char
    }
}

/// A hexadecimal digit with `A-F` written in lower case.
pub open spec fn to_lower_hex_digit(c: char) -> char {
    lower_hex_digit(hex_digit_value(c))
}

/// `s` is the hex form of an ObjectId: exactly 24 hexadecimal digits.
pub open spec fn is_object_id_hex(s: Seq<char>) -> bool {
    &&& s.len() == 24
    &&& forall|i: int| 0 <= i < 24 ==> is_hex_digit(#[trigger] s[i])
}

/// The 12 bytes that 24 hexadecimal digits stand for, two digits a byte,
/// the high half first.
pub open spec fn object_id_bytes_of_hex(s: Seq<char>) -> Seq<u8> {
    Seq::new(
        12,
        |i: int| (hex_digit_value(s[2 * i]) * 16 + hex_digit_value(s[2 * i + 1])) as u8,
    )
}

/// The lower-case hex form of a byte sequence, two digits a byte, the high
/// half first.
pub open spec fn hex_of_bytes(b: Seq<u8>) -> Seq<char> {
    Seq::new(
        2 * b.len(),
        |i: int|
            if i % 2 == 0 {
                lower_hex_digit((b[i / 2] / 16) as int)
            } else {
                lower_hex_digit((b[i / 2] % 16) as int)
            },
    )
}

/// Parses the hex form of an ObjectId with `ObjectId::parse_str` (which the
/// crate's `FromStr` impl calls) and hands back its bytes.
/// Trusted: the call succeeds exactly on 24 hexadecimal digits (the crate
/// hex-decodes the string's UTF-8 bytes, accepting both letter cases, and then
/// asks for 12 bytes) and gives the bytes those digits stand for.
#[verifier::external_body]
pub(crate) fn parse_object_id(s: &str) -> (res: Result<[u8; 12], mongodb::bson::oid::Error>)
    ensures
        res is Ok <==> is_object_id_hex(s@),
        res matches Ok(b) ==> b@ == object_id_bytes_of_hex(s@),
{
    match ObjectId::parse_str(s) {
        Ok(id) => Ok(id.bytes()),
        Err(e) => Err(e),
    }
}

/// The hex form of an ObjectId, by `ObjectId::to_hex`.
/// Trusted: it is the lower-case hex encoding of the 12 bytes (the crate
/// calls `hex::encode`, which uses the digits `0-9a-f`).
#[verifier::external_body]
pub(crate) fn object_id_to_hex(bytes: [u8; 12]) -> (res: String)
    ensures
        res@ == hex_of_bytes(bytes@),
{
    ObjectId::from_bytes(bytes).to_hex()
}

/// A fresh ObjectId from `ObjectId::new`, as its bytes.
/// Nothing is stated of the bytes: the crate builds them from the clock, a
/// random process id and a counter.
#[verifier::external_body]
pub(crate) fn generate_object_id() -> (res: [u8; 12]) {
    ObjectId::new().bytes()
}

/// Reading the hex form of an ObjectId gives back its bytes.
pub proof fn law_object_id_hex_round_trip(b: Seq<u8>)
    requires
        b.len() == 12,
    ensures
        is_object_id_hex(hex_of_bytes(b)),
        object_id_bytes_of_hex(hex_of_bytes(b)) == b,
{
    let h = hex_of_bytes(b);
    assert forall|i: int| 0 <= i < 24 implies is_hex_digit(#[trigger] h[i]) by {
        let d = if i % 2 == 0 { b[i / 2] / 16 } else { b[i / 2] % 16 };
        assert(0 <= d < 16);
    }
    assert forall|i: int| 0 <= i < 12 implies #[trigger] object_id_bytes_of_hex(h)[i] == b[i] by {
        assert((2 * i) / 2 == i);
        assert((2 * i + 1) / 2 == i);
        assert((2 * i) % 2 == 0);
        assert((2 * i + 1) % 2 == 1);
        let hi = b[i] / 16;
        let lo = b[i] % 16;
        assert(hex_digit_value(lower_hex_digit(hi as int)) == hi);
        assert(hex_digit_value(lower_hex_digit(lo as int)) == lo);
        assert(hi * 16 + lo == b[i]);
    }
    assert(object_id_bytes_of_hex(h) =~= b);
}

/// Writing out the bytes that a hex form stands for gives back that form in
/// lower case.
pub proof fn law_object_id_hex_normalizes(s: Seq<char>)
    requires
        is_object_id_hex(s),
    ensures
        hex_of_bytes(object_id_bytes_of_hex(s)) == s.map_values(|c: char| to_lower_hex_digit(c)),
{
    let b = object_id_bytes_of_hex(s);
    let h = hex_of_bytes(b);
    assert forall|i: int| 0 <= i < 24 implies #[trigger] h[i] == to_lower_hex_digit(s[i]) by {
        let k = i / 2;
        assert(0 <= k < 12);
        let hi = hex_digit_value(s[2 * k]);
        let lo = hex_digit_value(s[2 * k + 1]);
        assert(is_hex_digit(s[2 * k]));
        assert(is_hex_digit(s[2 * k + 1]));
        assert(0 <= hi < 16 && 0 <= lo < 16);
        assert(b[k] == hi * 16 + lo);
        assert((hi * 16 + lo) / 16 == hi);
        assert((hi * 16 + lo) % 16 == lo);
    }
    assert(h =~= s.map_values(|c: char| to_lower_hex_digit(c)));
}

/// What can go wrong when building a `MongoObjectId`.
#[derive(Debug)]
pub enum ObjectIdError {
    /// The string given was not the hex form of an ObjectId
    /// ("An invalid object ID was provided!").
    InvalidObjectId(mongodb::bson::oid::Error),
}

/// The PHP class that holds one ObjectId.
#[derive(Debug, PartialEq)]
pub struct MongoObjectId {
    pub id: [u8; 12],
}

impl MongoObjectId {
    /// With no argument, a freshly generated ObjectId; with a string, the
    /// ObjectId that the string is the hex form of, or an error when it is
    /// not one.
    pub fn __construct(id: Option<&str>) -> (res: Result<MongoObjectId, ObjectIdError>)
        ensures
            id is None ==> res is Ok,
            id matches Some(s) ==> (res is Ok <==> is_object_id_hex(s@)),
            id matches Some(s) ==> (res matches Ok(o) ==> o.id@ == object_id_bytes_of_hex(s@)),
    {
        match id {
            None => Ok(MongoObjectId { id: generate_object_id() }),
            Some(v) => match parse_object_id(v) {
                Ok(bytes) => Ok(MongoObjectId { id: bytes }),
                Err(e) => Err(ObjectIdError::InvalidObjectId(e)),
            },
        }
    }

    /// Gives nothing back.
    pub fn __toString(&self) {
    }
}

} // verus!
