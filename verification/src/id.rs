use crate::attribute::{Attribute, AttributeModel};
use crate::error::Error;
use vstd::prelude::*;

verus! {

/// The lowercase hexadecimal digit of a value below 16.
pub open spec fn hex_char(v: int) -> char {
    if v < 10 {
        ('0' as int + v) as char
    } else {
        ('a' as int + v - 10) as char
    }
}

/// Lowercase hexadecimal text of bytes: two digits per byte, high nibble first.
pub open spec fn hex_text(bytes: Seq<u8>) -> Seq<char> {
    Seq::new(
        2 * bytes.len(),
        |i: int|
            if i % 2 == 0 {
                hex_char(bytes[i / 2] as int / 16)
            } else {
                hex_char(bytes[i / 2] as int % 16)
            },
    )
}

/// The value of a hexadecimal digit of either case.
pub open spec fn hex_value(c: char) -> Option<int> {
    if '0' <= c && c <= '9' {
        Some(c as int - '0' as int)
    } else if 'a' <= c && c <= 'f' {
        Some(c as int - 'a' as int + 10)
    } else if 'A' <= c && c <= 'F' {
        Some(c as int - 'A' as int + 10)
    } else {
        None
    }
}

/// The 12 bytes that a 24-digit hexadecimal text (of either case) denotes,
/// `None` for any other text.
pub open spec fn parse_hex_id(s: Seq<char>) -> Option<Seq<u8>> {
    if s.len() == 24 && (forall|i: int| 0 <= i < 24 ==> (#[trigger] hex_value(s[i])) is Some) {
        Some(
            Seq::new(
                12,
                |i: int| (hex_value(s[2 * i])->0 * 16 + hex_value(s[2 * i + 1])->0) as u8,
            ),
        )
    } else {
        None
    }
}

/// `bson::oid::ObjectId::to_hex` (which is `hex::encode` of the 12 bytes):
/// the lowercase hexadecimal text of the bytes.
#[verifier::external_body]
fn object_id_to_hex(bytes: [u8; 12]) -> (r: String)
    ensures
        r@ == hex_text(bytes@),
{
    bson::oid::ObjectId::from_bytes(bytes).to_hex()
}

/// `bson::oid::ObjectId::parse_str`: succeeds exactly on texts of 24
/// hexadecimal digits of either case and gives the bytes they denote.
#[verifier::external_body]
fn object_id_parse_str(s: &str) -> (r: Option<[u8; 12]>)
    ensures
        r is Some <==> parse_hex_id(s@) is Some,
        r matches Some(b) ==> b@ == parse_hex_id(s@)->0,
{
    match bson::oid::ObjectId::parse_str(s) {
        Ok(oid) => Some(oid.bytes()),
        Err(_) => None,
    }
}

/// `bson::oid::ObjectId::new`: a fresh identifier made of the time, a random
/// process value and a counter. Nothing is promised of its bytes.
#[verifier::external_body]
fn object_id_generate() -> (r: [u8; 12]) {
    bson::oid::ObjectId::new().bytes()
}

/// A 12-byte object identifier.
#[derive(Debug, Clone, Copy, PartialEq, Eq, PartialOrd, Ord, Hash)]
pub struct Id(pub [u8; 12]);

impl View for Id {
    type V = Seq<u8>;

    open spec fn view(&self) -> Seq<u8> {
        self.0@
    }
}

impl Id {
    /// A fresh identifier.
    pub fn new() -> (r: Id)
        ensures
            r@.len() == 12,
    {
        Id(object_id_generate())
    }

    pub fn from_bytes(bytes: [u8; 12]) -> (r: Id)
        ensures
            r@ == bytes@,
    {
        Id(bytes)
    }

    pub fn bytes(&self) -> (r: [u8; 12])
        ensures
            r@ == self@,
    {
        self.0
    }

    pub fn as_bytes_ref(&self) -> (r: &[u8; 12])
        ensures
            r@ == self@,
    {
        &self.0
    }

    /// The 24-digit lowercase hexadecimal text of the identifier.
    pub fn to_hex(&self) -> (r: String)
        ensures
            r@ == hex_text(self@),
    {
        object_id_to_hex(self.0)
    }

    /// The identifier that a 24-digit hexadecimal text denotes.
    pub fn parse_str(s: &str) -> (r: Result<Id, Error>)
        ensures
            parse_hex_id(s@) matches Some(b) ==> (r matches Ok(id) && id@ == b),
            parse_hex_id(s@) is None ==> r == Err::<Id, Error>(Error::InvalidId),
    {
        match object_id_parse_str(s) {
            Some(b) => Ok(Id(b)),
            None => Err(Error::InvalidId),
        }
    }

    /// An identifier from a stored binary value, which must be exactly 12 bytes.
    pub fn from_blob(raw: &[u8]) -> (r: Result<Id, Error>)
        ensures
            raw@.len() == 12 ==> (r matches Ok(id) && id@ == raw@),
            raw@.len() != 12 ==> r == Err::<Id, Error>(Error::InvalidId),
    {
        if raw.len() != 12 {
            return Err(Error::InvalidId);
        }
        let mut arr = [0u8; 12];
        let mut i: usize = 0;
        while i < 12
            invariant
                raw@.len() == 12,
                i <= 12,
                forall|j: int| 0 <= j < i ==> arr@[j] == raw@[j],
            decreases 12 - i,
        {
            arr[i] = raw[i];
            i = i + 1;
        }
        assert(arr@ =~= raw@);
        Ok(Id(arr))
    }

    /// The identifier as a string attribute holding its hexadecimal text.
    pub fn to_attribute(&self) -> (r: Attribute)
        ensures
            r@ == AttributeModel::S(hex_text(self@)),
    {
        Attribute::S(self.to_hex())
    }

    /// An identifier from a string attribute holding its hexadecimal text.
    pub fn from_attribute(a: &Attribute) -> (r: Result<Id, Error>)
        ensures
            r matches Ok(id) ==> id_from_attribute(a@) == Ok::<Seq<u8>, Error>(id@),
            r matches Err(e) ==> id_from_attribute(a@) == Err::<Seq<u8>, Error>(e),
    {
        match a {
            Attribute::S(s) => Id::parse_str(s.as_str()),
            _ => Err(Error::InvalidAttributeValue),
        }
    }
}

impl Default for Id {
    /// A fresh identifier.
    fn default() -> (r: Id)
        ensures
            r@.len() == 12,
    {
        Id::new()
    }
}

impl std::str::FromStr for Id {
    type Err = Error;

    fn from_str(s: &str) -> (r: Result<Id, Error>)
        ensures
            parse_hex_id(s@) matches Some(b) ==> (r matches Ok(id) && id@ == b),
            parse_hex_id(s@) is None ==> r == Err::<Id, Error>(Error::InvalidId),
    {
        Id::parse_str(s)
    }
}

/// What an identifier attribute reads as.
pub open spec fn id_from_attribute(a: AttributeModel) -> Result<Seq<u8>, Error> {
    match a {
        AttributeModel::S(s) => match parse_hex_id(s) {
            Some(b) => Ok(b),
            None => Err(Error::InvalidId),
        },
        _ => Err(Error::InvalidAttributeValue),
    }
}

proof fn lemma_hex_byte(b: u8)
    ensures
        hex_value(hex_char(b as int / 16)) == Some(b as int / 16),
        hex_value(hex_char(b as int % 16)) == Some(b as int % 16),
{
}

/// Reading the hexadecimal text of 12 bytes gives back the bytes.
pub proof fn lemma_hex_round_trip_bytes(b: Seq<u8>)
    requires
        b.len() == 12,
    ensures
        parse_hex_id(hex_text(b)) == Some(b),
{
    let t = hex_text(b);
    assert(t.len() == 24);
    assert forall|i: int| 0 <= i < 24 implies (#[trigger] hex_value(t[i])) is Some by {
        lemma_hex_byte(b[i / 2]);
    }
    let p = parse_hex_id(t)->0;
    assert forall|i: int| 0 <= i < 12 implies p[i] == b[i] by {
        lemma_hex_byte(b[i]);
        assert(t[2 * i] == hex_char(b[i] as int / 16));
        assert(t[2 * i + 1] == hex_char(b[i] as int % 16));
    }
    assert(p =~= b);
}

/// Reading the hexadecimal text of an identifier gives back the identifier.
pub proof fn lemma_hex_round_trip(id: Id)
    ensures
        parse_hex_id(hex_text(id@)) == Some(id@),
{
    lemma_hex_round_trip_bytes(id@);
}

/// An identifier written as a string attribute reads back as the identifier.
pub proof fn lemma_id_attribute_round_trip(b: Seq<u8>)
    requires
        b.len() == 12,
    ensures
        id_from_attribute(AttributeModel::S(hex_text(b))) == Ok::<Seq<u8>, Error>(b),
{
    lemma_hex_round_trip_bytes(b);
}

} // verus!
