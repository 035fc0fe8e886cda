use crate::attribute::{Attribute, AttributeModel, Item};
use crate::decimal::int_text;
use crate::error::Error;
use crate::phone::{phone_from_attribute, Phone};
use crate::time::{
    datetime_from_attribute, in_four_digit_years, rfc3339_text, valid_timestamp, DateTime,
};
use vstd::prelude::*;

verus! {

/// What a verification holds.
pub struct VerificationModel {
    pub phone: Seq<char>,
    pub code: Seq<char>,
    pub created: (i64, u32),
    pub ttl: (i64, u32),
}

/// A one-time code sent to a phone number, with its creation time and the
/// time until which it can be used.
#[derive(Debug, Clone, PartialEq, Eq)]
pub struct Verification {
    pub phone: Phone,
    pub code: String,
    pub created: DateTime,
    pub ttl: DateTime,
}

impl View for Verification {
    type V = VerificationModel;

    open spec fn view(&self) -> VerificationModel {
        VerificationModel {
            phone: self.phone@,
            code: self.code@,
            created: self.created@,
            ttl: self.ttl@,
        }
    }
}

/// The item under which a verification is stored.
pub open spec fn verification_item(v: VerificationModel) -> Map<Seq<char>, AttributeModel> {
    Map::empty().insert("phone"@, AttributeModel::S(v.phone)).insert(
        "code"@,
        AttributeModel::S(v.code),
    ).insert("created"@, AttributeModel::S(rfc3339_text(v.created.0, v.created.1))).insert(
        "ttl"@,
        AttributeModel::N(int_text(v.ttl.0 as int)),
    )
}

/// The verification that an item holds: every attribute must be present,
/// then each must read as its part.
pub open spec fn verification_from_item(m: Map<Seq<char>, AttributeModel>) -> Result<
    VerificationModel,
    Error,
> {
    if !(m.contains_key("phone"@) && m.contains_key("code"@) && m.contains_key("created"@)
        && m.contains_key("ttl"@)) {
        Err(Error::InvalidAttributeValue)
    } else {
        match phone_from_attribute(m["phone"@]) {
            Err(e) => Err(e),
            Ok(phone) => match m["code"@] {
                AttributeModel::S(code) => match datetime_from_attribute(m["created"@]) {
                    Err(e) => Err(e),
                    Ok(created) => match datetime_from_attribute(m["ttl"@]) {
                        Err(e) => Err(e),
                        Ok(ttl) => Ok(VerificationModel { phone, code, created, ttl }),
                    },
                },
                _ => Err(Error::InvalidAttributeValue),
            },
        }
    }
}

proof fn lemma_verification_item_names()
    ensures
        "phone"@ != "code"@, "phone"@ != "created"@, "phone"@ != "ttl"@, "code"@ != "created"@,
        "code"@ != "ttl"@, "created"@ != "ttl"@,
{
    reveal_strlit("phone");
    reveal_strlit("code");
    reveal_strlit("created");
    reveal_strlit("ttl");
    assert("phone"@.len() != "code"@.len());
    assert("phone"@.len() != "created"@.len());
    assert("phone"@.len() != "ttl"@.len());
    assert("code"@.len() != "created"@.len());
    assert("code"@.len() != "ttl"@.len());
    assert("created"@.len() != "ttl"@.len());
}

impl Verification {
    pub fn new(phone: Phone, code: &str, created: DateTime, ttl: DateTime) -> (r: Verification)
        ensures
            r.phone == phone,
            r.code@ == code@,
            r.created == created,
            r.ttl == ttl,
    {
        Verification { phone, code: code.to_string(), created, ttl }
    }

    /// The item under which the verification is stored: the creation time
    /// as RFC 3339 text, the time to live as a UNIX timestamp. Reading the
    /// item back gives the verification, with the sub-second part of its
    /// time to live dropped.
    pub fn to_item(&self) -> (r: Item)
        ensures
            r@ == verification_item(self@),
            in_four_digit_years(self@.created.0 as int, self@.created.1 as int)
                ==> verification_from_item(r@) == Ok::<VerificationModel, Error>(
                VerificationModel { ttl: (self@.ttl.0, 0u32), ..self@ },
            ),
    {
        let mut item = Item::new();
        item.insert("phone".to_string(), self.phone.to_attribute());
        item.insert("code".to_string(), Attribute::S(self.code.clone()));
        let created = self.created.to_rfc3339();
        item.insert("created".to_string(), Attribute::S(created));
        item.insert("ttl".to_string(), self.ttl.to_timestamp_attribute());
        proof {
            reveal_strlit("phone");
            reveal_strlit("code");
            reveal_strlit("created");
            reveal_strlit("ttl");
            assert(item@ =~= verification_item(self@));
            lemma_verification_item_names();
            use_type_invariant(&self.phone);
            crate::decimal::lemma_int_text_parses(self.ttl@.0);
            use_type_invariant(&self.ttl);
            assert(valid_timestamp(self.ttl@.0 as int, 0));
        }
        item
    }

    /// The verification that an item holds.
    pub fn from_item(item: &Item) -> (r: Result<Verification, Error>)
        ensures
            r matches Ok(v) ==> verification_from_item(item@) == Ok::<VerificationModel, Error>(v@),
            r matches Err(e) ==> verification_from_item(item@) == Err::<VerificationModel, Error>(e),
    {
        proof {
            reveal_strlit("phone");
            reveal_strlit("code");
            reveal_strlit("created");
            reveal_strlit("ttl");
        }
        let phone_attr = match item.get("phone") {
            Some(a) => a,
            None => return Err(Error::InvalidAttributeValue),
        };
        let code_attr = match item.get("code") {
            Some(a) => a,
            None => return Err(Error::InvalidAttributeValue),
        };
        let created_attr = match item.get("created") {
            Some(a) => a,
            None => return Err(Error::InvalidAttributeValue),
        };
        let ttl_attr = match item.get("ttl") {
            Some(a) => a,
            None => return Err(Error::InvalidAttributeValue),
        };
        let phone = Phone::from_attribute(phone_attr)?;
        let code = match code_attr.as_s() {
            Some(c) => c.clone(),
            None => return Err(Error::InvalidAttributeValue),
        };
        let created = DateTime::from_attribute(created_attr)?;
        let ttl = DateTime::from_attribute(ttl_attr)?;
        Ok(Verification { phone, code, created, ttl })
    }
}

} // verus!
