use crate::attribute::{Attribute, AttributeModel, Item};
use crate::error::Error;
use crate::id::{hex_text, Id};
use crate::phone::Phone;
use crate::text::str_eq;
use crate::time::{rfc3339_text, DateTime};
use vstd::prelude::*;

verus! {

/// The state of a user account.
#[derive(Debug, Clone, Copy, PartialEq, Eq, Hash, Structural)]
pub enum Status {
    Active,
    Invited,
    Suspended,
    Deleted,
}

/// The name under which a user status is written.
pub open spec fn status_name(s: Status) -> Seq<char> {
    match s {
        Status::Active => "Active"@,
        Status::Invited => "Invited"@,
        Status::Suspended => "Suspended"@,
        Status::Deleted => "Deleted"@,
    }
}

/// The status that a name denotes; no other name denotes one.
pub open spec fn status_from_name(s: Seq<char>) -> Result<Status, Error> {
    if s == "Active"@ {
        Ok(Status::Active)
    } else if s == "Invited"@ {
        Ok(Status::Invited)
    } else if s == "Suspended"@ {
        Ok(Status::Suspended)
    } else if s == "Deleted"@ {
        Ok(Status::Deleted)
    } else {
        Err(Error::InvalidAttributeValue)
    }
}

/// What a user status attribute reads as.
pub open spec fn status_from_attribute(a: AttributeModel) -> Result<Status, Error> {
    match a {
        AttributeModel::S(s) => status_from_name(s),
        _ => Err(Error::InvalidAttributeValue),
    }
}

impl Status {
    pub fn as_str(&self) -> (r: &'static str)
        ensures
            r@ == status_name(*self),
    {
        proof {
            reveal_strlit("Active");
            reveal_strlit("Invited");
            reveal_strlit("Suspended");
            reveal_strlit("Deleted");
        }
        match self {
            Status::Active => "Active",
            Status::Invited => "Invited",
            Status::Suspended => "Suspended",
            Status::Deleted => "Deleted",
        }
    }

    /// The status that a name denotes.
    pub fn from_str(s: &str) -> (r: Result<Status, Error>)
        ensures
            r == status_from_name(s@),
    {
        if str_eq(s, "Active") {
            Ok(Status::Active)
        } else if str_eq(s, "Invited") {
            Ok(Status::Invited)
        } else if str_eq(s, "Suspended") {
            Ok(Status::Suspended)
        } else if str_eq(s, "Deleted") {
            Ok(Status::Deleted)
        } else {
            Err(Error::InvalidAttributeValue)
        }
    }

    /// The status as a string attribute holding its name.
    pub fn to_attribute(&self) -> (r: Attribute)
        ensures
            r@ == AttributeModel::S(status_name(*self)),
    {
        Attribute::S(self.as_str().to_string())
    }

    /// A status from a string attribute holding its name.
    pub fn from_attribute(a: &Attribute) -> (r: Result<Status, Error>)
        ensures
            r == status_from_attribute(a@),
    {
        match a {
            Attribute::S(s) => Status::from_str(s.as_str()),
            _ => Err(Error::InvalidAttributeValue),
        }
    }
}

impl std::str::FromStr for Status {
    type Err = Error;

    fn from_str(s: &str) -> (r: Result<Status, Error>)
        ensures
            r == status_from_name(s@),
    {
        Status::from_str(s)
    }
}

/// Reading the name of a status gives back the status.
pub proof fn lemma_status_name_round_trip(s: Status)
    ensures
        status_from_name(status_name(s)) == Ok::<Status, Error>(s),
{
    reveal_strlit("Active");
    reveal_strlit("Invited");
    reveal_strlit("Suspended");
    reveal_strlit("Deleted");
    assert("Invited"@.len() != "Active"@.len());
    assert("Suspended"@.len() != "Active"@.len());
    assert("Suspended"@.len() != "Invited"@.len());
    assert("Deleted"@.len() != "Active"@.len());
    assert("Deleted"@[0] != "Invited"@[0]);
    assert("Deleted"@.len() != "Suspended"@.len());
}

/// What a user holds.
pub struct UserModel {
    pub id: Seq<u8>,
    pub phone: Seq<char>,
    pub name: Seq<char>,
    pub status: Status,
    pub created: (i64, u32),
}

/// A registered user.
#[derive(Debug, Clone, PartialEq, Eq)]
pub struct User {
    pub id: Id,
    pub phone: Phone,
    pub name: String,
    pub status: Status,
    pub created: DateTime,
}

impl View for User {
    type V = UserModel;

    open spec fn view(&self) -> UserModel {
        UserModel {
            id: self.id@,
            phone: self.phone@,
            name: self.name@,
            status: self.status,
            created: self.created@,
        }
    }
}

/// The item under which a user is stored.
pub open spec fn user_item(u: UserModel) -> Map<Seq<char>, AttributeModel> {
    Map::empty().insert("id"@, AttributeModel::S(hex_text(u.id))).insert(
        "phone"@,
        AttributeModel::S(u.phone),
    ).insert("name"@, AttributeModel::S(u.name)).insert(
        "status"@,
        AttributeModel::S(status_name(u.status)),
    ).insert("created"@, AttributeModel::S(rfc3339_text(u.created.0, u.created.1)))
}

impl User {
    pub fn new(id: Id, phone: Phone, name: &str, status: Status, created: DateTime) -> (r: User)
        ensures
            r.id == id,
            r.phone == phone,
            r.name@ == name@,
            r.status == status,
            r.created == created,
    {
        User { id, phone, name: name.to_string(), status, created }
    }

    /// The item under which the user is stored: the identifier as
    /// hexadecimal text, the creation time as RFC 3339 text.
    pub fn to_item(&self) -> (r: Item)
        ensures
            r@ == user_item(self@),
    {
        let mut item = Item::new();
        item.insert("id".to_string(), self.id.to_attribute());
        item.insert("phone".to_string(), self.phone.to_attribute());
        item.insert("name".to_string(), Attribute::S(self.name.clone()));
        item.insert("status".to_string(), self.status.to_attribute());
        item.insert("created".to_string(), self.created.to_attribute());
        proof {
            reveal_strlit("id");
            reveal_strlit("phone");
            reveal_strlit("name");
            reveal_strlit("status");
            reveal_strlit("created");
            assert(item@ =~= user_item(self@));
        }
        item
    }
}

/// A user status written as a string attribute reads back as the status.
pub proof fn lemma_status_attribute_round_trip(s: Status)
    ensures
        status_from_attribute(AttributeModel::S(status_name(s))) == Ok::<Status, Error>(s),
{
    lemma_status_name_round_trip(s);
}

} // verus!
