use crate::attribute::{Attribute, AttributeModel, Item};
use crate::decimal::int_text;
use crate::error::Error;
use crate::id::{hex_text, id_from_attribute, Id};
use crate::text::str_eq;
use crate::time::{
    datetime_from_attribute, in_four_digit_years, rfc3339_text, valid_timestamp, DateTime,
};
use vstd::prelude::*;

verus! {

/// The state of a login session.
#[derive(Debug, Clone, Copy, PartialEq, Eq, Hash, Structural)]
pub enum SessionStatus {
    Active,
    Revoked,
    Expired,
}

/// The name under which a session status is written.
pub open spec fn session_status_name(s: SessionStatus) -> Seq<char> {
    match s {
        SessionStatus::Active => "Active"@,
        SessionStatus::Revoked => "Revoked"@,
        SessionStatus::Expired => "Expired"@,
    }
}

/// The status that a name denotes; no other name denotes one.
pub open spec fn session_status_from_name(s: Seq<char>) -> Result<SessionStatus, Error> {
    if s == "Active"@ {
        Ok(SessionStatus::Active)
    } else if s == "Revoked"@ {
        Ok(SessionStatus::Revoked)
    } else if s == "Expired"@ {
        Ok(SessionStatus::Expired)
    } else {
        Err(Error::InvalidSessionStatus)
    }
}

/// What a session status attribute reads as.
pub open spec fn session_status_from_attribute(a: AttributeModel) -> Result<SessionStatus, Error> {
    match a {
        AttributeModel::S(s) => session_status_from_name(s),
        _ => Err(Error::InvalidAttributeValue),
    }
}

impl SessionStatus {
    pub fn as_str(&self) -> (r: &'static str)
        ensures
            r@ == session_status_name(*self),
    {
        proof {
            reveal_strlit("Active");
            reveal_strlit("Revoked");
            reveal_strlit("Expired");
        }
        match self {
            SessionStatus::Active => "Active",
            SessionStatus::Revoked => "Revoked",
            SessionStatus::Expired => "Expired",
        }
    }

    /// The status that a name denotes.
    pub fn from_str(s: &str) -> (r: Result<SessionStatus, Error>)
        ensures
            r == session_status_from_name(s@),
    {
        if str_eq(s, "Active") {
            Ok(SessionStatus::Active)
        } else if str_eq(s, "Revoked") {
            Ok(SessionStatus::Revoked)
        } else if str_eq(s, "Expired") {
            Ok(SessionStatus::Expired)
        } else {
            Err(Error::InvalidSessionStatus)
        }
    }

    /// The status as a string attribute holding its name.
    pub fn to_attribute(&self) -> (r: Attribute)
        ensures
            r@ == AttributeModel::S(session_status_name(*self)),
    {
        Attribute::S(self.as_str().to_string())
    }

    /// A status from a string attribute holding its name.
    pub fn from_attribute(a: &Attribute) -> (r: Result<SessionStatus, Error>)
        ensures
            r == session_status_from_attribute(a@),
    {
        match a {
            Attribute::S(s) => SessionStatus::from_str(s.as_str()),
            _ => Err(Error::InvalidAttributeValue),
        }
    }
}

impl std::str::FromStr for SessionStatus {
    type Err = Error;

    fn from_str(s: &str) -> (r: Result<SessionStatus, Error>)
        ensures
            r == session_status_from_name(s@),
    {
        SessionStatus::from_str(s)
    }
}

/// Reading the name of a status gives back the status.
pub proof fn lemma_session_status_name_round_trip(s: SessionStatus)
    ensures
        session_status_from_name(session_status_name(s)) == Ok::<SessionStatus, Error>(s),
{
    reveal_strlit("Active");
    reveal_strlit("Revoked");
    reveal_strlit("Expired");
    assert("Revoked"@.len() != "Active"@.len());
    assert("Expired"@.len() != "Active"@.len());
    assert("Expired"@[0] != "Revoked"@[0]);
}

/// The attribute names of a session item are distinct.
proof fn lemma_session_item_names() 
    ensures
        "user"@ != "id"@, "user"@ != "device"@, "user"@ != "status"@, "user"@ != "created"@,
        "user"@ != "ttl"@, "id"@ != "device"@, "id"@ != "status"@, "id"@ != "created"@,
        "id"@ != "ttl"@, "device"@ != "status"@, "device"@ != "created"@, "device"@ != "ttl"@,
        "status"@ != "created"@, "status"@ != "ttl"@, "created"@ != "ttl"@,
{
    reveal_strlit("user");
    reveal_strlit("id");
    reveal_strlit("device");
    reveal_strlit("status");
    reveal_strlit("created");
    reveal_strlit("ttl");
    assert("user"@.len() != "id"@.len());
    assert("user"@.len() != "device"@.len());
    assert("user"@.len() != "status"@.len());
    assert("user"@.len() != "created"@.len());
    assert("user"@.len() != "ttl"@.len());
    assert("id"@.len() != "device"@.len());
    assert("id"@.len() != "status"@.len());
    assert("id"@.len() != "created"@.len());
    assert("id"@.len() != "ttl"@.len());
    assert("device"@[0] != "status"@[0]);
    assert("device"@.len() != "created"@.len());
    assert("device"@.len() != "ttl"@.len());
    assert("status"@.len() != "created"@.len());
    assert("status"@.len() != "ttl"@.len());
    assert("created"@.len() != "ttl"@.len());
}

/// What a session holds.
pub struct SessionModel {
    pub user: Seq<u8>,
    pub id: Seq<u8>,
    pub device: Seq<char>,
    pub status: SessionStatus,
    pub created: (i64, u32),
    pub ttl: (i64, u32),
}

/// A login session of a user on a device.
#[derive(Debug, Clone, PartialEq, Eq)]
pub struct Session {
    pub user: Id,
    pub id: Id,
    pub device: String,
    pub status: SessionStatus,
    pub created: DateTime,
    pub ttl: DateTime,
}

impl View for Session {
    type V = SessionModel;

    open spec fn view(&self) -> SessionModel {
        SessionModel {
            user: self.user@,
            id: self.id@,
            device: self.device@,
            status: self.status,
            created: self.created@,
            ttl: self.ttl@,
        }
    }
}

/// A session is expired when it is marked so, or once its time to live has
/// come (at the second).
pub open spec fn session_expired_at(s: SessionModel, now: (i64, u32)) -> bool {
    s.status == SessionStatus::Expired || s.ttl.0 <= now.0
}

/// A session marked expired is expired at every time; any other session is
/// expired at a time exactly when its time to live is at or before that
/// second, whatever its creation time.
pub proof fn lemma_session_expiry(s: SessionModel, now: (i64, u32))
    ensures
        s.status == SessionStatus::Expired ==> session_expired_at(s, now),
        s.status != SessionStatus::Expired ==> (session_expired_at(s, now) <==> s.ttl.0 <= now.0),
        s.ttl.0 > now.0 && s.status != SessionStatus::Expired ==> !session_expired_at(s, now),
{
}

/// The item under which a session is stored.
pub open spec fn session_item(s: SessionModel) -> Map<Seq<char>, AttributeModel> {
    Map::empty().insert("user"@, AttributeModel::S(hex_text(s.user))).insert(
        "id"@,
        AttributeModel::S(hex_text(s.id)),
    ).insert("device"@, AttributeModel::S(s.device)).insert(
        "status"@,
        AttributeModel::S(session_status_name(s.status)),
    ).insert("created"@, AttributeModel::S(rfc3339_text(s.created.0, s.created.1))).insert(
        "ttl"@,
        AttributeModel::N(int_text(s.ttl.0 as int)),
    )
}

/// The session that an item holds: every attribute must be present, then
/// each must read as its part.
pub open spec fn session_from_item(m: Map<Seq<char>, AttributeModel>) -> Result<
    SessionModel,
    Error,
> {
    if !(m.contains_key("user"@) && m.contains_key("id"@) && m.contains_key("device"@)
        && m.contains_key("status"@) && m.contains_key("created"@) && m.contains_key("ttl"@)) {
        Err(Error::InvalidAttributeValue)
    } else {
        match id_from_attribute(m["user"@]) {
            Err(e) => Err(e),
            Ok(user) => match id_from_attribute(m["id"@]) {
                Err(e) => Err(e),
                Ok(id) => match m["device"@] {
                    AttributeModel::S(device) => match session_status_from_attribute(
                        m["status"@],
                    ) {
                        Err(e) => Err(e),
                        Ok(status) => match datetime_from_attribute(m["created"@]) {
                            Err(e) => Err(e),
                            Ok(created) => match datetime_from_attribute(m["ttl"@]) {
                                Err(e) => Err(e),
                                Ok(ttl) => Ok(
                                    SessionModel { user, id, device, status, created, ttl },
                                ),
                            },
                        },
                    },
                    _ => Err(Error::InvalidAttributeValue),
                },
            },
        }
    }
}

impl Session {
    pub fn new(
        user: Id,
        id: Id,
        device: &str,
        status: SessionStatus,
        created: DateTime,
        ttl: DateTime,
    ) -> (r: Session)
        ensures
            r.user == user,
            r.id == id,
            r.device@ == device@,
            r.status == status,
            r.created == created,
            r.ttl == ttl,
    {
        Session { user, id, device: device.to_string(), status, created, ttl }
    }

    /// Whether the session is expired at the given time.
    pub fn is_expired_at(&self, now: &DateTime) -> (r: bool)
        ensures
            r == session_expired_at(self@, now@),
            r == (self.status == SessionStatus::Expired || self.ttl@.0 <= now@.0),
    {
        self.status == SessionStatus::Expired || self.ttl.timestamp() <= now.timestamp()
    }

    /// Whether the session is expired now. A session marked expired always is.
    pub fn is_expired(&self) -> (r: bool)
        ensures
            self.status == SessionStatus::Expired ==> r,
            exists|now: (i64, u32)|
                valid_timestamp(now.0 as int, now.1 as int) && r == session_expired_at(self@, now),
    {
        let now = DateTime::now();
        proof {
            use_type_invariant(&now);
        }
        self.is_expired_at(&now)
    }

    /// The item under which the session is stored: identifiers as
    /// hexadecimal text, the creation time as RFC 3339 text, the time to
    /// live as a UNIX timestamp. Reading the item back gives the session,
    /// with the sub-second part of its time to live dropped.
    pub fn to_item(&self) -> (r: Item)
        ensures
            r@ == session_item(self@),
            in_four_digit_years(self@.created.0 as int, self@.created.1 as int)
                ==> session_from_item(r@) == Ok::<SessionModel, Error>(
                SessionModel { ttl: (self@.ttl.0, 0u32), ..self@ },
            ),
    {
        let mut item = Item::new();
        item.insert("user".to_string(), self.user.to_attribute());
        item.insert("id".to_string(), self.id.to_attribute());
        item.insert("device".to_string(), Attribute::S(self.device.clone()));
        item.insert("status".to_string(), self.status.to_attribute());
        let created = self.created.to_rfc3339();
        item.insert("created".to_string(), Attribute::S(created));
        item.insert("ttl".to_string(), self.ttl.to_timestamp_attribute());
        proof {
            reveal_strlit("user");
            reveal_strlit("id");
            reveal_strlit("device");
            reveal_strlit("status");
            reveal_strlit("created");
            reveal_strlit("ttl");
            assert(item@ =~= session_item(self@));
            lemma_session_item_names();
            crate::id::lemma_hex_round_trip(self.user);
            crate::id::lemma_hex_round_trip(self.id);
            lemma_session_status_name_round_trip(self.status);
            crate::decimal::lemma_int_text_parses(self.ttl@.0);
            use_type_invariant(&self.ttl);
            assert(valid_timestamp(self.ttl@.0 as int, 0));
        }
        item
    }

    /// The session that an item holds.
    pub fn from_item(item: &Item) -> (r: Result<Session, Error>)
        ensures
            r matches Ok(s) ==> session_from_item(item@) == Ok::<SessionModel, Error>(s@),
            r matches Err(e) ==> session_from_item(item@) == Err::<SessionModel, Error>(e),
    {
        proof {
            reveal_strlit("user");
            reveal_strlit("id");
            reveal_strlit("device");
            reveal_strlit("status");
            reveal_strlit("created");
            reveal_strlit("ttl");
        }
        let user_attr = match item.get("user") {
            Some(a) => a,
            None => return Err(Error::InvalidAttributeValue),
        };
        let id_attr = match item.get("id") {
            Some(a) => a,
            None => return Err(Error::InvalidAttributeValue),
        };
        let device_attr = match item.get("device") {
            Some(a) => a,
            None => return Err(Error::InvalidAttributeValue),
        };
        let status_attr = match item.get("status") {
            Some(a) => a,
            None => return Err(Error::InvalidAttributeValue),
        };
        let created_attr = match item.get("created") {
            Some(a) => a,
            None => return Err(Error::InvalidAttributeValue),
        };
        let ttl_attr = match item.get("ttl") {
            Some(a) => a,
            None => return Err(Error::InvalidAttributeValue),
        };
        let user = Id::from_attribute(user_attr)?;
        let id = Id::from_attribute(id_attr)?;
        let device = match device_attr.as_s() {
            Some(d) => d.clone(),
            None => return Err(Error::InvalidAttributeValue),
        };
        let status = SessionStatus::from_attribute(status_attr)?;
        let created = DateTime::from_attribute(created_attr)?;
        let ttl = DateTime::from_attribute(ttl_attr)?;
        Ok(Session { user, id, device, status, created, ttl })
    }
}

/// A session status written as a string attribute reads back as the status.
pub proof fn lemma_session_status_attribute_round_trip(s: SessionStatus)
    ensures
        session_status_from_attribute(AttributeModel::S(session_status_name(s))) == Ok::<
            SessionStatus,
            Error,
        >(s),
{
    lemma_session_status_name_round_trip(s);
}

} // verus!
