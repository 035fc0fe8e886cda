//! Typed tokens: their claims, their expiry, their payload text and its
//! sealed PASETO form.
use crate::error::Error;
use crate::id::{hex_text, lemma_hex_round_trip_bytes, parse_hex_id, Id};
use crate::json::{
    distinct_keys, json_object, json_object_of, json_string_object, lemma_pairs_map_get, pairs_map,
    TextMap,
};
use crate::paseto;
use crate::paseto::{paseto_data, paseto_openable, service_key};
use crate::phone::{valid_phone, Phone};
use crate::text::str_eq;
use crate::time::{iso8601_parse, iso8601_text, valid_timestamp, DateTime};
use vstd::prelude::*;

verus! {

/// The expiry of a token issued at `now` with a time to live of `ttl`
/// seconds: `now + ttl` on the second, or `now` itself where no date-time
/// holds that second.
pub open spec fn expiry_at(now: (i64, u32), ttl: i64) -> (i64, u32) {
    if valid_timestamp(now.0 + ttl, 0) {
        ((now.0 + ttl) as i64, 0u32)
    } else {
        now
    }
}

/// The longest time to live of any token kind.
pub const MAX_TTL: i64 = 2_592_000;

/// The payloads that tokens carry: each kind has a name, a time to live and
/// claims written as string members.
pub trait TokenType: Sized + View {
    /// The kind's name.
    spec fn spec_kind() -> Seq<char>;

    /// The kind's time to live in seconds.
    spec fn spec_ttl() -> i64;

    /// The members in which the claims are written.
    spec fn spec_claims(v: Self::V) -> Seq<(Seq<char>, Seq<char>)>;

    /// The claims that string members hold, if they hold any.
    spec fn spec_read_claims(m: Map<Seq<char>, Seq<char>>) -> Option<Self::V>;

    /// What every value of the kind holds.
    spec fn spec_valid(v: Self::V) -> bool;

    fn kind() -> (r: &'static str)
        ensures
            r@ == Self::spec_kind(),
    ;

    fn ttl_seconds() -> (r: i64)
        ensures
            r == Self::spec_ttl(),
            0 <= r <= MAX_TTL,
    ;

    /// The members in which the claims are written.
    fn claim_members(&self) -> (r: Vec<(String, String)>)
        ensures
            r@.map_values(|p: (String, String)| (p.0@, p.1@)) == Self::spec_claims(self@),
            Self::spec_valid(self@),
    ;

    /// The claims that the members hold.
    fn read_claims(fields: &TextMap) -> (r: Option<Self>)
        ensures
            r is Some <==> Self::spec_read_claims(fields@) is Some,
            r matches Some(c) ==> c@ == Self::spec_read_claims(fields@)->0,
    ;

    /// The members of valid claims have distinct names, none of them `type`
    /// or `expires`, and any members that include them read back as the claims.
    proof fn lemma_claims_read_back(v: Self::V, m: Map<Seq<char>, Seq<char>>)
        requires
            Self::spec_valid(v),
            pairs_map(Self::spec_claims(v)).submap_of(m),
        ensures
            distinct_keys(Self::spec_claims(v)),
            forall|i: int|
                0 <= i < Self::spec_claims(v).len() ==> (#[trigger] Self::spec_claims(v)[i]).0
                    != "type"@ && Self::spec_claims(v)[i].0 != "expires"@,
            Self::spec_read_claims(m) == Some(v),
    ;

    /// The expiry of a token of this kind issued at `now`.
    fn expiry_after(now: &DateTime) -> (r: DateTime)
        ensures
            r@ == expiry_at(now@, Self::spec_ttl()),
    {
        proof {
            use_type_invariant(now);
        }
        let expires_ts = now.timestamp() + Self::ttl_seconds();
        match DateTime::from_timestamp(expires_ts, 0) {
            Ok(dt) => dt,
            Err(_) => *now,
        }
    }

    /// The expiry of a token of this kind issued now: the time to live of
    /// the kind after the current time.
    fn expiry() -> (r: DateTime)
        ensures
            exists|now: (i64, u32)|
                valid_timestamp(now.0 as int, now.1 as int) && r@ == expiry_at(now, Self::spec_ttl()),
    {
        let now = DateTime::now();
        proof {
            use_type_invariant(&now);
        }
        Self::expiry_after(&now)
    }
}

/// Access token payload.
#[derive(Debug, Clone, PartialEq, Eq)]
pub struct Access {
    pub session: Id,
    pub user: Id,
}

/// Refresh token payload.
#[derive(Debug, Clone, PartialEq, Eq)]
pub struct Refresh {
    pub session: Id,
    pub user: Id,
}

/// Setup token payload.
#[derive(Debug, Clone, PartialEq, Eq)]
pub struct Setup {
    pub phone: Phone,
}

impl View for Access {
    type V = (Seq<u8>, Seq<u8>);

    open spec fn view(&self) -> (Seq<u8>, Seq<u8>) {
        (self.session@, self.user@)
    }
}

impl View for Refresh {
    type V = (Seq<u8>, Seq<u8>);

    open spec fn view(&self) -> (Seq<u8>, Seq<u8>) {
        (self.session@, self.user@)
    }
}

impl View for Setup {
    type V = Seq<char>;

    open spec fn view(&self) -> Seq<char> {
        self.phone@
    }
}

/// The members of session and user claims.
pub open spec fn session_claims(v: (Seq<u8>, Seq<u8>)) -> Seq<(Seq<char>, Seq<char>)> {
    seq![("session"@, hex_text(v.0)), ("user"@, hex_text(v.1))]
}

/// The session and user claims that members hold.
pub open spec fn read_session_claims(m: Map<Seq<char>, Seq<char>>) -> Option<(Seq<u8>, Seq<u8>)> {
    if m.contains_key("session"@) && m.contains_key("user"@) && parse_hex_id(m["session"@]) is Some
        && parse_hex_id(m["user"@]) is Some {
        Some((parse_hex_id(m["session"@])->0, parse_hex_id(m["user"@])->0))
    } else {
        None
    }
}

proof fn lemma_claim_names()
    ensures
        "session"@ != "user"@, "session"@ != "type"@, "session"@ != "expires"@, "user"@ != "type"@,
        "user"@ != "expires"@, "phone"@ != "type"@, "phone"@ != "expires"@, "type"@ != "expires"@,
{
    reveal_strlit("session");
    reveal_strlit("user");
    reveal_strlit("phone");
    reveal_strlit("type");
    reveal_strlit("expires");
    assert("session"@.len() != "user"@.len());
    assert("session"@.len() != "type"@.len());
    assert("session"@[0] != "expires"@[0]);
    assert("user"@[0] != "type"@[0]);
    assert("user"@.len() != "expires"@.len());
    assert("phone"@.len() != "type"@.len());
    assert("phone"@.len() != "expires"@.len());
    assert("type"@.len() != "expires"@.len());
}

proof fn lemma_session_claims_read_back(v: (Seq<u8>, Seq<u8>), m: Map<Seq<char>, Seq<char>>)
    requires
        v.0.len() == 12,
        v.1.len() == 12,
        pairs_map(session_claims(v)).submap_of(m),
    ensures
        distinct_keys(session_claims(v)),
        forall|i: int|
            0 <= i < session_claims(v).len() ==> (#[trigger] session_claims(v)[i]).0 != "type"@
                && session_claims(v)[i].0 != "expires"@,
        read_session_claims(m) == Some(v),
{
    lemma_claim_names();
    let c = session_claims(v);
    let c1 = c.drop_last();
    assert(c1 =~= seq![("session"@, hex_text(v.0))]);
    assert(c1.drop_last() =~= Seq::<(Seq<char>, Seq<char>)>::empty());
    assert(pairs_map(c1.drop_last()) == Map::<Seq<char>, Seq<char>>::empty());
    assert(c1.last() == ("session"@, hex_text(v.0)));
    assert(pairs_map(c1) =~= Map::<Seq<char>, Seq<char>>::empty().insert("session"@, hex_text(v.0)));
    assert(pairs_map(c) == pairs_map(c1).insert("user"@, hex_text(v.1)));
    assert(pairs_map(c).contains_key("session"@));
    assert(pairs_map(c).contains_key("user"@));
    assert(pairs_map(c)["session"@] == hex_text(v.0));
    assert(pairs_map(c)["user"@] == hex_text(v.1));
    assert(pairs_map(c).dom().contains("session"@));
    assert(pairs_map(c).dom().contains("user"@));
    assert(m.dom().contains("session"@));
    assert(m.dom().contains("user"@));
    assert(m["session"@] == hex_text(v.0));
    assert(m["user"@] == hex_text(v.1));
    lemma_hex_round_trip_bytes(v.0);
    lemma_hex_round_trip_bytes(v.1);
}

fn read_session_members(fields: &TextMap) -> (r: Option<(Id, Id)>)
    ensures
        r is Some <==> read_session_claims(fields@) is Some,
        r matches Some(ids) ==> (ids.0@, ids.1@) == read_session_claims(fields@)->0,
{
    proof {
        reveal_strlit("session");
        reveal_strlit("user");
    }
    let session_text = match fields.get("session") {
        Some(t) => t,
        None => return None,
    };
    let user_text = match fields.get("user") {
        Some(t) => t,
        None => return None,
    };
    let session = match Id::parse_str(session_text.as_str()) {
        Ok(id) => id,
        Err(_) => return None,
    };
    let user = match Id::parse_str(user_text.as_str()) {
        Ok(id) => id,
        Err(_) => return None,
    };
    Some((session, user))
}

fn session_members(session: &Id, user: &Id) -> (r: Vec<(String, String)>)
    ensures
        r@.map_values(|p: (String, String)| (p.0@, p.1@)) == session_claims((session@, user@)),
{
    proof {
        reveal_strlit("session");
        reveal_strlit("user");
    }
    let mut v: Vec<(String, String)> = Vec::new();
    v.push(("session".to_string(), session.to_hex()));
    v.push(("user".to_string(), user.to_hex()));
    assert(v@.map_values(|p: (String, String)| (p.0@, p.1@)) =~= session_claims(
        (session@, user@),
    ));
    v
}

impl TokenType for Access {
    open spec fn spec_kind() -> Seq<char> {
        "Access"@
    }

    open spec fn spec_ttl() -> i64 {
        900
    }

    open spec fn spec_claims(v: (Seq<u8>, Seq<u8>)) -> Seq<(Seq<char>, Seq<char>)> {
        session_claims(v)
    }

    open spec fn spec_read_claims(m: Map<Seq<char>, Seq<char>>) -> Option<(Seq<u8>, Seq<u8>)> {
        read_session_claims(m)
    }

    open spec fn spec_valid(v: (Seq<u8>, Seq<u8>)) -> bool {
        v.0.len() == 12 && v.1.len() == 12
    }

    fn kind() -> (r: &'static str) {
        "Access"
    }

    /// Fifteen minutes.
    fn ttl_seconds() -> (r: i64) {
        900
    }

    fn claim_members(&self) -> (r: Vec<(String, String)>) {
        session_members(&self.session, &self.user)
    }

    fn read_claims(fields: &TextMap) -> (r: Option<Access>) {
        match read_session_members(fields) {
            Some((session, user)) => Some(Access { session, user }),
            None => None,
        }
    }

    proof fn lemma_claims_read_back(v: (Seq<u8>, Seq<u8>), m: Map<Seq<char>, Seq<char>>) {
        lemma_session_claims_read_back(v, m);
    }
}

impl TokenType for Refresh {
    open spec fn spec_kind() -> Seq<char> {
        "Refresh"@
    }

    open spec fn spec_ttl() -> i64 {
        2_592_000
    }

    open spec fn spec_claims(v: (Seq<u8>, Seq<u8>)) -> Seq<(Seq<char>, Seq<char>)> {
        session_claims(v)
    }

    open spec fn spec_read_claims(m: Map<Seq<char>, Seq<char>>) -> Option<(Seq<u8>, Seq<u8>)> {
        read_session_claims(m)
    }

    open spec fn spec_valid(v: (Seq<u8>, Seq<u8>)) -> bool {
        v.0.len() == 12 && v.1.len() == 12
    }

    fn kind() -> (r: &'static str) {
        "Refresh"
    }

    /// Thirty days.
    fn ttl_seconds() -> (r: i64) {
        2_592_000
    }

    fn claim_members(&self) -> (r: Vec<(String, String)>) {
        session_members(&self.session, &self.user)
    }

    fn read_claims(fields: &TextMap) -> (r: Option<Refresh>) {
        match read_session_members(fields) {
            Some((session, user)) => Some(Refresh { session, user }),
            None => None,
        }
    }

    proof fn lemma_claims_read_back(v: (Seq<u8>, Seq<u8>), m: Map<Seq<char>, Seq<char>>) {
        lemma_session_claims_read_back(v, m);
    }
}

/// The members of a phone claim.
pub open spec fn phone_claims(v: Seq<char>) -> Seq<(Seq<char>, Seq<char>)> {
    seq![("phone"@, v)]
}

/// The phone claim that members hold.
pub open spec fn read_phone_claims(m: Map<Seq<char>, Seq<char>>) -> Option<Seq<char>> {
    if m.contains_key("phone"@) && valid_phone(m["phone"@]) {
        Some(m["phone"@])
    } else {
        None
    }
}

impl TokenType for Setup {
    open spec fn spec_kind() -> Seq<char> {
        "Setup"@
    }

    open spec fn spec_ttl() -> i64 {
        3600
    }

    open spec fn spec_claims(v: Seq<char>) -> Seq<(Seq<char>, Seq<char>)> {
        phone_claims(v)
    }

    open spec fn spec_read_claims(m: Map<Seq<char>, Seq<char>>) -> Option<Seq<char>> {
        read_phone_claims(m)
    }

    open spec fn spec_valid(v: Seq<char>) -> bool {
        valid_phone(v)
    }

    fn kind() -> (r: &'static str) {
        "Setup"
    }

    /// Sixty minutes.
    fn ttl_seconds() -> (r: i64) {
        3600
    }

    fn claim_members(&self) -> (r: Vec<(String, String)>) {
        proof {
            reveal_strlit("phone");
            use_type_invariant(&self.phone);
        }
        let mut v: Vec<(String, String)> = Vec::new();
        v.push(("phone".to_string(), self.phone.as_str().to_string()));
        assert(v@.map_values(|p: (String, String)| (p.0@, p.1@)) =~= phone_claims(self@));
        v
    }

    fn read_claims(fields: &TextMap) -> (r: Option<Setup>) {
        proof {
            reveal_strlit("phone");
        }
        match fields.get("phone") {
            Some(text) => match Phone::new(text.as_str()) {
                Ok(phone) => Some(Setup { phone }),
                Err(_) => None,
            },
            None => None,
        }
    }

    proof fn lemma_claims_read_back(v: Seq<char>, m: Map<Seq<char>, Seq<char>>) {
        lemma_claim_names();
        assert(phone_claims(v).drop_last() =~= Seq::<(Seq<char>, Seq<char>)>::empty());
        assert(pairs_map(phone_claims(v)).contains_key("phone"@));
    }
}

} // verus!

verus! {

/// The members of a token's payload: its kind, its expiry in chrono's serde
/// form (RFC 3339 with a `Z` offset), then its claims.
pub open spec fn token_members<T: TokenType>(claims: T::V, expires: (i64, u32)) -> Seq<
    (Seq<char>, Seq<char>),
> {
    seq![("type"@, T::spec_kind()), ("expires"@, iso8601_text(expires.0, expires.1))]
        + T::spec_claims(claims)
}

/// The token of kind `T` that payload members hold, read at `now`: the kind
/// must match, the expiry must read as a time after `now`, and
/// the members must hold claims.
pub open spec fn token_from_members<T: TokenType>(
    m: Map<Seq<char>, Seq<char>>,
    now: (i64, u32),
) -> Option<(T::V, (i64, u32))> {
    if m.contains_key("type"@) && m["type"@] == T::spec_kind() && m.contains_key("expires"@)
        && iso8601_parse(m["expires"@]) is Some && T::spec_read_claims(m) is Some
        && (iso8601_parse(m["expires"@])->0).0 > now.0 {
        Some((T::spec_read_claims(m)->0, iso8601_parse(m["expires"@])->0))
    } else {
        None
    }
}

/// The token of kind `T` that a payload text holds, read at `now`.
pub open spec fn token_from_payload<T: TokenType>(text: Seq<char>, now: (i64, u32)) -> Option<
    (T::V, (i64, u32)),
> {
    match json_string_object(text) {
        Some(m) => token_from_members::<T>(m, now),
        None => None,
    }
}

/// The members of a token's payload have distinct names and read back as the token.
pub proof fn lemma_token_members_read_back<T: TokenType>(
    claims: T::V,
    expires: (i64, u32),
    now: (i64, u32),
)
    requires
        T::spec_valid(claims),
        iso8601_parse(iso8601_text(expires.0, expires.1)) == Some(expires),
        expires.0 > now.0,
    ensures
        distinct_keys(token_members::<T>(claims, expires)),
        token_from_members::<T>(pairs_map(token_members::<T>(claims, expires)), now) == Some(
            (claims, expires),
        ),
{
    let p = token_members::<T>(claims, expires);
    let c = T::spec_claims(claims);
    let m = pairs_map(p);
    lemma_claim_names();
    reveal_strlit("type");
    reveal_strlit("expires");
    T::lemma_claims_read_back(claims, pairs_map(c));
    assert(distinct_keys(p)) by {
        assert forall|i: int, j: int| 0 <= i < j < p.len() implies (#[trigger] p[i]).0 != (
        #[trigger] p[j]).0 by {
            if i >= 2 {
                assert(p[i] == c[i - 2]);
                assert(p[j] == c[j - 2]);
            } else if j >= 2 {
                assert(p[j] == c[j - 2]);
            }
        }
    }
    lemma_pairs_map_get(p, 0);
    lemma_pairs_map_get(p, 1);
    assert(pairs_map(c).submap_of(m)) by {
        assert forall|k: Seq<char>| #[trigger] pairs_map(c).contains_key(k) implies m.contains_key(k)
            && m[k] == pairs_map(c)[k] by {
            crate::json::lemma_pairs_map_key_source(c, k);
            let j = choose|j: int| 0 <= j < c.len() && (#[trigger] c[j]).0 == k;
            lemma_pairs_map_get(c, j);
            assert(p[j + 2] == c[j]);
            lemma_pairs_map_get(p, j + 2);
        }
    }
    T::lemma_claims_read_back(claims, m);
}

/// A token: claims of kind `T` and the time at which they expire.
#[derive(Debug, Clone, PartialEq, Eq)]
pub struct Token<T> {
    pub claims: T,
    pub expires: DateTime,
}

impl<T: View> View for Token<T> {
    type V = (T::V, (i64, u32));

    open spec fn view(&self) -> (T::V, (i64, u32)) {
        (self.claims@, self.expires@)
    }
}

impl<T> std::ops::Deref for Token<T> {
    type Target = T;

    fn deref(&self) -> (r: &T)
        ensures
            r == &self.claims,
    {
        &self.claims
    }
}

impl<T: TokenType> Token<T> {
    /// A token of the claims that expires after the time to live of its kind.
    pub fn new(claims: T) -> (r: Token<T>)
        ensures
            r.claims == claims,
            exists|now: (i64, u32)|
                valid_timestamp(now.0 as int, now.1 as int) && r.expires@ == expiry_at(
                    now,
                    T::spec_ttl(),
                ),
    {
        Token { claims, expires: T::expiry() }
    }

    /// A token of the claims with an explicit expiry.
    pub fn with_expiry(claims: T, expires: DateTime) -> (r: Token<T>)
        ensures
            r.claims == claims,
            r.expires == expires,
    {
        Token { claims, expires }
    }

    pub fn claims(&self) -> (r: &T)
        ensures
            r == &self.claims,
    {
        &self.claims
    }

    pub fn into_claims(self) -> (r: T)
        ensures
            r == self.claims,
    {
        self.claims
    }

    /// Whether the token has expired at `now`: its expiry is at or before
    /// `now`, on the second.
    pub fn is_expired_at(&self, now: &DateTime) -> (r: bool)
        ensures
            r == (self.expires@.0 <= now@.0),
    {
        self.expires.timestamp() <= now.timestamp()
    }

    /// Whether the token has expired now.
    pub fn is_expired(&self) -> (r: bool)
        ensures
            exists|now: (i64, u32)|
                valid_timestamp(now.0 as int, now.1 as int) && r == (self.expires@.0 <= now.0),
    {
        let now = DateTime::now();
        proof {
            use_type_invariant(&now);
        }
        self.is_expired_at(&now)
    }

    /// The token read from the parts of its serialized form at `now`: the
    /// kind written in it must be `T`'s, and it must not have expired.
    pub fn from_raw(token_type: &str, claims: T, expires: DateTime, now: &DateTime) -> (r: Result<
        Token<T>,
        Error,
    >)
        ensures
            token_type@ == T::spec_kind() && expires@.0 > now@.0 ==> r == Ok::<Token<T>, Error>(
                Token { claims, expires },
            ),
            !(token_type@ == T::spec_kind() && expires@.0 > now@.0) ==> r == Err::<Token<T>, Error>(
                Error::InvalidToken,
            ),
    {
        if !str_eq(token_type, T::kind()) {
            return Err(Error::InvalidToken);
        }
        let token = Token { claims, expires };
        if token.is_expired_at(now) {
            return Err(Error::InvalidToken);
        }
        Ok(token)
    }

    /// The payload text of the token: a JSON object of its kind (`type`),
    /// its expiry (`expires`) in chrono's serde form, then its claims.
    pub fn payload(&self) -> (r: String)
        ensures
            r@ == json_object(token_members::<T>(self.claims@, self.expires@)),
            T::spec_valid(self.claims@),
            iso8601_parse(
                iso8601_text(self.expires@.0, self.expires@.1),
            ) == Some(self.expires@),
    {
        proof {
            reveal_strlit("type");
            reveal_strlit("expires");
        }
        let mut members: Vec<(String, String)> = Vec::new();
        members.push(("type".to_string(), T::kind().to_string()));
        members.push(("expires".to_string(), self.expires.to_iso8601()));
        let claims = self.claims.claim_members();
        let mut i: usize = 0;
        let n = claims.len();
        while i < n
            invariant
                n == claims@.len(),
                i <= n,
                members@.map_values(|p: (String, String)| (p.0@, p.1@)) == seq![
                    ("type"@, T::spec_kind()),
                    ("expires"@, iso8601_text(self.expires@.0, self.expires@.1)),
                ] + claims@.map_values(|p: (String, String)| (p.0@, p.1@)).take(i as int),
            decreases n - i,
        {
            let (k, v) = (claims[i].0.clone(), claims[i].1.clone());
            let ghost old_members = members@;
            let ghost pushed = (k, v);
            members.push((k, v));
            proof {
                let cm = claims@.map_values(|p: (String, String)| (p.0@, p.1@));
                assert(pushed.0@ == claims@[i as int].0@);
                assert(pushed.1@ == claims@[i as int].1@);
                assert(cm[i as int] == (pushed.0@, pushed.1@));
                assert(members@ == old_members.push(pushed));
                assert(members@.map_values(|p: (String, String)| (p.0@, p.1@)) =~= old_members.map_values(
                    |p: (String, String)| (p.0@, p.1@),
                ).push((pushed.0@, pushed.1@)));
                assert(cm.take(i + 1) =~= cm.take(i as int).push(cm[i as int]));
                assert(members@.map_values(|p: (String, String)| (p.0@, p.1@)) =~= seq![
                    ("type"@, T::spec_kind()),
                    ("expires"@, iso8601_text(self.expires@.0, self.expires@.1)),
                ] + cm.take(i + 1));
            }
            i = i + 1;
        }
        proof {
            let cm = claims@.map_values(|p: (String, String)| (p.0@, p.1@));
            assert(cm.take(n as int) =~= cm);
        }
        json_object_of(&members)
    }

    /// The token that a payload text holds, read at `now`. A payload that
    /// `payload` wrote for a token that has not expired at `now` reads back
    /// as that token.
    pub fn from_payload(data: &str, now: &DateTime) -> (r: Result<Token<T>, Error>)
        ensures
            token_from_payload::<T>(data@, now@) matches Some(v) ==> (r matches Ok(t) && t@ == v),
            token_from_payload::<T>(data@, now@) is None ==> r == Err::<Token<T>, Error>(
                Error::InvalidToken,
            ),
            forall|claims: T::V, expires: (i64, u32)|
                #![trigger token_members::<T>(claims, expires)]
                data@ == json_object(token_members::<T>(claims, expires)) && T::spec_valid(claims)
                    && valid_timestamp(expires.0 as int, expires.1 as int) && expires.0 > now@.0 ==> (r matches Ok(t) && t@ == (claims, expires)),
            forall|p: Seq<(Seq<char>, Seq<char>)>|
                #![trigger json_object(p)]
                data@ == json_object(p) && distinct_keys(p) ==> token_from_payload::<T>(data@, now@)
                    == token_from_members::<T>(pairs_map(p), now@),
    {
        proof {
            reveal_strlit("type");
            reveal_strlit("expires");
        }
        let fields = match TextMap::parse(data) {
            Some(f) => f,
            None => {
                assert forall|p: Seq<(Seq<char>, Seq<char>)>|
                    #![trigger json_object(p)]
                    data@ == json_object(p) && distinct_keys(p) implies token_from_payload::<T>(
                    data@,
                    now@,
                ) == token_from_members::<T>(pairs_map(p), now@) by {}
                assert forall|claims: T::V, expires: (i64, u32)|
                    #![trigger token_members::<T>(claims, expires)]
                    data@ == json_object(token_members::<T>(claims, expires)) && T::spec_valid(claims)
                        && valid_timestamp(expires.0 as int, expires.1 as int) && expires.0 > now@.0 implies false by {
                    lemma_claim_names();
                    T::lemma_claims_read_back(claims, pairs_map(T::spec_claims(claims)));
                    lemma_token_members_distinct::<T>(claims, expires);
                }
                return Err(Error::InvalidToken);
            },
        };
        let token_type = fields.get("type");
        let expires_text = fields.get("expires");
        let expires = match expires_text {
            Some(t) => match DateTime::parse_iso8601(t.as_str()) {
                Ok(dt) => Some(dt),
                Err(_) => None,
            },
            None => None,
        };
        let claims = T::read_claims(&fields);
        let ghost m = fields@;
        proof {
            assert forall|c: T::V, e: (i64, u32)|
                #![trigger token_members::<T>(c, e)]
                data@ == json_object(token_members::<T>(c, e)) && T::spec_valid(c)
                    && valid_timestamp(e.0 as int, e.1 as int) && e.0 > now@.0 implies token_from_members::<T>(m, now@) == Some((c, e)) by {
                lemma_token_members_distinct::<T>(c, e);
                assert(m == pairs_map(token_members::<T>(c, e)));
                lemma_pairs_map_get(token_members::<T>(c, e), 1);
                assert(iso8601_parse(iso8601_text(e.0, e.1)) == Some(e));
                lemma_token_members_read_back::<T>(c, e, now@);
            }
        }
        match (token_type, expires, claims) {
            (Some(ty), Some(exp), Some(c)) => Token::from_raw(ty.as_str(), c, exp, now),
            _ => Err(Error::InvalidToken),
        }
    }

    /// Seals this token into a PASETO v4 local string under the service key.
    /// Every failure is `InvalidToken`; a string that comes back has the
    /// v4.local header and decrypts under the service key to the token's
    /// payload text.
    pub fn encode_paseto(&self) -> (r: Result<String, Error>)
        ensures
            r matches Err(e) ==> e == Error::InvalidToken,
            r matches Ok(s) ==> paseto_openable(s@) && paseto_data(service_key(), s@) == Some(
                json_object(token_members::<T>(self.claims@, self.expires@)),
            ),
            T::spec_valid(self.claims@),
            iso8601_parse(
                iso8601_text(self.expires@.0, self.expires@.1),
            ) == Some(self.expires@),
    {
        let data = self.payload();
        match paseto::seal(data.as_str()) {
            Some(token) => Ok(token),
            None => Err(Error::InvalidToken),
        }
    }

    /// Seals this token into a PASETO v4 local string under the service key,
    /// as `encode_paseto` does.
    pub fn tokenize(&self) -> (r: Result<String, Error>)
        ensures
            r matches Err(e) ==> e == Error::InvalidToken,
            r matches Ok(s) ==> paseto_openable(s@) && paseto_data(service_key(), s@) == Some(
                json_object(token_members::<T>(self.claims@, self.expires@)),
            ),
            T::spec_valid(self.claims@),
            iso8601_parse(
                iso8601_text(self.expires@.0, self.expires@.1),
            ) == Some(self.expires@),
    {
        self.encode_paseto()
    }

    /// Opens a PASETO v4 local string sealed under the service key and reads
    /// the token of kind `T` in its payload at `now`. Every failure is
    /// `InvalidToken`. A text that is not a v4.local token with a body long
    /// enough for a nonce and a tag is refused, and so is one whose decrypted
    /// payload holds no token of kind `T` at `now`, among them an expired
    /// one. A token that comes back is the one that the decrypted payload
    /// holds at `now`; where the payload is the sealed payload of a token of
    /// kind `T`, it is that token. Whether a text that decrypts is opened
    /// rests on the PASETO parser's own checks against the clock.
    pub fn decode_paseto_at(token_str: &str, now: &DateTime) -> (r: Result<Token<T>, Error>)
        ensures
            r matches Err(e) ==> e == Error::InvalidToken,
            !paseto_openable(token_str@) ==> r == Err::<Token<T>, Error>(Error::InvalidToken),
            r matches Ok(t) ==> (paseto_data(service_key(), token_str@) is Some && token_from_payload::<
                T,
            >(paseto_data(service_key(), token_str@)->0, now@) == Some(t@)),
            paseto_data(service_key(), token_str@) is None || token_from_payload::<T>(
                paseto_data(service_key(), token_str@)->0,
                now@,
            ) is None ==> r == Err::<Token<T>, Error>(Error::InvalidToken),
            forall|p: Seq<(Seq<char>, Seq<char>)>|
                #![trigger json_object(p)]
                paseto_data(service_key(), token_str@) == Some(json_object(p)) && distinct_keys(p)
                    ==> (r matches Ok(t) ==> token_from_members::<T>(pairs_map(p), now@) == Some(t@))
                    && (token_from_members::<T>(pairs_map(p), now@) is None ==> r == Err::<
                    Token<T>,
                    Error,
                >(Error::InvalidToken)),
            forall|claims: T::V, expires: (i64, u32)|
                #![trigger token_members::<T>(claims, expires)]
                paseto_data(service_key(), token_str@) == Some(
                    json_object(token_members::<T>(claims, expires)),
                ) && T::spec_valid(claims) && iso8601_parse(iso8601_text(expires.0, expires.1))
                    == Some(expires) ==> (r matches Ok(t) ==> t@ == (claims, expires)) && (expires.0
                    <= now@.0 ==> r == Err::<Token<T>, Error>(Error::InvalidToken)),
    {
        let data = match paseto::open(token_str) {
            Some(d) => d,
            None => return Err(Error::InvalidToken),
        };
        let r = Token::<T>::from_payload(data.as_str(), now);
        proof {
            assert(paseto_data(service_key(), token_str@) == Some(data@));
            assert forall|claims: T::V, expires: (i64, u32)|
                #![trigger token_members::<T>(claims, expires)]
                paseto_data(service_key(), token_str@) == Some(
                    json_object(token_members::<T>(claims, expires)),
                ) && T::spec_valid(claims) && iso8601_parse(iso8601_text(expires.0, expires.1))
                    == Some(expires) implies (r matches Ok(t) ==> t@ == (claims, expires)) && (
                expires.0 <= now@.0 ==> r == Err::<Token<T>, Error>(Error::InvalidToken)) by {
                let p = token_members::<T>(claims, expires);
                lemma_token_payload_reads::<T>(claims, expires, now@);
                assert(data@ == json_object(p));
            }
        }
        r
    }

    /// Opens a PASETO v4 local string sealed under the service key and reads
    /// the token of kind `T` in its payload at the current time. Every
    /// failure is `InvalidToken`, and a text that is not a v4.local token
    /// with a body long enough for a nonce and a tag is refused. A token
    /// that comes back is the one that the decrypted payload holds at the
    /// time of reading; where the payload is the sealed payload of a token
    /// of kind `T`, it is that token.
    pub fn decode_paseto(token_str: &str) -> (r: Result<Token<T>, Error>)
        ensures
            r matches Err(e) ==> e == Error::InvalidToken,
            !paseto_openable(token_str@) ==> r == Err::<Token<T>, Error>(Error::InvalidToken),
            r matches Ok(t) ==> (paseto_data(service_key(), token_str@) is Some && exists|
                now: (i64, u32),
            |
                #![trigger token_from_payload::<T>(paseto_data(service_key(), token_str@)->0, now)]
                valid_timestamp(now.0 as int, now.1 as int) && token_from_payload::<T>(
                    paseto_data(service_key(), token_str@)->0,
                    now,
                ) == Some(t@)),
            forall|p: Seq<(Seq<char>, Seq<char>)>|
                #![trigger json_object(p)]
                paseto_data(service_key(), token_str@) == Some(json_object(p)) && distinct_keys(p)
                    ==> (r matches Ok(t) ==> exists|now: (i64, u32)|
                    valid_timestamp(now.0 as int, now.1 as int) && token_from_members::<T>(
                        pairs_map(p),
                        now,
                    ) == Some(t@)),
            forall|claims: T::V, expires: (i64, u32)|
                #![trigger token_members::<T>(claims, expires)]
                paseto_data(service_key(), token_str@) == Some(
                    json_object(token_members::<T>(claims, expires)),
                ) && T::spec_valid(claims) && iso8601_parse(iso8601_text(expires.0, expires.1))
                    == Some(expires) ==> (r matches Ok(t) ==> t@ == (claims, expires)),
    {
        let now = DateTime::now();
        proof {
            use_type_invariant(&now);
        }
        let r = Token::<T>::decode_paseto_at(token_str, &now);
        proof {
            if let Ok(t) = &r {
                assert(token_from_payload::<T>(paseto_data(service_key(), token_str@)->0, now@)
                    == Some(t@));
                assert forall|p: Seq<(Seq<char>, Seq<char>)>|
                    #![trigger json_object(p)]
                    paseto_data(service_key(), token_str@) == Some(json_object(p)) && distinct_keys(
                        p,
                    ) implies exists|n: (i64, u32)|
                    valid_timestamp(n.0 as int, n.1 as int) && token_from_members::<T>(
                        pairs_map(p),
                        n,
                    ) == Some(t@) by {
                    assert(token_from_members::<T>(pairs_map(p), now@) == Some(t@));
                }
            }
        }
        r
    }
}

/// The payload members of a token have distinct names, and read at any time
/// they give the token back when its expiry is later than that time, and
/// nothing otherwise. This holds of every expiry whose text reads back as
/// the expiry, which `DateTime::to_iso8601` states of every date-time.
pub proof fn lemma_token_payload_reads<T: TokenType>(
    claims: T::V,
    expires: (i64, u32),
    now: (i64, u32),
)
    requires
        T::spec_valid(claims),
        iso8601_parse(iso8601_text(expires.0, expires.1)) == Some(expires),
    ensures
        distinct_keys(token_members::<T>(claims, expires)),
        token_from_members::<T>(pairs_map(token_members::<T>(claims, expires)), now) == (if expires.0
            > now.0 {
            Some((claims, expires))
        } else {
            None
        }),
{
    let p = token_members::<T>(claims, expires);
    lemma_token_members_distinct::<T>(claims, expires);
    reveal_strlit("expires");
    lemma_claim_names();
    if expires.0 > now.0 {
        lemma_token_members_read_back::<T>(claims, expires, now);
    } else {
        lemma_pairs_map_get(p, 1);
        assert(p[1] == ("expires"@, iso8601_text(expires.0, expires.1)));
    }
}

/// The payload of a token of one kind is never read as a token of another
/// kind.
pub proof fn lemma_other_kind_payload<T: TokenType, U: TokenType>(
    claims: U::V,
    expires: (i64, u32),
    now: (i64, u32),
)
    requires
        U::spec_valid(claims),
        U::spec_kind() != T::spec_kind(),
    ensures
        distinct_keys(token_members::<U>(claims, expires)),
        token_from_members::<T>(pairs_map(token_members::<U>(claims, expires)), now) is None,
{
    let p = token_members::<U>(claims, expires);
    lemma_token_members_distinct::<U>(claims, expires);
    reveal_strlit("type");
    lemma_pairs_map_get(p, 0);
    assert(p[0] == ("type"@, U::spec_kind()));
}

/// The three token kinds have different names.
pub proof fn lemma_kind_names()
    ensures
        Access::spec_kind() != Refresh::spec_kind(),
        Access::spec_kind() != Setup::spec_kind(),
        Refresh::spec_kind() != Setup::spec_kind(),
{
    reveal_strlit("Access");
    reveal_strlit("Refresh");
    reveal_strlit("Setup");
    assert("Access"@.len() != "Refresh"@.len());
    assert("Access"@[0] != "Setup"@[0]);
    assert("Refresh"@.len() != "Setup"@.len());
}

/// The payload members of a token have distinct names.
proof fn lemma_token_members_distinct<T: TokenType>(claims: T::V, expires: (i64, u32))
    requires
        T::spec_valid(claims),
    ensures
        distinct_keys(token_members::<T>(claims, expires)),
{
    let p = token_members::<T>(claims, expires);
    let c = T::spec_claims(claims);
    lemma_claim_names();
    T::lemma_claims_read_back(claims, pairs_map(c));
    assert forall|i: int, j: int| 0 <= i < j < p.len() implies (#[trigger] p[i]).0 != (
    #[trigger] p[j]).0 by {
        if i >= 2 {
            assert(p[i] == c[i - 2]);
            assert(p[j] == c[j - 2]);
        } else if j >= 2 {
            assert(p[j] == c[j - 2]);
        }
    }
}

impl Token<Access> {
    /// An access token for a session of a user.
    pub fn access(session: Id, user: Id) -> (r: Token<Access>)
        ensures
            r.claims == (Access { session, user }),
            exists|now: (i64, u32)|
                valid_timestamp(now.0 as int, now.1 as int) && r.expires@ == expiry_at(
                    now,
                    Access::spec_ttl(),
                ),
    {
        Token::new(Access { session, user })
    }
}

impl Token<Refresh> {
    /// A refresh token for a session of a user.
    pub fn refresh(session: Id, user: Id) -> (r: Token<Refresh>)
        ensures
            r.claims == (Refresh { session, user }),
            exists|now: (i64, u32)|
                valid_timestamp(now.0 as int, now.1 as int) && r.expires@ == expiry_at(
                    now,
                    Refresh::spec_ttl(),
                ),
    {
        Token::new(Refresh { session, user })
    }
}

impl Token<Setup> {
    /// A setup token for a verified phone number.
    pub fn setup(phone: Phone) -> (r: Token<Setup>)
        ensures
            r.claims == (Setup { phone }),
            exists|now: (i64, u32)|
                valid_timestamp(now.0 as int, now.1 as int) && r.expires@ == expiry_at(
                    now,
                    Setup::spec_ttl(),
                ),
    {
        Token::new(Setup { phone })
    }
}

} // verus!
