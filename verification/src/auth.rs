//! The decisions of the sign-in flows: login (queue backpressure, rate
//! limit, issuing a one-time code), verify, setup and refresh, and reading
//! the bearer token of a request.
use crate::bundle::Bundle;
use crate::decimal::{nat_text, parse_u64, parse_u64_spec, u64_to_string};
use crate::error::Error;
use crate::id::{hex_text, Id};
use crate::json::{json_object, json_object_of};
use crate::phone::Phone;
use crate::session::{session_expired_at, Session, SessionStatus};
use crate::text::{is_whitespace, str_eq, strip_prefix, strip_prefix_of, trim, trim_end, trim_start, trimmed};
use crate::time::{valid_timestamp, DateTime};
use crate::token::{expiry_at, Access, Refresh, Token, TokenType};
use crate::user::{Status, User};
use crate::verification::{Verification, VerificationModel};
use rand::Rng;
use vstd::prelude::*;

verus! {

/// Pending messages at which the messenger queue refuses more work.
pub const QUEUE_LIMIT: u64 = 20_000;

/// Seconds after a code was sent during which no new code is sent.
pub const RATE_LIMIT_SECONDS: i64 = 60;

/// Seconds during which a one-time code can be used.
pub const CODE_TTL_SECONDS: i64 = 300;

/// The text of an optional text.
pub open spec fn opt_text(t: Option<&str>) -> Option<Seq<char>> {
    match t {
        Some(s) => Some(s@),
        None => None,
    }
}

/// A queue count as the queue reports it; an absent or unreadable count is 0.
pub open spec fn queue_count(t: Option<Seq<char>>) -> int {
    match t {
        Some(s) => match parse_u64_spec(s) {
            Some(n) => n as int,
            None => 0,
        },
        None => 0,
    }
}

fn read_count(t: Option<&str>) -> (r: u64)
    ensures
        r == queue_count(opt_text(t)),
{
    match t {
        Some(s) => match parse_u64(s) {
            Some(n) => n,
            None => 0,
        },
        None => 0,
    }
}

/// Login is refused with `SlowDown` when the messenger queue holds at least
/// `QUEUE_LIMIT` messages, visible and in flight together.
pub fn check_queue_depth(visible: Option<&str>, not_visible: Option<&str>) -> (r: Result<(), Error>)
    ensures
        queue_count(opt_text(visible)) + queue_count(opt_text(not_visible)) >= QUEUE_LIMIT ==> r
            == Err::<(), Error>(Error::SlowDown),
        queue_count(opt_text(visible)) + queue_count(opt_text(not_visible)) < QUEUE_LIMIT ==> r
            is Ok,
{
    let v = read_count(visible) as u128;
    let nv = read_count(not_visible) as u128;
    if v + nv >= QUEUE_LIMIT as u128 {
        Err(Error::SlowDown)
    } else {
        Ok(())
    }
}

/// Login is refused with `SlowDown` while the last code sent to the phone
/// is less than `RATE_LIMIT_SECONDS` old.
pub fn check_rate_limit(existing: &Verification, now: &DateTime) -> (r: Result<(), Error>)
    ensures
        now@.0 < existing.created@.0 + RATE_LIMIT_SECONDS ==> r == Err::<(), Error>(Error::SlowDown),
        now@.0 >= existing.created@.0 + RATE_LIMIT_SECONDS ==> r is Ok,
{
    proof {
        use_type_invariant(&existing.created);
    }
    if now.timestamp() < existing.created.timestamp() + RATE_LIMIT_SECONDS {
        Err(Error::SlowDown)
    } else {
        Ok(())
    }
}

/// `rand::Rng::gen_range(100000..999999)` on the thread's generator: a
/// number of that half-open range, drawn at random.
#[verifier::external_body]
fn random_code() -> (r: u32)
    ensures
        100000 <= r < 999999,
{
    rand::thread_rng().gen_range(100000..999999)
}

/// A six-digit one-time code, drawn at random.
pub fn generate_code() -> (r: u32)
    ensures
        100000 <= r < 999999,
{
    random_code()
}

/// The verification that sends `code` to the phone at `created`; it can be
/// used for `CODE_TTL_SECONDS` seconds.
pub fn new_verification(phone: Phone, code: u32, created: DateTime) -> (r: Verification)
    ensures
        r.phone == phone,
        r.code@ == nat_text(code as nat),
        r.created == created,
        r.ttl@ == expiry_at(created@, CODE_TTL_SECONDS),
{
    proof {
        use_type_invariant(&created);
    }
    let code_text = u64_to_string(code as u64);
    let ttl = match DateTime::from_timestamp(created.timestamp() + CODE_TTL_SECONDS, 0) {
        Ok(dt) => dt,
        Err(_) => created,
    };
    Verification { phone, code: code_text, created, ttl }
}

/// A fresh verification for the phone: a random six-digit code, created now.
pub fn issue_verification(phone: Phone) -> (r: Verification)
    ensures
        r.phone == phone,
        r.code@.len() == 6,
        exists|c: nat| 100000 <= c < 999999 && r.code@ == nat_text(c),
        r.ttl@ == expiry_at(r.created@, CODE_TTL_SECONDS),
{
    let code = generate_code();
    let created = DateTime::now();
    proof {
        crate::decimal::lemma_nat_text(code as nat);
        lemma_six_digits(code as nat);
    }
    let r = new_verification(phone, code, created);
    assert(r.code@ == nat_text(code as nat));
    r
}

proof fn lemma_six_digits(n: nat)
    requires
        100000 <= n < 1000000,
    ensures
        nat_text(n).len() == 6,
{
    assert(nat_text(n / 100000).len() == 1);
    assert(nat_text(n / 10000).len() == 2);
    assert(nat_text(n / 1000).len() == 3);
    assert(nat_text(n / 100).len() == 4);
    assert(nat_text(n / 10).len() == 5);
}

/// The message put on the messenger queue for a phone: only the phone
/// number, as the JSON object `{"phone":...}`.
pub fn queue_message(phone: &Phone) -> (r: String)
    ensures
        r@ == json_object(seq![("phone"@, phone@)]),
{
    proof {
        reveal_strlit("phone");
    }
    let mut members: Vec<(String, String)> = Vec::new();
    members.push(("phone".to_string(), phone.as_str().to_string()));
    assert(members@.map_values(|p: (String, String)| (p.0@, p.1@)) =~= seq![("phone"@, phone@)]);
    json_object_of(&members)
}

/// A code is accepted when it is the one sent and has not expired.
pub fn check_code(verification: &Verification, code: &str, now: &DateTime) -> (r: Result<(), Error>)
    ensures
        verification.code@ == code@ && verification.ttl@.0 > now@.0 ==> r is Ok,
        !(verification.code@ == code@ && verification.ttl@.0 > now@.0) ==> r == Err::<(), Error>(
            Error::InvalidToken,
        ),
{
    if !str_eq(verification.code.as_str(), code) || verification.ttl.timestamp() <= now.timestamp() {
        Err(Error::InvalidToken)
    } else {
        Ok(())
    }
}

/// A verify request against the verification stored for the phone: the
/// answer, then what stays stored. The code is accepted when a verification
/// is stored, holds that code and has not expired at `now`; an accepted code
/// deletes the verification, and a refused one leaves the store as it was.
pub open spec fn redeem(stored: Option<VerificationModel>, code: Seq<char>, now: (i64, u32)) -> (
    Result<(), Error>,
    Option<VerificationModel>,
) {
    match stored {
        Some(v) => if v.code == code && v.ttl.0 > now.0 {
            (Ok(()), None)
        } else {
            (Err(Error::InvalidToken), stored)
        },
        None => (Err(Error::InvalidToken), None),
    }
}

pub open spec fn verification_views(v: Option<Verification>) -> Option<VerificationModel> {
    match v {
        Some(v) => Some(v@),
        None => None,
    }
}

/// Redeems a code against the verification stored for the phone (`None`
/// where none is stored): gives the answer and what stays stored, so that
/// an accepted code is deleted and cannot be used again.
pub fn redeem_code(stored: Option<Verification>, code: &str, now: &DateTime) -> (r: (
    Result<(), Error>,
    Option<Verification>,
))
    ensures
        (r.0, verification_views(r.1)) == redeem(verification_views(stored), code@, now@),
        r.0 is Err ==> r.1 == stored,
{
    match stored {
        Some(v) => match check_code(&v, code, now) {
            Ok(()) => (Ok(()), None),
            Err(e) => (Err(e), Some(v)),
        },
        None => (Err(Error::InvalidToken), None),
    }
}

/// A code is used once: after a code is accepted, the same code, or any
/// other, is refused at any later time.
pub proof fn lemma_code_used_once(
    stored: Option<VerificationModel>,
    code: Seq<char>,
    now: (i64, u32),
    again: Seq<char>,
    later: (i64, u32),
)
    requires
        redeem(stored, code, now).0 is Ok,
    ensures
        redeem(stored, code, now).1 is None,
        redeem(redeem(stored, code, now).1, again, later).0 == Err::<(), Error>(Error::InvalidToken),
{
}

pub open spec fn upload_url_text(phone: Seq<char>) -> Seq<char> {
    "https://r2.eduxal.com/upload/profile_"@ + phone + ".jpg?signature=presigned_upload_url"@
}

/// Where the client uploads the profile picture of a verified phone.
pub fn upload_url(phone: &Phone) -> (r: String)
    ensures
        r@ == upload_url_text(phone@),
{
    let mut s = String::from_str("https://r2.eduxal.com/upload/profile_");
    s.append(phone.as_str());
    s.append(".jpg?signature=presigned_upload_url");
    s
}

pub open spec fn profile_url_text(user: Seq<u8>) -> Seq<char> {
    "https://r2.eduxal.com/profiles/"@ + hex_text(user) + ".jpg"@
}

/// The profile picture of a user.
pub fn profile_url(user: &Id) -> (r: String)
    ensures
        r@ == profile_url_text(user@),
{
    let mut s = String::from_str("https://r2.eduxal.com/profiles/");
    let hex = user.to_hex();
    s.append(hex.as_str());
    s.append(".jpg");
    s
}

/// The records of a newly set up account: an active user with the verified
/// phone, and an active session on the device that lives as long as a
/// refresh token.
pub fn new_account(
    phone: Phone,
    name: &str,
    device: &str,
    user_id: Id,
    session_id: Id,
    now: DateTime,
) -> (r: (User, Session))
    ensures
        r.0.id == user_id,
        r.0.phone == phone,
        r.0.name@ == name@,
        r.0.status == Status::Active,
        r.0.created == now,
        r.1.user == user_id,
        r.1.id == session_id,
        r.1.device@ == device@,
        r.1.status == SessionStatus::Active,
        r.1.created == now,
        r.1.ttl@ == expiry_at(now@, Refresh::spec_ttl()),
{
    let user = User::new(user_id, phone, name, Status::Active, now);
    let ttl = Refresh::expiry_after(&now);
    let session = Session::new(user_id, session_id, device, SessionStatus::Active, now, ttl);
    (user, session)
}

/// The tokens and profile link handed out for a session of a user.
pub fn sign_in_bundle(session: Id, user: Id) -> (r: Bundle)
    ensures
        r.access.claims == (Access { session, user }),
        r.refresh.claims == (Refresh { session, user }),
        r.profile@ == profile_url_text(user@),
        exists|now: (i64, u32)|
            valid_timestamp(now.0 as int, now.1 as int) && r.access.expires@ == expiry_at(
                now,
                Access::spec_ttl(),
            ),
        exists|now: (i64, u32)|
            valid_timestamp(now.0 as int, now.1 as int) && r.refresh.expires@ == expiry_at(
                now,
                Refresh::spec_ttl(),
            ),
{
    let access = Token::access(session, user);
    let refresh = Token::refresh(session, user);
    let profile = profile_url(&user);
    Bundle::new(access, refresh, profile.as_str())
}

/// A session can be refreshed while it is active and not expired.
pub fn check_session(session: &Session, now: &DateTime) -> (r: Result<(), Error>)
    ensures
        session.status == SessionStatus::Active && !session_expired_at(session@, now@) ==> r is Ok,
        !(session.status == SessionStatus::Active && !session_expired_at(session@, now@)) ==> r
            == Err::<(), Error>(Error::InvalidToken),
        session.status == SessionStatus::Active && session.ttl@.0 > now@.0 ==> r is Ok,
        session.ttl@.0 <= now@.0 ==> r == Err::<(), Error>(Error::InvalidToken),
        session.status != SessionStatus::Active ==> r == Err::<(), Error>(Error::InvalidToken),
{
    if session.status != SessionStatus::Active || session.is_expired_at(now) {
        Err(Error::InvalidToken)
    } else {
        Ok(())
    }
}

/// The token of an `Authorization: Bearer <token>` header, trimmed.
pub open spec fn bearer_of(header: Seq<char>) -> Option<Seq<char>> {
    match strip_prefix(header, "Bearer "@) {
        Some(rest) => Some(trimmed(rest)),
        None => None,
    }
}

/// The header `Bearer ` followed by a text gives that text trimmed, and a
/// text without whitespace at either end unchanged; a header that does not
/// start with `Bearer ` gives no token.
pub proof fn lemma_bearer_header(t: Seq<char>, h: Seq<char>)
    ensures
        bearer_of("Bearer "@ + t) == Some(trimmed(t)),
        t.len() == 0 || (!is_whitespace(t[0]) && !is_whitespace(t.last())) ==> bearer_of(
            "Bearer "@ + t,
        ) == Some(t),
        !(h.len() >= 7 && h.take(7) == "Bearer "@) ==> bearer_of(h) is None,
{
    reveal_strlit("Bearer ");
    let p = "Bearer "@;
    assert((p + t).take(7) =~= p);
    assert((p + t).skip(7) =~= t);
    if t.len() == 0 || (!is_whitespace(t[0]) && !is_whitespace(t.last())) {
        assert(trim_start(t) == t);
        assert(trim_end(t) == t);
    }
}

/// The bearer token of a request's `Authorization` header; a missing header
/// or one without the `Bearer ` prefix is `InvalidToken`.
pub fn bearer_token(header: Option<&str>) -> (r: Result<String, Error>)
    ensures
        opt_text(header) is Some && bearer_of(opt_text(header)->0) is Some ==> (r matches Ok(t)
            && t@ == bearer_of(opt_text(header)->0)->0),
        !(opt_text(header) is Some && bearer_of(opt_text(header)->0) is Some) ==> r == Err::<
            String,
            Error,
        >(Error::InvalidToken),
{
    let h = match header {
        Some(h) => h,
        None => return Err(Error::InvalidToken),
    };
    match strip_prefix_of(h, "Bearer ") {
        Some(rest) => Ok(trim(rest).to_string()),
        None => Err(Error::InvalidToken),
    }
}

} // verus!
