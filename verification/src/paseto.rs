//! The symmetric key of the service and PASETO v4 local encryption of token payloads.
use rusty_paseto::prelude::{CustomClaim, PasetoBuilder, PasetoParser};
use rusty_paseto::prelude::Key;
use rusty_paseto::prelude::Local;
use rusty_paseto::prelude::PasetoSymmetricKey as SymmetricKey;
use rusty_paseto::prelude::V4;
use vstd::prelude::*;
use vstd::string::StringSliceAdditionalSpecFns;

verus! {

/// The 32 key bytes made from a password: its bytes repeated cyclically,
/// all zero for an empty password.
pub open spec fn derived_key(password: Seq<u8>) -> Seq<u8> {
    Seq::new(32, |i: int| if password.len() == 0 { 0u8 } else { password[i % (password.len() as int)] })
}

/// Derives 32 key bytes from a password by repeating its bytes cyclically
/// (all zero for an empty password).
pub fn key(input: &str) -> (r: [u8; 32])
    ensures
        r@ == derived_key(input.spec_bytes()),
{
    let bytes = input.as_bytes();
    let n = bytes.len();
    let mut key_bytes = [0u8; 32];
    if n > 0 {
        let mut i: usize = 0;
        while i < 32
            invariant
                n == bytes@.len(),
                n > 0,
                i <= 32,
                forall|j: int| 0 <= j < i ==> key_bytes@[j] == bytes@[j % (n as int)],
            decreases 32 - i,
        {
            key_bytes[i] = bytes[i % n];
            i = i + 1;
        }
    }
    assert(key_bytes@ =~= derived_key(bytes@));
    key_bytes
}

/// The key with which the service seals its tokens.
pub fn token_key() -> (r: [u8; 32])
    ensures
        r@ == derived_key("PASETO_PASSWORD".spec_bytes()),
{
    key("PASETO_PASSWORD")
}

/// The key bytes with which the service seals its tokens.
pub open spec fn service_key() -> Seq<u8> {
    derived_key("PASETO_PASSWORD".spec_bytes())
}

/// The header of a v4.local token: `v4.local.`.
pub open spec fn paseto_header() -> Seq<char> {
    seq!['v', '4', '.', 'l', 'o', 'c', 'a', 'l', '.']
}

/// A text that starts with the v4.local header.
pub open spec fn has_paseto_header(s: Seq<char>) -> bool {
    s.len() >= 9 && s.take(9) == paseto_header()
}

/// A text with the v4.local header followed by at least 86 characters
/// without a dot: the least base64 text that holds a 32-byte nonce and a
/// 32-byte tag.
pub open spec fn paseto_openable(s: Seq<char>) -> bool {
    &&& has_paseto_header(s)
    &&& s.len() >= 95
    &&& forall|i: int| 9 <= i < 95 ==> s[i] != '.'
}

/// The string value of the `data` claim in the JSON payload that a v4.local
/// token decrypts to under a key, as `rusty_paseto` decrypts it; `None` when
/// the token does not decrypt or has no such claim.
pub uninterp spec fn paseto_data(key: Seq<u8>, token: Seq<char>) -> Option<Seq<char>>;

/// `rusty_paseto`'s `PasetoBuilder::<V4, Local>` with the single custom
/// claim `data` set to the text: a v4.local token sealed with the key. The
/// token is the header followed by the base64 text of the nonce, the
/// ciphertext and the tag (at least 64 bytes), and its payload decrypts
/// under the key to claims whose `data` is the text. The builder also sets
/// an expiration one hour ahead and issue and not-before claims at the
/// current time, and the encryption draws a random nonce, so the token's
/// characters are not stated, nor whether building fails.
#[verifier::external_body]
fn paseto_seal(key_bytes: [u8; 32], data: &str) -> (r: Option<String>)
    ensures
        r matches Some(t) ==> paseto_openable(t@) && paseto_data(key_bytes@, t@) == Some(data@),
{
    let key = SymmetricKey::<V4, Local>::from(Key::<32>::from(key_bytes));
    let claim = match CustomClaim::try_from(("data", data)) {
        Ok(claim) => claim,
        Err(_) => return None,
    };
    match PasetoBuilder::<V4, Local>::default().set_claim(claim).build(&key) {
        Ok(token) => Some(token),
        Err(_) => None,
    }
}

/// `rusty_paseto`'s `PasetoParser::<V4, Local>`: opens a v4.local token with
/// the key, checks its expiration and not-before claims against the current
/// time, and gives the string of its `data` claim. A text without the
/// v4.local header is refused; a string that comes back is the `data` claim
/// of the decrypted payload. Whether a token that decrypts is accepted
/// depends on the time and is not stated. The parser slices the decoded
/// body at 32 bytes from each end, so a header followed by a short body is
/// left out.
#[verifier::external_body]
fn paseto_open(key_bytes: [u8; 32], token: &str) -> (r: Option<String>)
    requires
        !has_paseto_header(token@) || paseto_openable(token@),
    ensures
        !has_paseto_header(token@) ==> r is None,
        r matches Some(d) ==> paseto_data(key_bytes@, token@) == Some(d@),
{
    let key = SymmetricKey::<V4, Local>::from(Key::<32>::from(key_bytes));
    let claims = match PasetoParser::<V4, Local>::default().parse(token, &key) {
        Ok(claims) => claims,
        Err(_) => return None,
    };
    match claims.get("data") {
        Some(serde_json::Value::String(data)) => Some(data.clone()),
        _ => None,
    }
}

/// Whether a text has the v4.local header and a body long enough to hold a
/// nonce and a tag.
pub fn is_openable(s: &str) -> (r: bool)
    ensures
        r == paseto_openable(s@),
{
    let header = "v4.local.";
    proof {
        reveal_strlit("v4.local.");
        assert(header@ =~= paseto_header());
    }
    let n = s.unicode_len();
    if n < 95 {
        return false;
    }
    let mut i: usize = 0;
    while i < 9
        invariant
            n == s@.len(),
            n >= 95,
            header@ == paseto_header(),
            i <= 9,
            forall|j: int| 0 <= j < i ==> s@[j] == paseto_header()[j],
        decreases 9 - i,
    {
        if s.get_char(i) != header.get_char(i) {
            assert(s@.take(9)[i as int] != paseto_header()[i as int]);
            return false;
        }
        i = i + 1;
    }
    assert(s@.take(9) =~= paseto_header());
    while i < 95
        invariant
            n == s@.len(),
            n >= 95,
            9 <= i <= 95,
            forall|j: int| 9 <= j < i ==> s@[j] != '.',
        decreases 95 - i,
    {
        if s.get_char(i) == '.' {
            return false;
        }
        i = i + 1;
    }
    true
}

/// Seals a token payload into a PASETO v4 local token under the service
/// key. A token that comes back has the v4.local header and decrypts under
/// the service key to the payload.
pub fn seal(data: &str) -> (r: Option<String>)
    ensures
        r matches Some(t) ==> paseto_openable(t@) && paseto_data(service_key(), t@) == Some(data@),
{
    paseto_seal(token_key(), data)
}

/// Opens a PASETO v4 local token sealed under the service key, and gives
/// its payload. A text without the v4.local header, or whose body is too
/// short to hold a nonce and a tag, is refused; a payload that comes back
/// is the `data` claim that the token decrypts to under the service key.
pub fn open(token: &str) -> (r: Option<String>)
    ensures
        !paseto_openable(token@) ==> r is None,
        r matches Some(d) ==> paseto_data(service_key(), token@) == Some(d@),
{
    if !is_openable(token) {
        return None;
    }
    paseto_open(token_key(), token)
}

} // verus!
