use common::auth::{
    bearer_token, check_code, check_queue_depth, check_rate_limit, check_session, generate_code,
    issue_verification, new_account, new_verification, profile_url, queue_message, redeem_code,
    sign_in_bundle, upload_url,
};
use common::bundle::{BundleDraft, BundleError, BundleField};
use common::messenger::{
    batch_failures, collect_codes, collect_targets, plan_dispatch, queued_phone, whatsapp_body, Dispatch,
};
use common::paseto::{is_openable, key, open, seal, token_key};
use common::session::SessionStatus;
use common::{Access, DateTime, Error, Id, Item, Phone, Refresh, Session, Setup, Status, Token, TokenType, Verification};

fn at(secs: i64) -> DateTime {
    DateTime::from_timestamp(secs, 0).unwrap()
}

fn ids() -> (Id, Id) {
    (Id::from_bytes([0xab; 12]), Id::from_bytes([0x01; 12]))
}

#[test]
fn key_repeats_the_password() {
    let k = key("abc");
    assert_eq!(&k[..6], b"abcabc");
    assert_eq!(k[31], b'b');
    assert_eq!(key(""), [0u8; 32]);
    let t = token_key();
    assert_eq!(&t[..15], b"PASETO_PASSWORD");
    assert_eq!(&t[15..30], b"PASETO_PASSWORD");
    assert_eq!(&t[30..], b"PA");
}

#[test]
fn token_payload_is_exact_json() {
    let (s, u) = ids();
    let t = Token::with_expiry(Access { session: s, user: u }, at(1_700_000_000));
    assert_eq!(
        t.payload(),
        "{\"type\":\"Access\",\"expires\":\"2023-11-14T22:13:20Z\",\"session\":\"abababababababababababab\",\"user\":\"010101010101010101010101\"}"
    );
    let setup = Token::with_expiry(Setup { phone: Phone::new("+254712345678").unwrap() }, at(0));
    assert_eq!(
        setup.payload(),
        "{\"type\":\"Setup\",\"expires\":\"1970-01-01T00:00:00Z\",\"phone\":\"+254712345678\"}"
    );
}

#[test]
fn token_payload_reads_back() {
    let (s, u) = ids();
    let t = Token::with_expiry(Refresh { session: s, user: u }, DateTime::from_timestamp(2_000_000_000, 5).unwrap());
    let now = at(1_999_999_999);
    assert_eq!(Token::<Refresh>::from_payload(&t.payload(), &now), Ok(t.clone()));
    assert_eq!(Token::<Access>::from_payload(&t.payload(), &now), Err(Error::InvalidToken));
    assert_eq!(Token::<Refresh>::from_payload(&t.payload(), &at(2_000_000_000)), Err(Error::InvalidToken));
    assert_eq!(Token::<Refresh>::from_payload("not json", &now), Err(Error::InvalidToken));
    assert_eq!(
        Token::<Setup>::from_payload("{\"type\":\"Setup\",\"expires\":\"2100-01-01T00:00:00Z\",\"phone\":\"0712\"}", &now),
        Err(Error::InvalidToken)
    );
    let extra = "{\"user\":\"010101010101010101010101\",\"session\":\"ABABABABABABABABABABABAB\",\"expires\":\"2033-05-18T03:33:20.000000005Z\",\"type\":\"Refresh\",\"x\":\"y\"}";
    assert_eq!(Token::<Refresh>::from_payload(extra, &now), Ok(t));
}

#[test]
fn token_from_raw_checks_kind_and_expiry() {
    let (s, u) = ids();
    let now = at(1000);
    assert!(Token::from_raw("Access", Access { session: s, user: u }, at(1001), &now).is_ok());
    assert_eq!(Token::from_raw("Refresh", Access { session: s, user: u }, at(1001), &now), Err(Error::InvalidToken));
    assert_eq!(Token::from_raw("Access", Access { session: s, user: u }, at(1000), &now), Err(Error::InvalidToken));
}

#[test]
fn token_expiry_and_kinds() {
    assert_eq!(Access::expiry_after(&at(1000)), at(1900));
    assert_eq!(Refresh::expiry_after(&at(1000)), at(1000 + 2_592_000));
    assert_eq!(Setup::expiry_after(&at(1000)), at(4600));
    let near_end = DateTime::from_timestamp(common::time::MAX_TIMESTAMP - 10, 3).unwrap();
    assert_eq!(Access::expiry_after(&near_end), near_end);
    assert_eq!(Access::kind(), "Access");
    assert_eq!(Refresh::ttl_seconds(), 2_592_000);
    let (s, u) = ids();
    let t = Token::access(s, u);
    let before = DateTime::now().timestamp();
    assert!(t.expires.timestamp() >= before + 900 - 1 && t.expires.timestamp() <= before + 900 + 1);
    assert!(t.is_expired_at(&t.expires));
    assert!(!t.is_expired_at(&at(t.expires.timestamp() - 1)));
    assert_eq!(t.claims(), &Access { session: s, user: u });
    assert_eq!(t.clone().into_claims(), Access { session: s, user: u });
}

#[test]
fn tokenize_seals_a_v4_local_token() {
    let (s, u) = ids();
    let t = Token::refresh(s, u);
    let sealed = t.tokenize().unwrap();
    assert!(sealed.starts_with("v4.local."));
    assert_ne!(sealed, t.payload());
    assert_eq!(Token::<Refresh>::decode_paseto(&sealed), Ok(t));
    assert_eq!(Token::<Refresh>::decode_paseto("v4.local.garbage"), Err(Error::InvalidToken));
}

#[test]
fn paseto_round_trip_and_refusals() {
    let (s, u) = ids();
    let r = Token::refresh(s, u);
    let sealed = r.encode_paseto().unwrap();
    assert!(sealed.starts_with("v4.local."));
    assert!(is_openable(&sealed));
    assert_eq!(open(&sealed), Some(r.payload()));
    assert_eq!(Token::<Refresh>::decode_paseto(&sealed), Ok(r.clone()));
    assert_eq!(Token::<Access>::decode_paseto(&sealed), Err(Error::InvalidToken));
    assert_eq!(Token::<Setup>::decode_paseto(&sealed), Err(Error::InvalidToken));
    let other = r.encode_paseto().unwrap();
    assert_ne!(other, sealed);
    assert_eq!(Token::<Refresh>::decode_paseto(&other), Ok(r));
    for bad in ["", "not-a-token", "v4.local.AAAA", "v4.public.AAAA", "v3.local.AAAA"] {
        assert!(!is_openable(bad));
        assert_eq!(open(bad), None);
        assert_eq!(Token::<Access>::decode_paseto(bad), Err(Error::InvalidToken));
    }
    let long_garbage = format!("v4.local.{}", "A".repeat(100));
    assert!(is_openable(&long_garbage));
    assert_eq!(open(&long_garbage), None);
    assert_eq!(Token::<Access>::decode_paseto(&long_garbage), Err(Error::InvalidToken));
    let dotted = format!("v4.local.{}.{}", "A".repeat(40), "A".repeat(60));
    assert!(!is_openable(&dotted));
    let sealed_text = seal("hello").unwrap();
    assert_eq!(open(&sealed_text), Some("hello".to_string()));
    let mut tampered = sealed_text.clone();
    tampered.pop();
    tampered.push(if sealed_text.ends_with('A') { 'B' } else { 'A' });
    assert_eq!(open(&tampered), None);
}

#[test]
fn token_payload_beyond_year_9999_and_extra_members() {
    let (s, u) = ids();
    let far = DateTime::from_timestamp(300_000_000_000, 0).unwrap();
    let t = Token::with_expiry(Access { session: s, user: u }, far);
    assert!(t.payload().contains("\"expires\":\"+11476-"));
    assert_eq!(Token::<Access>::from_payload(&t.payload(), &at(0)), Ok(t.clone()));
    let with_number = "{\"type\":\"Access\",\"expires\":\"2100-01-01T00:00:00Z\",\"session\":\"abababababababababababab\",\"user\":\"010101010101010101010101\",\"n\":5,\"o\":{\"a\":[1]}}";
    let read = Token::<Access>::from_payload(with_number, &at(0)).unwrap();
    assert_eq!(read.claims, Access { session: s, user: u });
    assert_eq!(read.expires, DateTime::parse_iso8601("2100-01-01T00:00:00Z").unwrap());
    let session_number = "{\"type\":\"Access\",\"expires\":\"2100-01-01T00:00:00Z\",\"session\":5,\"user\":\"010101010101010101010101\"}";
    assert_eq!(Token::<Access>::from_payload(session_number, &at(0)), Err(Error::InvalidToken));
}

#[test]
fn bundle_draft_rules() {
    let (s, u) = ids();
    let mut d = BundleDraft::new();
    assert_eq!(d.check_key(BundleField::Access), Ok(()));
    d.access = Some(Token::access(s, u));
    assert_eq!(d.check_key(BundleField::Access), Err(BundleError::DuplicateField(BundleField::Access)));
    d.profile = Some("p".to_string());
    assert_eq!(BundleField::Refresh.name(), "refresh");
    assert_eq!(d.finish().err(), Some(BundleError::MissingField(BundleField::Refresh)));
    assert_eq!(BundleDraft::new().finish().err(), Some(BundleError::MissingField(BundleField::Access)));
    let full = BundleDraft { access: Some(Token::access(s, u)), refresh: Some(Token::refresh(s, u)), profile: Some("x".to_string()) };
    let b = full.finish().unwrap();
    assert_eq!(b.profile, "x");
}

#[test]
fn login_backpressure() {
    assert_eq!(check_queue_depth(Some("19999"), Some("1")), Err(Error::SlowDown));
    assert_eq!(check_queue_depth(Some("19999"), None), Ok(()));
    assert_eq!(check_queue_depth(Some("abc"), Some("19999")), Ok(()));
    assert_eq!(check_queue_depth(Some("20000"), Some("x")), Err(Error::SlowDown));
    assert_eq!(check_queue_depth(Some("18446744073709551615"), Some("18446744073709551615")), Err(Error::SlowDown));
    assert_eq!(check_queue_depth(None, None), Ok(()));
}

#[test]
fn login_rate_limit() {
    let v = Verification::new(Phone::new("+254712345678").unwrap(), "123456", at(1000), at(1300));
    assert_eq!(check_rate_limit(&v, &at(1059)), Err(Error::SlowDown));
    assert_eq!(check_rate_limit(&v, &at(1060)), Ok(()));
}

#[test]
fn login_issues_a_code() {
    let phone = Phone::new("+254712345678").unwrap();
    let v = new_verification(phone.clone(), 123456, at(1000));
    assert_eq!(v.code, "123456");
    assert_eq!(v.created, at(1000));
    assert_eq!(v.ttl, at(1300));
    let fresh = issue_verification(phone.clone());
    assert_eq!(fresh.code.len(), 6);
    assert!(fresh.code.chars().all(|c| c.is_ascii_digit()));
    let n: u32 = fresh.code.parse().unwrap();
    assert!((100000..999999).contains(&n));
    assert_eq!(fresh.ttl.timestamp(), fresh.created.timestamp() + 300);
    for _ in 0..100 {
        let c = generate_code();
        assert!((100000..999999).contains(&c));
    }
    assert_eq!(queue_message(&phone), "{\"phone\":\"+254712345678\"}");
}

#[test]
fn verify_checks_the_code() {
    let phone = Phone::new("+254712345678").unwrap();
    let v = new_verification(phone.clone(), 654321, at(1000));
    assert_eq!(check_code(&v, "654321", &at(1299)), Ok(()));
    assert_eq!(check_code(&v, "654321", &at(1300)), Err(Error::InvalidToken));
    assert_eq!(check_code(&v, "123456", &at(1000)), Err(Error::InvalidToken));
    assert_eq!(
        upload_url(&phone),
        "https://r2.eduxal.com/upload/profile_+254712345678.jpg?signature=presigned_upload_url"
    );
}

#[test]
fn setup_creates_account_and_bundle() {
    let phone = Phone::new("+254712345678").unwrap();
    let (session_id, user_id) = ids();
    let (user, session) = new_account(phone.clone(), "John Doe", "iPhone", user_id, session_id, at(1000));
    assert_eq!(user.id, user_id);
    assert_eq!(user.status, Status::Active);
    assert_eq!(user.name, "John Doe");
    assert_eq!(session.user, user_id);
    assert_eq!(session.id, session_id);
    assert_eq!(session.status, SessionStatus::Active);
    assert_eq!(session.ttl, at(1000 + 2_592_000));
    assert_eq!(profile_url(&user_id), "https://r2.eduxal.com/profiles/010101010101010101010101.jpg");
    let b = sign_in_bundle(session_id, user_id);
    assert_eq!(b.access.claims, Access { session: session_id, user: user_id });
    assert_eq!(b.refresh.claims, Refresh { session: session_id, user: user_id });
    assert_eq!(b.profile, "https://r2.eduxal.com/profiles/010101010101010101010101.jpg");
    let access_life = b.access.expires.timestamp() - DateTime::now().timestamp();
    let refresh_life = b.refresh.expires.timestamp() - DateTime::now().timestamp();
    assert!((898..=900).contains(&access_life));
    assert!((2_591_998..=2_592_000).contains(&refresh_life));
}

#[test]
fn refresh_checks_the_session() {
    let (sid, uid) = ids();
    let s = Session::new(uid, sid, "d", SessionStatus::Active, at(0), at(100));
    assert_eq!(check_session(&s, &at(99)), Ok(()));
    assert_eq!(check_session(&s, &at(100)), Err(Error::InvalidToken));
    let revoked = Session::new(uid, sid, "d", SessionStatus::Revoked, at(0), at(100));
    assert_eq!(check_session(&revoked, &at(1)), Err(Error::InvalidToken));
}

#[test]
fn bearer_header() {
    assert_eq!(bearer_token(Some("Bearer abc.def ")), Ok("abc.def".to_string()));
    assert_eq!(bearer_token(Some("Bearer \t v4.local.x\n")), Ok("v4.local.x".to_string()));
    assert_eq!(bearer_token(Some("Basic abc")), Err(Error::InvalidToken));
    assert_eq!(bearer_token(Some("bearer abc")), Err(Error::InvalidToken));
    assert_eq!(bearer_token(None), Err(Error::InvalidToken));
    assert_eq!(bearer_token(Some("Bearer ")), Ok(String::new()));
}

#[test]
fn messenger_plans_the_batch() {
    let records = vec![
        ("+254700000001".to_string(), "m1".to_string()),
        ("+254700000002".to_string(), "m2".to_string()),
        ("+254700000001".to_string(), "m3".to_string()),
    ];
    let targets = collect_targets(&records);
    assert_eq!(targets.get("+254700000001").unwrap(), "m3");
    assert_eq!(targets.entries().len(), 2);

    let v = Verification::new(Phone::new("+254700000001").unwrap(), "111111", at(0), at(300));
    let mut bad = Item::new();
    bad.insert("phone".to_string(), common::Attribute::S("+254700000002".to_string()));
    let codes = collect_codes(&vec![v.to_item(), bad]);
    assert_eq!(codes.get("+254700000001").unwrap(), "111111");
    assert!(codes.get("+254700000002").is_none());

    let (sends, missing) = plan_dispatch(&targets, &codes);
    assert_eq!(
        sends,
        vec![Dispatch { phone: "+254700000001".to_string(), code: "111111".to_string(), message_id: "m3".to_string() }]
    );
    assert_eq!(missing, vec!["m2".to_string()]);

    let failures = batch_failures(missing, &vec![("m3".to_string(), false), ("m4".to_string(), true)]);
    assert_eq!(failures, vec!["m2".to_string(), "m3".to_string()]);
}

#[test]
fn whatsapp_template_body() {
    let body = whatsapp_body("+254712345678", "123456");
    let value: serde_json::Value = serde_json::from_str(&body).unwrap();
    assert_eq!(value["messaging_product"], "whatsapp");
    assert_eq!(value["to"], "+254712345678");
    assert_eq!(value["type"], "template");
    assert_eq!(value["template"]["name"], "auth_code");
    assert_eq!(value["template"]["language"]["code"], "en");
    assert_eq!(value["template"]["components"][0]["parameters"][0]["text"], "123456");
    assert_eq!(value["template"]["components"][1]["sub_type"], "url");
    assert_eq!(value["template"]["components"][1]["index"], 0);
    assert_eq!(value["template"]["components"][1]["parameters"][0]["text"], "123456");
    assert!(body.starts_with("{\"messaging_product\":\"whatsapp\",\"to\":\"+254712345678\",\"type\":\"template\""));
}

#[test]
fn a_code_is_used_once() {
    let phone = Phone::new("+254712345678").unwrap();
    let v = new_verification(phone, 654321, at(1000));
    let (answer, stored) = redeem_code(Some(v.clone()), "654321", &at(1100));
    assert_eq!(answer, Ok(()));
    assert_eq!(stored, None);
    let (again, after) = redeem_code(stored, "654321", &at(1101));
    assert_eq!(again, Err(Error::InvalidToken));
    assert_eq!(after, None);
    let (wrong, kept) = redeem_code(Some(v.clone()), "111111", &at(1100));
    assert_eq!(wrong, Err(Error::InvalidToken));
    assert_eq!(kept, Some(v.clone()));
    let (late, kept_late) = redeem_code(Some(v.clone()), "654321", &at(1300));
    assert_eq!(late, Err(Error::InvalidToken));
    assert_eq!(kept_late, Some(v));
}

#[test]
fn queue_body_names_the_phone() {
    let phone = Phone::new("+254712345678").unwrap();
    assert_eq!(queued_phone(&queue_message(&phone)), Some("+254712345678".to_string()));
    assert_eq!(queued_phone("{\"phone\":\"+1\",\"n\":3}"), Some("+1".to_string()));
    assert_eq!(queued_phone("{\"phone\":5}"), None);
    assert_eq!(queued_phone("[\"+254712345678\"]"), Some("+254712345678".to_string()));
    assert_eq!(queued_phone(" [ \"+1\" ] "), Some("+1".to_string()));
    assert_eq!(queued_phone("[\"+1\",\"+2\"]"), None);
    assert_eq!(queued_phone("[5]"), None);
    assert_eq!(queued_phone("[]"), None);
    assert_eq!(queued_phone("\"+1\""), None);
    assert_eq!(queued_phone("{\"other\":\"x\"}"), None);
    assert_eq!(queued_phone("not json"), None);
}

#[test]
fn decode_at_a_given_time() {
    let (s, u) = ids();
    let r = Token::refresh(s, u);
    let sealed = r.encode_paseto().unwrap();
    let now = DateTime::now();
    assert_eq!(Token::<Refresh>::decode_paseto_at(&sealed, &now), Ok(r.clone()));
    assert_eq!(Token::<Refresh>::decode_paseto_at(&sealed, &r.expires), Err(Error::InvalidToken));
    assert_eq!(Token::<Access>::decode_paseto_at(&sealed, &now), Err(Error::InvalidToken));
    let expired = Token::with_expiry(Access { session: s, user: u }, at(1_000_000));
    let sealed_expired = expired.encode_paseto().unwrap();
    assert_eq!(Token::<Access>::decode_paseto_at(&sealed_expired, &now), Err(Error::InvalidToken));
    assert_eq!(Token::<Access>::decode_paseto_at(&sealed_expired, &at(999_999)), Ok(expired));
    assert_eq!(Token::<Access>::decode_paseto_at("v4.local.AAAA", &now), Err(Error::InvalidToken));
}

#[test]
fn token_payload_on_a_leap_second() {
    let (s, u) = ids();
    let leap = DateTime::from_timestamp(1_483_228_799, 1_500_000_000).unwrap();
    assert_eq!(leap.to_iso8601(), "2016-12-31T23:59:60.500Z");
    assert_eq!(DateTime::parse_iso8601(&leap.to_iso8601()), Ok(leap));
    let t = Token::with_expiry(Refresh { session: s, user: u }, leap);
    assert_eq!(Token::<Refresh>::from_payload(&t.payload(), &at(0)), Ok(t));
}
