use common::attribute::Attribute;
use common::{
    Access, DateTime, Error, Id, Item, Phone, Refresh, Session, SessionStatus, Status, Token,
    User, Verification,
};

#[test]
fn test_id_creation_and_hex_conversion() {
    let id = Id::new();
    let hex = id.to_hex();
    assert_eq!(hex.len(), 24);

    let parsed = Id::parse_str(&hex).expect("Should parse valid hex string");
    assert_eq!(id, parsed);
    assert_eq!(id.bytes(), parsed.bytes());
}

#[test]
fn test_dynamodb_attribute_value_conversion() {
    let id = Id::new();
    let av = id.to_attribute();

    assert_eq!(av, Attribute::S(id.to_hex()));

    let converted_id = Id::from_attribute(&av).expect("Should convert AttributeValue::S to Id");
    assert_eq!(id, converted_id);
}

#[test]
fn test_phone_validation() {
    assert!(Phone::new("+254712345678").is_ok());
    assert!(Phone::new("+14155552671").is_ok());

    assert_eq!(Phone::new("0712345678"), Err(Error::InvalidPhone));
    assert_eq!(Phone::new("254712345678"), Err(Error::InvalidPhone));
    assert_eq!(Phone::new("+123"), Err(Error::InvalidPhone));
    assert_eq!(Phone::new("+abcdefghijk"), Err(Error::InvalidPhone));
}

#[test]
fn phone_test_dynamodb_conversion() {
    let phone = Phone::new("+254712345678").unwrap();
    let attr = phone.to_attribute();
    assert_eq!(attr.as_s().unwrap(), "+254712345678");

    let parsed = Phone::from_attribute(&attr).unwrap();
    assert_eq!(parsed, phone);
}

#[test]
fn test_session_status_str_conversion() {
    assert_eq!(SessionStatus::from_str("Active").unwrap(), SessionStatus::Active);
    assert_eq!(SessionStatus::from_str("Revoked").unwrap(), SessionStatus::Revoked);
    assert_eq!(SessionStatus::from_str("Expired").unwrap(), SessionStatus::Expired);
    assert_eq!(SessionStatus::Active.as_str(), "Active");
    assert!(SessionStatus::from_str("Unknown").is_err());
}

#[test]
fn test_dynamodb_session_conversion() {
    let now = DateTime::now();
    let ttl = DateTime::from_timestamp(now.timestamp() + 3600, 0).unwrap();
    let session = Session::new(
        Id::new(),
        Id::new(),
        "PostmanRuntime/7.29.2",
        SessionStatus::Active,
        now,
        ttl,
    );

    let item: Item = session.to_item();
    assert_eq!(item.get("user").unwrap().as_s().unwrap(), &session.user.to_hex());
    assert_eq!(item.get("id").unwrap().as_s().unwrap(), &session.id.to_hex());
    assert_eq!(item.get("device").unwrap().as_s().unwrap(), "PostmanRuntime/7.29.2");
    assert_eq!(item.get("status").unwrap().as_s().unwrap(), "Active");

    let parsed = Session::from_item(&item).unwrap();
    assert_eq!(session.user, parsed.user);
    assert_eq!(session.id, parsed.id);
    assert_eq!(session.device, parsed.device);
    assert_eq!(session.status, parsed.status);
    assert_eq!(session.created.timestamp(), parsed.created.timestamp());
    assert_eq!(session.ttl.timestamp(), parsed.ttl.timestamp());
}

#[test]
fn test_datetime_now_and_rfc3339() {
    let now = DateTime::now();
    let rfc = now.to_rfc3339();
    let parsed = DateTime::parse_from_rfc3339(&rfc).unwrap();
    assert_eq!(now.timestamp(), parsed.timestamp());
}

#[test]
fn time_test_dynamodb_conversion() {
    let dt = DateTime::now();
    let attr_s = dt.to_attribute();
    let parsed_s = DateTime::from_attribute(&attr_s).unwrap();
    assert_eq!(dt.timestamp(), parsed_s.timestamp());

    let attr_n = Attribute::N(dt.timestamp().to_string());
    let parsed_n = DateTime::from_attribute(&attr_n).unwrap();
    assert_eq!(dt.timestamp(), parsed_n.timestamp());

    let invalid_attr = Attribute::S("not-a-date".to_string());
    assert!(DateTime::from_attribute(&invalid_attr).is_err());
}

#[test]
fn test_status_str_conversion() {
    assert_eq!(Status::from_str("Active").unwrap(), Status::Active);
    assert_eq!(Status::Active.as_str(), "Active");
    assert!(Status::from_str("Unknown").is_err());
}

#[test]
fn test_dynamodb_verification_conversion() {
    let now = DateTime::now();
    let ttl = DateTime::from_timestamp(now.timestamp() + 300, 0).unwrap();
    let verification = Verification::new(Phone::new("+254712345678").unwrap(), "123456", now, ttl);

    let item = verification.to_item();
    let parsed = Verification::from_item(&item).unwrap();

    assert_eq!(verification.phone, parsed.phone);
    assert_eq!(verification.code, parsed.code);
    assert_eq!(verification.created.timestamp(), parsed.created.timestamp());
    assert_eq!(verification.ttl.timestamp(), parsed.ttl.timestamp());
}

#[test]
fn test_token_types_and_deref() {
    let session_id = Id::new();
    let user_id = Id::new();

    let access_token = Token::access(session_id.clone(), user_id.clone());
    assert_eq!(access_token.session, session_id);
    assert_eq!(access_token.user, user_id);
    assert!(!access_token.is_expired());

    let refresh_token = Token::refresh(session_id.clone(), user_id.clone());
    assert_eq!(refresh_token.session, session_id);
    assert_eq!(refresh_token.user, user_id);
    assert!(!refresh_token.is_expired());

    let phone = Phone::new("+254712345678").unwrap();
    let setup_token = Token::setup(phone.clone());
    assert_eq!(setup_token.phone, phone);
    assert!(!setup_token.is_expired());
}

#[test]
fn test_paseto_encode_decode_and_type_mismatch_error() {
    let session_id = Id::new();
    let user_id = Id::new();

    let refresh_token = Token::refresh(session_id, user_id);
    let paseto_str = refresh_token.encode_paseto().unwrap();

    let decoded_refresh: Token<Refresh> = Token::decode_paseto(&paseto_str).unwrap();
    assert_eq!(refresh_token, decoded_refresh);

    let access_result: Result<Token<Access>, Error> = Token::decode_paseto(&paseto_str);
    assert_eq!(access_result, Err(Error::InvalidToken));
}

#[test]
fn test_paseto_expired_token_returns_invalid_token_error() {
    let session_id = Id::new();
    let user_id = Id::new();
    let past_expires = DateTime::from_timestamp(1000000, 0).unwrap();

    let expired_token = Token {
        claims: Access { session: session_id, user: user_id },
        expires: past_expires,
    };
    let paseto_str = expired_token.encode_paseto().unwrap();

    let decode_result: Result<Token<Access>, Error> = Token::decode_paseto(&paseto_str);
    assert_eq!(decode_result, Err(Error::InvalidToken));
}

#[test]
fn user_new_keeps_its_fields() {
    let id = Id::from_bytes([1; 12]);
    let created = DateTime::from_timestamp(1_700_000_000, 0).unwrap();
    let user = User::new(id, Phone::new("+254712345678").unwrap(), "John Doe", Status::Active, created);
    assert_eq!(user.id, id);
    assert_eq!(user.phone.as_str(), "+254712345678");
    assert_eq!(user.name, "John Doe");
    assert_eq!(user.status, Status::Active);
    assert_eq!(user.created, created);
}
