use common::attribute::Attribute;
use common::session::SessionStatus;
use common::time::{MAX_TIMESTAMP, MIN_TIMESTAMP};
use common::{AuthError, DateTime, Error, Id, Item, Phone, Session, Status, Verification};
use std::str::FromStr;

fn at(secs: i64) -> DateTime {
    DateTime::from_timestamp(secs, 0).unwrap()
}

#[test]
fn id_hex_text_is_lowercase_and_exact() {
    let id = Id::from_bytes([0x00, 0x01, 0x0a, 0xff, 0x10, 0x20, 0x30, 0x40, 0x50, 0x60, 0x7b, 0xcd]);
    assert_eq!(id.to_hex(), "00010aff102030405060 7bcd".replace(' ', ""));
    assert_eq!(Id::parse_str("00010AFF1020304050607BCD").unwrap(), id);
    assert_eq!(Id::parse_str("00010aff1020304050607bc"), Err(Error::InvalidId));
    assert_eq!(Id::parse_str("00010aff1020304050607bcg"), Err(Error::InvalidId));
    assert_eq!(Id::from_str("00010aff1020304050607bcd").unwrap(), id);
    assert_eq!(id.as_bytes_ref(), &id.bytes());
}

#[test]
fn id_from_blob_needs_twelve_bytes() {
    assert_eq!(Id::from_blob(&[7u8; 12]).unwrap(), Id::from_bytes([7; 12]));
    assert_eq!(Id::from_blob(&[7u8; 11]), Err(Error::InvalidId));
    assert_eq!(Id::from_blob(&[7u8; 13]), Err(Error::InvalidId));
}

#[test]
fn id_attribute_errors() {
    assert_eq!(Id::from_attribute(&Attribute::N("1".to_string())), Err(Error::InvalidAttributeValue));
    assert_eq!(Id::from_attribute(&Attribute::S("zz".to_string())), Err(Error::InvalidId));
}

#[test]
fn phone_boundaries() {
    assert!(Phone::new("+1234567").is_ok());
    assert!(Phone::new("+123456789012345").is_ok());
    assert_eq!(Phone::new("+123456"), Err(Error::InvalidPhone));
    assert_eq!(Phone::new("+1234567890123456"), Err(Error::InvalidPhone));
    assert_eq!(Phone::new("+12345678٣"), Err(Error::InvalidPhone));
    assert!(Phone::validate("+254712345678"));
    assert!(!Phone::validate("+25471234567 "));
    let p = Phone::from_str("+254712345678").unwrap();
    assert_eq!(p.clone().into_inner(), "+254712345678");
    assert_eq!(Phone::from_attribute(&Attribute::S("12".to_string())), Err(Error::InvalidPhone));
    assert_eq!(Phone::from_attribute(&Attribute::Other), Err(Error::InvalidAttributeValue));
}

#[test]
fn datetime_range_and_leap_seconds() {
    assert!(DateTime::from_timestamp(MAX_TIMESTAMP, 999_999_999).is_ok());
    assert_eq!(DateTime::from_timestamp(MAX_TIMESTAMP + 1, 0), Err(Error::InvalidDateTime));
    assert!(DateTime::from_timestamp(MIN_TIMESTAMP, 0).is_ok());
    assert_eq!(DateTime::from_timestamp(MIN_TIMESTAMP - 1, 0), Err(Error::InvalidDateTime));
    assert!(DateTime::from_timestamp(59, 1_500_000_000).is_ok());
    assert_eq!(DateTime::from_timestamp(58, 1_500_000_000), Err(Error::InvalidDateTime));
    assert_eq!(DateTime::from_timestamp(59, 2_000_000_000), Err(Error::InvalidDateTime));
    let dt = DateTime::from_timestamp(1_700_000_000, 250).unwrap();
    assert_eq!(dt.timestamp(), 1_700_000_000);
    assert_eq!(dt.timestamp_subsec_nanos(), 250);
}

#[test]
fn datetime_rfc3339_text() {
    assert_eq!(at(1_700_000_000).to_rfc3339(), "2023-11-14T22:13:20+00:00");
    assert_eq!(DateTime::parse_from_rfc3339("2023-11-14T22:13:20Z").unwrap(), at(1_700_000_000));
    assert_eq!(DateTime::parse_from_rfc3339("2023-11-14T23:13:20+01:00").unwrap(), at(1_700_000_000));
    assert_eq!(DateTime::parse_from_rfc3339("yesterday"), Err(Error::InvalidDateTime));
    let precise = DateTime::from_timestamp(1_700_000_000, 123_456_789).unwrap();
    assert_eq!(DateTime::from_str(&precise.to_rfc3339()).unwrap(), precise);
    assert_eq!(DateTime::parse_from_rfc3339("not-a-date"), Err(Error::InvalidDateTime));
}

#[test]
fn datetime_serde_form() {
    assert_eq!(at(1_700_000_000).to_iso8601(), "2023-11-14T22:13:20Z");
    let millis = DateTime::from_timestamp(1_700_000_000, 250_000_000).unwrap();
    assert_eq!(millis.to_iso8601(), "2023-11-14T22:13:20.250Z");
    let micros = DateTime::from_timestamp(1_700_000_000, 250_000).unwrap();
    assert_eq!(micros.to_iso8601(), "2023-11-14T22:13:20.000250Z");
    let nanos = DateTime::from_timestamp(1_700_000_000, 7).unwrap();
    assert_eq!(nanos.to_iso8601(), "2023-11-14T22:13:20.000000007Z");
    for dt in [millis, micros, nanos, at(-62_167_219_201), at(300_000_000_000)] {
        assert_eq!(DateTime::parse_iso8601(&dt.to_iso8601()), Ok(dt));
    }
    assert_eq!(at(-62_167_219_201).to_iso8601(), "-0001-12-31T23:59:59Z");
    assert_eq!(DateTime::parse_iso8601("2023-11-14 22:13:20+00:00"), Ok(at(1_700_000_000)));
    assert_eq!(DateTime::parse_iso8601("not-a-date"), Err(Error::InvalidDateTime));
}

#[test]
fn datetime_attributes() {
    let dt = at(1_700_000_000);
    assert_eq!(dt.to_timestamp_attribute(), Attribute::N("1700000000".to_string()));
    assert_eq!(dt.to_attribute(), Attribute::S("2023-11-14T22:13:20+00:00".to_string()));
    assert_eq!(DateTime::from_attribute(&Attribute::N("-5".to_string())).unwrap(), at(-5));
    assert_eq!(DateTime::from_attribute(&Attribute::N("abc".to_string())), Err(Error::InvalidDateTime));
    assert_eq!(
        DateTime::from_attribute(&Attribute::N("9223372036854775807".to_string())),
        Err(Error::InvalidDateTime)
    );
    assert_eq!(DateTime::from_attribute(&Attribute::Other), Err(Error::InvalidAttributeValue));
}

#[test]
fn session_expiry() {
    let s = Session::new(Id::from_bytes([1; 12]), Id::from_bytes([2; 12]), "dev", SessionStatus::Active, at(0), at(100));
    assert!(!s.is_expired_at(&at(99)));
    assert!(s.is_expired_at(&at(100)));
    let mut e = s.clone();
    e.status = SessionStatus::Expired;
    assert!(e.is_expired_at(&at(0)));
    assert!(e.is_expired());
    assert_eq!(SessionStatus::from_str("active"), Err(Error::InvalidSessionStatus));
    assert_eq!(<SessionStatus as FromStr>::from_str("Revoked"), Ok(SessionStatus::Revoked));
    assert_eq!(SessionStatus::Expired.to_attribute(), Attribute::S("Expired".to_string()));
}

#[test]
fn session_item_round_trip_drops_ttl_nanos() {
    let ttl = DateTime::from_timestamp(1_700_003_600, 999).unwrap();
    let created = DateTime::from_timestamp(1_700_000_000, 42).unwrap();
    let s = Session::new(Id::from_bytes([3; 12]), Id::from_bytes([4; 12]), "Mozilla/5.0", SessionStatus::Revoked, created, ttl);
    let item = s.to_item();
    assert_eq!(item.get("ttl").unwrap(), &Attribute::N("1700003600".to_string()));
    let back = Session::from_item(&item).unwrap();
    assert_eq!(back.created, created);
    assert_eq!(back.ttl, at(1_700_003_600));
    assert_eq!(back.device, "Mozilla/5.0");
    assert_eq!(back.status, SessionStatus::Revoked);
}

#[test]
fn session_item_errors() {
    let s = Session::new(Id::from_bytes([3; 12]), Id::from_bytes([4; 12]), "d", SessionStatus::Active, at(0), at(1));
    let mut item = s.to_item();
    item.insert("status".to_string(), Attribute::S("Paused".to_string()));
    assert_eq!(Session::from_item(&item), Err(Error::InvalidSessionStatus));
    item.insert("user".to_string(), Attribute::S("nothex".to_string()));
    assert_eq!(Session::from_item(&item), Err(Error::InvalidId));
    item.insert("device".to_string(), Attribute::N("1".to_string()));
    assert_eq!(Session::from_item(&item), Err(Error::InvalidId));
    let empty = Item::new();
    assert_eq!(Session::from_item(&empty), Err(Error::InvalidAttributeValue));
}

#[test]
fn verification_item_errors() {
    let v = Verification::new(Phone::new("+254712345678").unwrap(), "123456", at(10), at(310));
    let mut item = v.to_item();
    assert_eq!(item.get("ttl").unwrap(), &Attribute::N("310".to_string()));
    assert_eq!(Verification::from_item(&item).unwrap(), v);
    item.insert("phone".to_string(), Attribute::S("0712".to_string()));
    assert_eq!(Verification::from_item(&item), Err(Error::InvalidPhone));
    item.insert("code".to_string(), Attribute::Other);
    assert_eq!(Verification::from_item(&item), Err(Error::InvalidPhone));
}

#[test]
fn user_item_and_status_names() {
    assert_eq!(Status::from_str("Deleted"), Ok(Status::Deleted));
    assert_eq!(Status::from_str("deleted"), Err(Error::InvalidAttributeValue));
    assert_eq!(Status::Suspended.as_str(), "Suspended");
    assert_eq!(Status::from_attribute(&Status::Invited.to_attribute()), Ok(Status::Invited));
    let user = common::User::new(Id::from_bytes([9; 12]), Phone::new("+254712345678").unwrap(), "Ann", Status::Invited, at(1_700_000_000));
    let item = user.to_item();
    assert_eq!(item.get("id").unwrap(), &Attribute::S("090909090909090909090909".to_string()));
    assert_eq!(item.get("phone").unwrap(), &Attribute::S("+254712345678".to_string()));
    assert_eq!(item.get("name").unwrap(), &Attribute::S("Ann".to_string()));
    assert_eq!(item.get("status").unwrap(), &Attribute::S("Invited".to_string()));
    assert_eq!(item.get("created").unwrap(), &Attribute::S("2023-11-14T22:13:20+00:00".to_string()));
}

#[test]
fn errors_and_status_codes() {
    assert_eq!(AuthError::from(Error::SlowDown).status_code(), 429);
    assert_eq!(AuthError(Error::InvalidToken).status_code(), 401);
    assert_eq!(AuthError::from(Error::InvalidPhone).status_code(), 500);
    assert_eq!(Error::InvalidId.message(), "invalid id");
    assert_eq!(Error::InvalidDateTime.message(), "invalid datetime format");
    assert_eq!(Error::SlowDown.debug_name(), format!("{:?}", Error::SlowDown));
    assert_eq!(Error::InvalidAttributeValue.debug_name(), "InvalidAttributeValue");
}
