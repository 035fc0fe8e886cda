//! Domain types and decision logic of the eduxal authentication services:
//! phone numbers, identifiers, timestamps, sessions, users, one-time-code
//! verifications, typed tokens and their sealed wire form, the DynamoDB
//! item model, and the decisions taken by the login / verify / setup /
//! refresh flows and by the OTP messenger.
pub mod attribute;
pub mod auth;
pub mod bundle;
pub mod decimal;
pub mod error;
pub mod id;
pub mod json;
pub mod messenger;
pub mod paseto;
pub mod phone;
pub mod session;
pub mod text;
pub mod time;
pub mod token;
pub mod user;
pub mod verification;

pub use attribute::{Attribute, Item};
pub use bundle::{Bundle, BundleDraft, BundleError, BundleField};
pub use error::{AuthError, Error};
pub use id::Id;
pub use phone::Phone;
pub use session::{Session, SessionStatus};
pub use time::DateTime;
pub use token::{Access, Refresh, Setup, Token, TokenType};
pub use user::{Status, User};
pub use verification::Verification;
