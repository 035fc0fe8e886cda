//! The tokens and profile link handed to a signed-in client, and the rules
//! by which their serialized form is read back.
use crate::token::{Access, Refresh, Token};
use vstd::prelude::*;

verus! {

/// An access token, a refresh token and the link to the user's profile picture.
#[derive(Debug, Clone, PartialEq, Eq)]
pub struct Bundle {
    pub access: Token<Access>,
    pub refresh: Token<Refresh>,
    pub profile: String,
}

impl Bundle {
    pub fn new(access: Token<Access>, refresh: Token<Refresh>, profile: &str) -> (r: Bundle)
        ensures
            r.access == access,
            r.refresh == refresh,
            r.profile@ == profile@,
    {
        Bundle { access, refresh, profile: profile.to_string() }
    }
}

/// The members of a serialized bundle.
#[derive(Debug, Clone, Copy, PartialEq, Eq, Structural)]
pub enum BundleField {
    Access,
    Refresh,
    Profile,
}

impl BundleField {
    pub open spec fn spec_name(self) -> Seq<char> {
        match self {
            BundleField::Access => "access"@,
            BundleField::Refresh => "refresh"@,
            BundleField::Profile => "profile"@,
        }
    }

    /// The member's name.
    pub fn name(&self) -> (r: &'static str)
        ensures
            r@ == self.spec_name(),
    {
        match self {
            BundleField::Access => "access",
            BundleField::Refresh => "refresh",
            BundleField::Profile => "profile",
        }
    }
}

/// Why a serialized bundle is refused.
#[derive(Debug, Clone, Copy, PartialEq, Eq, Structural)]
pub enum BundleError {
    DuplicateField(BundleField),
    MissingField(BundleField),
}

/// The members of a bundle read so far.
#[derive(Debug)]
pub struct BundleDraft {
    pub access: Option<Token<Access>>,
    pub refresh: Option<Token<Refresh>>,
    pub profile: Option<String>,
}

impl BundleDraft {
    pub open spec fn has(&self, f: BundleField) -> bool {
        match f {
            BundleField::Access => self.access is Some,
            BundleField::Refresh => self.refresh is Some,
            BundleField::Profile => self.profile is Some,
        }
    }

    /// No member read yet.
    pub fn new() -> (r: BundleDraft)
        ensures
            r.access is None,
            r.refresh is None,
            r.profile is None,
    {
        BundleDraft { access: None, refresh: None, profile: None }
    }

    /// A member may be read once: a second one is refused.
    pub fn check_key(&self, f: BundleField) -> (r: Result<(), BundleError>)
        ensures
            self.has(f) ==> r == Err::<(), BundleError>(BundleError::DuplicateField(f)),
            !self.has(f) ==> r is Ok,
    {
        let present = match f {
            BundleField::Access => self.access.is_some(),
            BundleField::Refresh => self.refresh.is_some(),
            BundleField::Profile => self.profile.is_some(),
        };
        if present {
            Err(BundleError::DuplicateField(f))
        } else {
            Ok(())
        }
    }

    /// The bundle once every member has been read; else the first missing
    /// member, in the order access, refresh, profile.
    pub fn finish(self) -> (r: Result<Bundle, BundleError>)
        ensures
            self.access is Some && self.refresh is Some && self.profile is Some ==> r == Ok::<
                Bundle,
                BundleError,
            >(Bundle { access: self.access->0, refresh: self.refresh->0, profile: self.profile->0 }),
            self.access is None ==> r == Err::<Bundle, BundleError>(
                BundleError::MissingField(BundleField::Access),
            ),
            self.access is Some && self.refresh is None ==> r == Err::<Bundle, BundleError>(
                BundleError::MissingField(BundleField::Refresh),
            ),
            self.access is Some && self.refresh is Some && self.profile is None ==> r == Err::<
                Bundle,
                BundleError,
            >(BundleError::MissingField(BundleField::Profile)),
    {
        let access = match self.access {
            Some(a) => a,
            None => return Err(BundleError::MissingField(BundleField::Access)),
        };
        let refresh = match self.refresh {
            Some(t) => t,
            None => return Err(BundleError::MissingField(BundleField::Refresh)),
        };
        let profile = match self.profile {
            Some(p) => p,
            None => return Err(BundleError::MissingField(BundleField::Profile)),
        };
        Ok(Bundle { access, refresh, profile })
    }
}

} // verus!
