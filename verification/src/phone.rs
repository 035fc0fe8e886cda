use crate::attribute::{Attribute, AttributeModel};
use crate::error::Error;
use vstd::prelude::*;

verus! {

/// An ASCII decimal digit.
pub open spec fn is_ascii_digit(c: char) -> bool {
    '0' <= c && c <= '9'
}

/// International E.164 country code format: a leading `+` followed by
/// 7 to 15 decimal digits and nothing else.
pub open spec fn valid_phone(s: Seq<char>) -> bool {
    &&& 8 <= s.len() <= 16
    &&& s[0] == '+'
    &&& forall|i: int| 1 <= i < s.len() ==> is_ascii_digit(#[trigger] s[i])
}

/// A phone number in E.164 format.
#[derive(Debug, PartialEq, Eq, PartialOrd, Ord, Hash)]
pub struct Phone(String);

impl View for Phone {
    type V = Seq<char>;

    closed spec fn view(&self) -> Seq<char> {
        self.0@
    }
}

impl Clone for Phone {
    fn clone(&self) -> (r: Self)
        ensures
            r@ == self@,
    {
        proof {
            use_type_invariant(self);
        }
        Phone(self.0.clone())
    }
}

impl Phone {
    /// Every phone number is in E.164 format.
    #[verifier::type_invariant]
    pub open spec fn well_formed(self) -> bool {
        valid_phone(self@)
    }

    /// Validates if a string is in international E.164 country code format.
    /// E.164 requires a leading '+' followed by 7 to 15 digits.
    pub fn validate(s: &str) -> (r: bool)
        ensures
            r == valid_phone(s@),
    {
        let n = s.unicode_len();
        if n < 8 || n > 16 {
            return false;
        }
        if s.get_char(0) != '+' {
            return false;
        }
        let mut i: usize = 1;
        while i < n
            invariant
                n == s@.len(),
                1 <= i <= n,
                forall|j: int| 1 <= j < i ==> is_ascii_digit(#[trigger] s@[j]),
            decreases n - i,
        {
            let c = s.get_char(i);
            if !('0' <= c && c <= '9') {
                return false;
            }
            i = i + 1;
        }
        true
    }

    /// A phone number from its text, refused unless it is in E.164 format.
    pub fn new(s: &str) -> (r: Result<Phone, Error>)
        ensures
            valid_phone(s@) ==> (r matches Ok(p) && p@ == s@),
            !valid_phone(s@) ==> r == Err::<Phone, Error>(Error::InvalidPhone),
    {
        if Self::validate(s) {
            Ok(Phone(s.to_string()))
        } else {
            Err(Error::InvalidPhone)
        }
    }

    pub fn as_str(&self) -> (r: &str)
        ensures
            r@ == self@,
    {
        self.0.as_str()
    }

    pub fn into_inner(self) -> (r: String)
        ensures
            r@ == self@,
    {
        self.0
    }

    /// The phone number as a string attribute.
    pub fn to_attribute(&self) -> (r: Attribute)
        ensures
            r@ == AttributeModel::S(self@),
    {
        Attribute::S(self.0.clone())
    }

    /// A phone number from a string attribute.
    pub fn from_attribute(a: &Attribute) -> (r: Result<Phone, Error>)
        ensures
            r matches Ok(p) ==> phone_from_attribute(a@) == Ok::<Seq<char>, Error>(p@),
            r matches Err(e) ==> phone_from_attribute(a@) == Err::<Seq<char>, Error>(e),
    {
        match a {
            Attribute::S(s) => Phone::new(s.as_str()),
            _ => Err(Error::InvalidAttributeValue),
        }
    }
}

impl std::str::FromStr for Phone {
    type Err = Error;

    fn from_str(s: &str) -> (r: Result<Phone, Error>)
        ensures
            valid_phone(s@) ==> (r matches Ok(p) && p@ == s@),
            !valid_phone(s@) ==> r == Err::<Phone, Error>(Error::InvalidPhone),
    {
        Phone::new(s)
    }
}

/// What a phone number attribute reads as.
pub open spec fn phone_from_attribute(a: AttributeModel) -> Result<Seq<char>, Error> {
    match a {
        AttributeModel::S(s) => if valid_phone(s) {
            Ok(s)
        } else {
            Err(Error::InvalidPhone)
        },
        _ => Err(Error::InvalidAttributeValue),
    }
}

/// A phone number written as a string attribute reads back as the number.
pub proof fn lemma_phone_attribute_round_trip(p: Seq<char>)
    requires
        valid_phone(p),
    ensures
        phone_from_attribute(AttributeModel::S(p)) == Ok::<Seq<char>, Error>(p),
{
}

} // verus!
