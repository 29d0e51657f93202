//! The entities, their payloads, the caller identity, and the typed errors.

use vstd::prelude::*;

verus! {

/// Opaque caller identity, supplied per request by the host environment.
/// The core only ever compares principals for equality.
pub struct Principal {
    pub bytes: Vec<u8>,
}

impl View for Principal {
    type V = Seq<u8>;

    open spec fn view(&self) -> Seq<u8> {
        self.bytes@
    }
}

impl Principal {
    pub fn new(bytes: Vec<u8>) -> (r: Principal)
        ensures
            r@ == bytes@,
    {
        Principal { bytes }
    }

    /// Byte-for-byte equality of two principals.
    pub fn same_as(&self, other: &Principal) -> (r: bool)
        ensures
            r == (self@ == other@),
    {
        let n = self.bytes.len();
        if n != other.bytes.len() {
            proof {
                assert(self@ != other@);
            }
            return false;
        }
        let mut i: usize = 0;
        while i < n
            invariant
                i <= n,
                n == self@.len(),
                n == other@.len(),
                forall|j: int| 0 <= j < i ==> self@[j] == other@[j],
            decreases n - i,
        {
            if self.bytes[i] != other.bytes[i] {
                return false;
            }
            i = i + 1;
        }
        proof {
            assert(self@ =~= other@);
        }
        true
    }
}

impl Clone for Principal {
    fn clone(&self) -> (r: Self)
        ensures
            r@ == self@,
    {
        let r = Principal { bytes: self.bytes.clone() };
        proof {
            assert(r.bytes@ =~= self.bytes@);
        }
        r
    }
}

/// The mathematical content of a `Contributor` record.
#[verifier::ext_equal]
pub ghost struct ContributorV {
    pub id: u64,
    pub owner: Seq<u8>,
    pub username: Seq<char>,
    pub email: Seq<char>,
    pub age: u32,
    pub created_at: u64,
    pub updated_at: Option<u64>,
}

/// A contributor: owned by the principal that created it.
pub struct Contributor {
    pub id: u64,
    pub owner: Principal,
    pub username: String,
    pub email: String,
    pub age: u32,
    pub created_at: u64,
    pub updated_at: Option<u64>,
}

impl View for Contributor {
    type V = ContributorV;

    open spec fn view(&self) -> ContributorV {
        ContributorV {
            id: self.id,
            owner: self.owner@,
            username: self.username@,
            email: self.email@,
            age: self.age,
            created_at: self.created_at,
            updated_at: self.updated_at,
        }
    }
}

impl Clone for Contributor {
    fn clone(&self) -> (r: Self)
        ensures
            r@ == self@,
    {
        Contributor {
            id: self.id,
            owner: self.owner.clone(),
            username: self.username.clone(),
            email: self.email.clone(),
            age: self.age,
            created_at: self.created_at,
            updated_at: self.updated_at,
        }
    }
}

/// The mathematical content of a `Quote` record.
#[verifier::ext_equal]
pub ghost struct QuoteV {
    pub id: u64,
    pub contributor_id: u64,
    pub author: Seq<char>,
    pub text: Seq<char>,
    pub category: Seq<char>,
    pub created_at: u64,
    pub updated_at: Option<u64>,
}

/// A quote; its write authorization is derived from the referenced
/// contributor's owner, not stored on the quote itself.
pub struct Quote {
    pub id: u64,
    pub contributor_id: u64,
    pub author: String,
    pub text: String,
    pub category: String,
    pub created_at: u64,
    pub updated_at: Option<u64>,
}

impl View for Quote {
    type V = QuoteV;

    open spec fn view(&self) -> QuoteV {
        QuoteV {
            id: self.id,
            contributor_id: self.contributor_id,
            author: self.author@,
            text: self.text@,
            category: self.category@,
            created_at: self.created_at,
            updated_at: self.updated_at,
        }
    }
}

impl Clone for Quote {
    fn clone(&self) -> (r: Self)
        ensures
            r@ == self@,
    {
        Quote {
            id: self.id,
            contributor_id: self.contributor_id,
            author: self.author.clone(),
            text: self.text.clone(),
            category: self.category.clone(),
            created_at: self.created_at,
            updated_at: self.updated_at,
        }
    }
}

/// A proposed contributor: everything of a record but what the handler
/// itself mints or stamps (identifier, owner, timestamps).
pub struct ContributorPayload {
    pub username: String,
    pub email: String,
    pub age: u32,
}

/// A proposed quote.
pub struct QuotePayload {
    pub contributor_id: u64,
    pub author: String,
    pub text: String,
    pub category: String,
}

/// One field constraint that a payload failed.
#[derive(Clone, Copy, PartialEq, Eq, Structural, Debug)]
pub enum ValidationIssue {
    /// Contributor: username length at least 3.
    UsernameTooShort,
    /// Contributor: email non-empty.
    EmailEmpty,
    /// Contributor: age at least 18.
    AgeBelowMinimum,
    /// Quote: text non-empty.
    TextEmpty,
    /// Quote: category length at least 3.
    CategoryTooShort,
    /// Either: the record's serialized form would exceed the size cap.
    RecordTooLarge,
}

/// What a `NotFound` error speaks of.
#[derive(Clone, Copy, PartialEq, Eq, Structural, Debug)]
pub enum Target {
    /// The contributor with this identifier.
    Contributor { id: u64 },
    /// The quote with this identifier.
    Quote { id: u64 },
    /// The whole contributor collection (it was empty).
    Contributors,
    /// The whole quote collection, or no quote matched (empty result).
    Quotes,
}

/// The closed error taxonomy: every typed failure of a public operation.
pub enum Error {
    /// A lookup missed, or a listing was empty.
    NotFound { target: Target },
    /// The payload failed field constraints; carries each failed one.
    ValidationFailed { issues: Vec<ValidationIssue> },
    /// The caller is not the owning principal of the (referenced)
    /// contributor; carries the caller and that contributor's identifier.
    AuthenticationFailed { caller: Principal, contributor_id: u64 },
}

} // verus!
