//! Field-level validation: pure predicate functions over payloads, run
//! before any store mutation.

use vstd::prelude::*;
use crate::types::{ContributorPayload, QuotePayload, ValidationIssue};

verus! {

/// Minimum length of a contributor's username, in characters.
pub const USERNAME_MIN_LEN: usize = 3;

/// Minimum age of a contributor.
pub const AGE_MIN: u32 = 18;

/// Minimum length of a quote's category, in characters.
pub const CATEGORY_MIN_LEN: usize = 3;

/// The constraints a contributor payload fails, in a fixed order.
pub open spec fn contributor_issues(username: Seq<char>, email: Seq<char>, age: u32) -> Seq<
    ValidationIssue,
> {
    (if username.len() < USERNAME_MIN_LEN {
        seq![ValidationIssue::UsernameTooShort]
    } else {
        Seq::empty()
    }) + (if email.len() == 0 {
        seq![ValidationIssue::EmailEmpty]
    } else {
        Seq::empty()
    }) + (if age < AGE_MIN {
        seq![ValidationIssue::AgeBelowMinimum]
    } else {
        Seq::empty()
    })
}

/// A contributor payload passes every field constraint.
pub open spec fn contributor_payload_valid(
    username: Seq<char>,
    email: Seq<char>,
    age: u32,
) -> bool {
    contributor_issues(username, email, age).len() == 0
}

/// The constraints a quote payload fails, in a fixed order.
pub open spec fn quote_issues(text: Seq<char>, category: Seq<char>) -> Seq<ValidationIssue> {
    (if text.len() == 0 {
        seq![ValidationIssue::TextEmpty]
    } else {
        Seq::empty()
    }) + (if category.len() < CATEGORY_MIN_LEN {
        seq![ValidationIssue::CategoryTooShort]
    } else {
        Seq::empty()
    })
}

/// A quote payload passes every field constraint.
pub open spec fn quote_payload_valid(text: Seq<char>, category: Seq<char>) -> bool {
    quote_issues(text, category).len() == 0
}

/// Checks a proposed contributor's fields; returns each failed constraint.
pub fn check_contributor(payload: &ContributorPayload) -> (v: Vec<ValidationIssue>)
    ensures
        v@ == contributor_issues(payload.username@, payload.email@, payload.age),
{
    let mut v: Vec<ValidationIssue> = Vec::new();
    if payload.username.unicode_len() < USERNAME_MIN_LEN {
        v.push(ValidationIssue::UsernameTooShort);
    }
    if payload.email.unicode_len() == 0 {
        v.push(ValidationIssue::EmailEmpty);
    }
    if payload.age < AGE_MIN {
        v.push(ValidationIssue::AgeBelowMinimum);
    }
    proof {
        assert(v@ =~= contributor_issues(payload.username@, payload.email@, payload.age));
    }
    v
}

/// Checks a proposed quote's fields; returns each failed constraint.
pub fn check_quote(payload: &QuotePayload) -> (v: Vec<ValidationIssue>)
    ensures
        v@ == quote_issues(payload.text@, payload.category@),
{
    let mut v: Vec<ValidationIssue> = Vec::new();
    if payload.text.unicode_len() == 0 {
        v.push(ValidationIssue::TextEmpty);
    }
    if payload.category.unicode_len() < CATEGORY_MIN_LEN {
        v.push(ValidationIssue::CategoryTooShort);
    }
    proof {
        assert(v@ =~= quote_issues(payload.text@, payload.category@));
    }
    v
}

} // verus!
