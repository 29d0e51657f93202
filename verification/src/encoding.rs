//! The bounded-size storage form of a record.
//!
//! Records are serialized to bytes on write (the wire encoding is Candid);
//! a record whose serialized form would exceed `RECORD_CAP` bytes is
//! rejected before storage, as a validation failure.  The encoding itself
//! is an external collaborator: only the length of a record's encoding is
//! consumed here, under the names `contributor_blob_len` and
//! `quote_blob_len`.

use vstd::prelude::*;
use crate::types::{Contributor, ContributorV, Quote, QuoteV};

verus! {

/// The fixed cap on a record's serialized form, in bytes.
pub const RECORD_CAP: usize = 1024;

/// The length of the Candid encoding of a contributor's fields, or `None`
/// where the encoder reports failure.  The encoding is a function of the
/// field values alone.
pub uninterp spec fn contributor_blob_len(
    id: u64,
    owner: Seq<u8>,
    username: Seq<char>,
    email: Seq<char>,
    age: u32,
    created_at: u64,
    updated_at: Option<u64>,
) -> Option<usize>;

/// The length of the Candid encoding of a quote's fields, or `None` where
/// the encoder reports failure.  The encoding is a function of the field
/// values alone.
pub uninterp spec fn quote_blob_len(
    id: u64,
    contributor_id: u64,
    author: Seq<char>,
    text: Seq<char>,
    category: Seq<char>,
    created_at: u64,
    updated_at: Option<u64>,
) -> Option<usize>;

/// The serialized form of this contributor stays within the cap.
pub open spec fn contributor_fits(c: ContributorV) -> bool {
    match contributor_blob_len(
        c.id,
        c.owner,
        c.username,
        c.email,
        c.age,
        c.created_at,
        c.updated_at,
    ) {
        Some(n) => n <= RECORD_CAP,
        None => false,
    }
}

/// The serialized form of this quote stays within the cap.
pub open spec fn quote_fits(q: QuoteV) -> bool {
    match quote_blob_len(
        q.id,
        q.contributor_id,
        q.author,
        q.text,
        q.category,
        q.created_at,
        q.updated_at,
    ) {
        Some(n) => n <= RECORD_CAP,
        None => false,
    }
}

/// Relies on `candid::encode_one`: serializes a tuple of plain values to
/// its Candid byte form, a deterministic function of the values alone.
/// Only the length of that form is returned; `contributor_blob_len` names
/// it.
#[verifier::external_body]
fn measure_contributor(c: &Contributor) -> (r: Option<usize>)
    ensures
        r == contributor_blob_len(
            c.id,
            c.owner@,
            c.username@,
            c.email@,
            c.age,
            c.created_at,
            c.updated_at,
        ),
{
    candid::encode_one(
        (c.id, &c.owner.bytes, &c.username, &c.email, c.age, c.created_at, c.updated_at),
    ).ok().map(|bytes| bytes.len())
}

/// Relies on `candid::encode_one`, as `measure_contributor` does;
/// `quote_blob_len` names the length of the quote's Candid form.
#[verifier::external_body]
fn measure_quote(q: &Quote) -> (r: Option<usize>)
    ensures
        r == quote_blob_len(
            q.id,
            q.contributor_id,
            q.author@,
            q.text@,
            q.category@,
            q.created_at,
            q.updated_at,
        ),
{
    candid::encode_one(
        (q.id, q.contributor_id, &q.author, &q.text, &q.category, q.created_at, q.updated_at),
    ).ok().map(|bytes| bytes.len())
}

/// Whether this contributor's serialized form stays within the cap.
pub fn contributor_within_cap(c: &Contributor) -> (r: bool)
    ensures
        r == contributor_fits(c@),
{
    match measure_contributor(c) {
        Some(n) => n <= RECORD_CAP,
        None => false,
    }
}

/// Whether this quote's serialized form stays within the cap.
pub fn quote_within_cap(q: &Quote) -> (r: bool)
    ensures
        r == quote_fits(q@),
{
    match measure_quote(q) {
        Some(n) => n <= RECORD_CAP,
        None => false,
    }
}

} // verus!
