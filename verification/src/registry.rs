//! The registry: both entity collections, their identity counters, and the
//! request handlers that sequence validation, authorization, identifier
//! minting and store mutation.

use vstd::prelude::*;
use crate::encoding::{contributor_fits, contributor_within_cap, quote_fits, quote_within_cap};
use crate::store::{
    kv_get, kv_insert, kv_remove, lemma_kv_insert_sorted, lemma_kv_remove_sorted,
    lemma_view_entries_get, lemma_view_entries_insert, lemma_view_entries_remove,
    view_entries, StoreMap,
};
use crate::types::{
    Contributor, ContributorPayload, ContributorV, Error, Principal, Quote, QuotePayload,
    QuoteV, Target, ValidationIssue,
};
use crate::validate::{
    check_contributor, check_quote, contributor_issues, contributor_payload_valid,
    quote_issues, quote_payload_valid,
};

verus! {

/// The whole persistent state: one identity counter and one record store
/// per entity type.
pub struct Registry {
    pub contributor_counter: u64,
    pub quote_counter: u64,
    pub contributors: StoreMap<Contributor>,
    pub quotes: StoreMap<Quote>,
}

impl Registry {
    /// The registry invariant: stores are ordered, every record is keyed
    /// by its own identifier, and every identifier was minted by the
    /// counter of its collection (so it is at least 1 and at most the
    /// counter).
    pub open spec fn wf(self) -> bool {
        &&& self.contributors.wf()
        &&& self.quotes.wf()
        &&& forall|i: int|
            0 <= i < self.contributors@.len() ==> {
                &&& 1 <= (#[trigger] self.contributors@[i]).0
                &&& self.contributors@[i].0 <= self.contributor_counter
                &&& self.contributors@[i].1.id == self.contributors@[i].0
            }
        &&& forall|i: int|
            0 <= i < self.quotes@.len() ==> {
                &&& 1 <= (#[trigger] self.quotes@[i]).0
                &&& self.quotes@[i].0 <= self.quote_counter
                &&& self.quotes@[i].1.id == self.quotes@[i].0
            }
    }

    /// The contributor collection, as a key-ordered association sequence
    /// of record views.
    pub open spec fn contributors_v(self) -> Seq<(u64, ContributorV)> {
        view_entries(self.contributors@)
    }

    /// The quote collection, as a key-ordered association sequence of
    /// record views.
    pub open spec fn quotes_v(self) -> Seq<(u64, QuoteV)> {
        view_entries(self.quotes@)
    }

    /// The record a successful `add_contributor` would create next.
    pub open spec fn next_contributor_v(
        self,
        owner: Seq<u8>,
        username: Seq<char>,
        email: Seq<char>,
        age: u32,
        now: u64,
    ) -> ContributorV {
        ContributorV {
            id: (self.contributor_counter + 1) as u64,
            owner,
            username,
            email,
            age,
            created_at: now,
            updated_at: None,
        }
    }

    /// An empty registry: counters at 0, both collections empty.
    pub fn new() -> (r: Registry)
        ensures
            r.wf(),
            r.contributor_counter == 0,
            r.quote_counter == 0,
            r.contributors_v() == Seq::<(u64, ContributorV)>::empty(),
            r.quotes_v() == Seq::<(u64, QuoteV)>::empty(),
    {
        let r = Registry {
            contributor_counter: 0,
            quote_counter: 0,
            contributors: StoreMap::new(),
            quotes: StoreMap::new(),
        };
        proof {
            assert(r.contributors_v() =~= Seq::<(u64, ContributorV)>::empty());
            assert(r.quotes_v() =~= Seq::<(u64, QuoteV)>::empty());
        }
        r
    }

    /// Point lookup of a contributor; absence is a normal outcome.
    pub fn _get_contributor(&self, id: u64) -> (r: Option<Contributor>)
        ensures
            match r {
                Some(c) => kv_get(self.contributors_v(), id) == Some(c@),
                None => kv_get(self.contributors_v(), id) is None,
            },
    {
        proof {
            lemma_view_entries_get(self.contributors@, id);
        }
        match self.contributors.get(id) {
            Some(c) => Some(c.clone()),
            None => None,
        }
    }

    /// Looks a contributor up; a miss is a `NotFound` error.
    pub fn get_contributor(&self, id: u64) -> (r: Result<Contributor, Error>)
        ensures
            r is Ok <==> kv_get(self.contributors_v(), id) is Some,
            match r {
                Ok(c) => kv_get(self.contributors_v(), id) == Some(c@),
                Err(e) => (e matches Error::NotFound { target }
                    && target == (Target::Contributor { id })),
            },
    {
        match self._get_contributor(id) {
            Some(c) => Ok(c),
            None => Err(Error::NotFound { target: Target::Contributor { id } }),
        }
    }

    /// Raw upsert of a contributor record, keyed by its own identifier.
    pub fn do_insert_contributor(&mut self, contributor: &Contributor)
        requires
            old(self).wf(),
            1 <= contributor.id <= old(self).contributor_counter,
        ensures
            final(self).wf(),
            final(self).contributors_v() == kv_insert(
                old(self).contributors_v(),
                contributor.id,
                contributor@,
            ),
            final(self).contributor_counter == old(self).contributor_counter,
            final(self).quote_counter == old(self).quote_counter,
            final(self).quotes@ == old(self).quotes@,
    {
        let c = contributor.clone();
        proof {
            lemma_kv_insert_sorted(self.contributors@, contributor.id, c);
            lemma_view_entries_insert(self.contributors@, contributor.id, c);
            let p = contributor_keys_ok(self.contributor_counter);
            assert(forall|i: int|
                0 <= i < self.contributors@.len() ==> p(#[trigger] self.contributors@[i]));
            assert(p((contributor.id, c)));
            crate::store::lemma_kv_insert_all(self.contributors@, contributor.id, c, p);
            let t = kv_insert(self.contributors@, contributor.id, c);
            assert(forall|i: int| 0 <= i < t.len() ==> p(#[trigger] t[i]));
        }
        self.contributors.insert(c.id, c);
    }

    /// Creates a contributor owned by the caller: validates the payload,
    /// mints the next identifier, stamps the creation time, and stores the
    /// record.  No identifier is minted and nothing is stored on failure.
    pub fn add_contributor(
        &mut self,
        caller: &Principal,
        now: u64,
        payload: ContributorPayload,
    ) -> (r: Result<Contributor, Error>)
        requires
            old(self).wf(),
            old(self).contributor_counter < u64::MAX,
        ensures
            final(self).wf(),
            final(self).quote_counter == old(self).quote_counter,
            final(self).quotes@ == old(self).quotes@,
            ({
                let cand = old(self).next_contributor_v(
                    caller@,
                    payload.username@,
                    payload.email@,
                    payload.age,
                    now,
                );
                let valid = contributor_payload_valid(
                    payload.username@,
                    payload.email@,
                    payload.age,
                );
                &&& (r is Ok <==> valid && contributor_fits(cand))
                &&& match r {
                    Ok(c) => {
                        &&& c@ == cand
                        &&& final(self).contributor_counter == cand.id
                        &&& final(self).contributors_v() == kv_insert(
                            old(self).contributors_v(),
                            cand.id,
                            cand,
                        )
                        // the minted identifier is strictly greater than
                        // every identifier already in the collection
                        &&& forall|j: int|
                            0 <= j < old(self).contributors_v().len()
                                ==> (#[trigger] old(self).contributors_v()[j]).0 < cand.id
                    },
                    Err(e) => {
                        &&& *final(self) == *old(self)
                        &&& if !valid {
                            e matches Error::ValidationFailed { issues } && issues@
                                == contributor_issues(
                                payload.username@,
                                payload.email@,
                                payload.age,
                            )
                        } else {
                            e matches Error::ValidationFailed { issues } && issues@ == seq![
                                ValidationIssue::RecordTooLarge,
                            ]
                        }
                    },
                }
            }),
    {
        let issues = check_contributor(&payload);
        if issues.len() > 0 {
            return Err(Error::ValidationFailed { issues });
        }
        let id = self.contributor_counter + 1;
        let contributor = Contributor {
            id,
            owner: caller.clone(),
            username: payload.username,
            email: payload.email,
            age: payload.age,
            created_at: now,
            updated_at: None,
        };
        if !contributor_within_cap(&contributor) {
            let mut issues: Vec<ValidationIssue> = Vec::new();
            issues.push(ValidationIssue::RecordTooLarge);
            proof {
                assert(issues@ =~= seq![ValidationIssue::RecordTooLarge]);
            }
            return Err(Error::ValidationFailed { issues });
        }
        self.contributor_counter = id;
        self.do_insert_contributor(&contributor);
        Ok(contributor)
    }

    /// Replaces a contributor's payload fields: the identifier, owner and
    /// creation time are preserved, and the update time is stamped.  Only
    /// the owning principal may update; nothing changes on failure.
    pub fn update_contributor(
        &mut self,
        caller: &Principal,
        now: u64,
        id: u64,
        payload: ContributorPayload,
    ) -> (r: Result<Contributor, Error>)
        requires
            old(self).wf(),
        ensures
            final(self).wf(),
            final(self).contributor_counter == old(self).contributor_counter,
            final(self).quote_counter == old(self).quote_counter,
            final(self).quotes@ == old(self).quotes@,
            ({
                let stored = kv_get(old(self).contributors_v(), id);
                let valid = contributor_payload_valid(
                    payload.username@,
                    payload.email@,
                    payload.age,
                );
                let upd = updated_contributor_v(
                    stored->Some_0,
                    payload.username@,
                    payload.email@,
                    payload.age,
                    now,
                );
                &&& (r is Ok <==> valid && stored is Some && stored->Some_0.owner == caller@
                    && contributor_fits(upd))
                &&& match r {
                    Ok(c) => {
                        &&& c@ == upd
                        &&& final(self).contributors_v() == kv_insert(
                            old(self).contributors_v(),
                            id,
                            upd,
                        )
                    },
                    Err(e) => {
                        &&& *final(self) == *old(self)
                        &&& if !valid {
                            e matches Error::ValidationFailed { issues } && issues@
                                == contributor_issues(
                                payload.username@,
                                payload.email@,
                                payload.age,
                            )
                        } else if stored is None {
                            e matches Error::NotFound { target } && target
                                == (Target::Contributor { id })
                        } else if stored->Some_0.owner != caller@ {
                            e matches Error::AuthenticationFailed { caller: who, contributor_id }
                                && who@ == caller@ && contributor_id == id
                        } else {
                            e matches Error::ValidationFailed { issues } && issues@ == seq![
                                ValidationIssue::RecordTooLarge,
                            ]
                        }
                    },
                }
            }),
    {
        let issues = check_contributor(&payload);
        if issues.len() > 0 {
            return Err(Error::ValidationFailed { issues });
        }
        proof {
            lemma_view_entries_get(self.contributors@, id);
        }
        let stored = match self.contributors.get(id) {
            Some(c) => c,
            None => {
                return Err(Error::NotFound { target: Target::Contributor { id } });
            },
        };
        proof {
            crate::store::lemma_kv_get_present(self.contributors@, id);
        }
        if !stored.owner.same_as(caller) {
            return Err(
                Error::AuthenticationFailed { caller: caller.clone(), contributor_id: id },
            );
        }
        let contributor = Contributor {
            id: stored.id,
            owner: stored.owner.clone(),
            username: payload.username,
            email: payload.email,
            age: payload.age,
            created_at: stored.created_at,
            updated_at: Some(now),
        };
        if !contributor_within_cap(&contributor) {
            let mut issues: Vec<ValidationIssue> = Vec::new();
            issues.push(ValidationIssue::RecordTooLarge);
            proof {
                assert(issues@ =~= seq![ValidationIssue::RecordTooLarge]);
            }
            return Err(Error::ValidationFailed { issues });
        }
        let out = contributor.clone();
        self.do_insert_contributor(&contributor);
        Ok(out)
    }

    /// Deletes a contributor and returns the removed record.  Only the
    /// owning principal may delete; nothing changes on failure.
    pub fn delete_contributor(&mut self, caller: &Principal, id: u64) -> (r: Result<
        Contributor,
        Error,
    >)
        requires
            old(self).wf(),
        ensures
            final(self).wf(),
            final(self).contributor_counter == old(self).contributor_counter,
            final(self).quote_counter == old(self).quote_counter,
            final(self).quotes@ == old(self).quotes@,
            ({
                let stored = kv_get(old(self).contributors_v(), id);
                &&& (r is Ok <==> stored is Some && stored->Some_0.owner == caller@)
                &&& match r {
                    Ok(c) => {
                        &&& Some(c@) == stored
                        &&& final(self).contributors_v() == kv_remove(
                            old(self).contributors_v(),
                            id,
                        )
                    },
                    Err(e) => {
                        &&& *final(self) == *old(self)
                        &&& if stored is None {
                            e matches Error::NotFound { target } && target
                                == (Target::Contributor { id })
                        } else {
                            e matches Error::AuthenticationFailed { caller: who, contributor_id }
                                && who@ == caller@ && contributor_id == id
                        }
                    },
                }
            }),
    {
        proof {
            lemma_view_entries_get(self.contributors@, id);
        }
        let stored = match self.contributors.get(id) {
            Some(c) => c,
            None => {
                return Err(Error::NotFound { target: Target::Contributor { id } });
            },
        };
        if !stored.owner.same_as(caller) {
            return Err(
                Error::AuthenticationFailed { caller: caller.clone(), contributor_id: id },
            );
        }
        proof {
            lemma_kv_remove_sorted(self.contributors@, id);
            lemma_view_entries_remove(self.contributors@, id);
            crate::store::lemma_kv_remove_keys_subset(self.contributors@, id);
        }
        match self.contributors.remove(id) {
            Some(c) => Ok(c),
            None => {
                // unreachable: the lookup above succeeded
                proof {
                    assert(false);
                }
                Err(Error::NotFound { target: Target::Contributor { id } })
            },
        }
    }

    /// Lists every contributor in key order.  An empty collection is a
    /// `NotFound` error, distinguishable from data being present.
    pub fn get_all_contributors(&self) -> (r: Result<Vec<Contributor>, Error>)
        ensures
            r is Ok <==> self.contributors_v().len() > 0,
            match r {
                Ok(v) => {
                    &&& v@.len() == self.contributors_v().len()
                    &&& forall|i: int|
                        0 <= i < v@.len() ==> (#[trigger] v@[i])@ == self.contributors_v()[i].1
                },
                Err(e) => (e matches Error::NotFound { target } && target
                    == Target::Contributors),
            },
    {
        let n = self.contributors.len();
        if n == 0 {
            return Err(Error::NotFound { target: Target::Contributors });
        }
        let mut v: Vec<Contributor> = Vec::new();
        let mut i: usize = 0;
        while i < n
            invariant
                i <= n,
                n == self.contributors@.len(),
                v@.len() == i,
                forall|j: int| 0 <= j < i ==> (#[trigger] v@[j])@ == self.contributors_v()[j].1,
            decreases n - i,
        {
            let e = self.contributors.entry_at(i);
            v.push(e.1.clone());
            i = i + 1;
        }
        Ok(v)
    }

    /// The record a successful `add_quote` would create next.
    pub open spec fn next_quote_v(
        self,
        contributor_id: u64,
        author: Seq<char>,
        text: Seq<char>,
        category: Seq<char>,
        now: u64,
    ) -> QuoteV {
        QuoteV {
            id: (self.quote_counter + 1) as u64,
            contributor_id,
            author,
            text,
            category,
            created_at: now,
            updated_at: None,
        }
    }

    /// Point lookup of a quote; absence is a normal outcome.
    pub fn _get_quote(&self, id: u64) -> (r: Option<Quote>)
        ensures
            match r {
                Some(q) => kv_get(self.quotes_v(), id) == Some(q@),
                None => kv_get(self.quotes_v(), id) is None,
            },
    {
        proof {
            lemma_view_entries_get(self.quotes@, id);
        }
        match self.quotes.get(id) {
            Some(q) => Some(q.clone()),
            None => None,
        }
    }

    /// Looks a quote up; a miss is a `NotFound` error.
    pub fn get_quote(&self, id: u64) -> (r: Result<Quote, Error>)
        ensures
            r is Ok <==> kv_get(self.quotes_v(), id) is Some,
            match r {
                Ok(q) => kv_get(self.quotes_v(), id) == Some(q@),
                Err(e) => (e matches Error::NotFound { target } && target == (Target::Quote {
                    id,
                })),
            },
    {
        match self._get_quote(id) {
            Some(q) => Ok(q),
            None => Err(Error::NotFound { target: Target::Quote { id } }),
        }
    }

    /// Raw upsert of a quote record, keyed by its own identifier.
    pub fn do_insert_quote(&mut self, quote: &Quote)
        requires
            old(self).wf(),
            1 <= quote.id <= old(self).quote_counter,
        ensures
            final(self).wf(),
            final(self).quotes_v() == kv_insert(old(self).quotes_v(), quote.id, quote@),
            final(self).contributor_counter == old(self).contributor_counter,
            final(self).quote_counter == old(self).quote_counter,
            final(self).contributors@ == old(self).contributors@,
    {
        let q = quote.clone();
        proof {
            lemma_kv_insert_sorted(self.quotes@, quote.id, q);
            lemma_view_entries_insert(self.quotes@, quote.id, q);
            let p = quote_keys_ok(self.quote_counter);
            assert(forall|i: int| 0 <= i < self.quotes@.len() ==> p(#[trigger] self.quotes@[i]));
            assert(p((quote.id, q)));
            crate::store::lemma_kv_insert_all(self.quotes@, quote.id, q, p);
            let t = kv_insert(self.quotes@, quote.id, q);
            assert(forall|i: int| 0 <= i < t.len() ==> p(#[trigger] t[i]));
        }
        self.quotes.insert(q.id, q);
    }

    /// Creates a quote: validates the payload, requires the referenced
    /// contributor to exist and the caller to own it, mints the next
    /// identifier, stamps the creation time, and stores the record.
    /// No identifier is minted and nothing is stored on failure.
    pub fn add_quote(&mut self, caller: &Principal, now: u64, payload: QuotePayload) -> (r:
        Result<Quote, Error>)
        requires
            old(self).wf(),
            old(self).quote_counter < u64::MAX,
        ensures
            final(self).wf(),
            final(self).contributor_counter == old(self).contributor_counter,
            final(self).contributors@ == old(self).contributors@,
            ({
                let referenced = kv_get(old(self).contributors_v(), payload.contributor_id);
                let valid = quote_payload_valid(payload.text@, payload.category@);
                let cand = old(self).next_quote_v(
                    payload.contributor_id,
                    payload.author@,
                    payload.text@,
                    payload.category@,
                    now,
                );
                &&& (r is Ok <==> valid && referenced is Some && referenced->Some_0.owner
                    == caller@ && quote_fits(cand))
                &&& match r {
                    Ok(q) => {
                        &&& q@ == cand
                        &&& final(self).quote_counter == cand.id
                        &&& final(self).quotes_v() == kv_insert(
                            old(self).quotes_v(),
                            cand.id,
                            cand,
                        )
                        // the minted identifier is strictly greater than
                        // every identifier already in the collection
                        &&& forall|j: int|
                            0 <= j < old(self).quotes_v().len()
                                ==> (#[trigger] old(self).quotes_v()[j]).0 < cand.id
                    },
                    Err(e) => {
                        &&& *final(self) == *old(self)
                        &&& if !valid {
                            e matches Error::ValidationFailed { issues } && issues@
                                == quote_issues(payload.text@, payload.category@)
                        } else if referenced is None {
                            e matches Error::NotFound { target } && target
                                == (Target::Contributor { id: payload.contributor_id })
                        } else if referenced->Some_0.owner != caller@ {
                            e matches Error::AuthenticationFailed { caller: who, contributor_id }
                                && who@ == caller@ && contributor_id == payload.contributor_id
                        } else {
                            e matches Error::ValidationFailed { issues } && issues@ == seq![
                                ValidationIssue::RecordTooLarge,
                            ]
                        }
                    },
                }
            }),
    {
        let issues = check_quote(&payload);
        if issues.len() > 0 {
            return Err(Error::ValidationFailed { issues });
        }
        proof {
            lemma_view_entries_get(self.contributors@, payload.contributor_id);
        }
        let referenced = match self.contributors.get(payload.contributor_id) {
            Some(c) => c,
            None => {
                return Err(
                    Error::NotFound { target: Target::Contributor { id: payload.contributor_id } },
                );
            },
        };
        if !referenced.owner.same_as(caller) {
            return Err(
                Error::AuthenticationFailed {
                    caller: caller.clone(),
                    contributor_id: payload.contributor_id,
                },
            );
        }
        let id = self.quote_counter + 1;
        let quote = Quote {
            id,
            contributor_id: payload.contributor_id,
            author: payload.author,
            text: payload.text,
            category: payload.category,
            created_at: now,
            updated_at: None,
        };
        if !quote_within_cap(&quote) {
            let mut issues: Vec<ValidationIssue> = Vec::new();
            issues.push(ValidationIssue::RecordTooLarge);
            proof {
                assert(issues@ =~= seq![ValidationIssue::RecordTooLarge]);
            }
            return Err(Error::ValidationFailed { issues });
        }
        self.quote_counter = id;
        self.do_insert_quote(&quote);
        Ok(quote)
    }

    /// Replaces a quote's payload fields: the identifier and creation time
    /// are preserved, the update time is stamped, and the referenced
    /// contributor may change.  Authorization is checked against the owner
    /// of the contributor the quote referenced before the update; the new
    /// reference must exist.  Nothing changes on failure.
    pub fn update_quote(
        &mut self,
        caller: &Principal,
        now: u64,
        id: u64,
        payload: QuotePayload,
    ) -> (r: Result<Quote, Error>)
        requires
            old(self).wf(),
        ensures
            final(self).wf(),
            final(self).contributor_counter == old(self).contributor_counter,
            final(self).quote_counter == old(self).quote_counter,
            final(self).contributors@ == old(self).contributors@,
            ({
                let stored = kv_get(old(self).quotes_v(), id);
                let origin = kv_get(old(self).contributors_v(), stored->Some_0.contributor_id);
                let target_c = kv_get(old(self).contributors_v(), payload.contributor_id);
                let valid = quote_payload_valid(payload.text@, payload.category@);
                let upd = updated_quote_v(
                    stored->Some_0,
                    payload.contributor_id,
                    payload.author@,
                    payload.text@,
                    payload.category@,
                    now,
                );
                &&& (r is Ok <==> valid && stored is Some && origin is Some
                    && origin->Some_0.owner == caller@ && target_c is Some && quote_fits(upd))
                &&& match r {
                    Ok(q) => {
                        &&& q@ == upd
                        &&& final(self).quotes_v() == kv_insert(old(self).quotes_v(), id, upd)
                    },
                    Err(e) => {
                        &&& *final(self) == *old(self)
                        &&& if !valid {
                            e matches Error::ValidationFailed { issues } && issues@
                                == quote_issues(payload.text@, payload.category@)
                        } else if stored is None {
                            e matches Error::NotFound { target } && target == (Target::Quote {
                                id,
                            })
                        } else if origin is None {
                            e matches Error::NotFound { target } && target
                                == (Target::Contributor { id: stored->Some_0.contributor_id })
                        } else if origin->Some_0.owner != caller@ {
                            e matches Error::AuthenticationFailed { caller: who, contributor_id }
                                && who@ == caller@ && contributor_id
                                == stored->Some_0.contributor_id
                        } else if target_c is None {
                            e matches Error::NotFound { target } && target
                                == (Target::Contributor { id: payload.contributor_id })
                        } else {
                            e matches Error::ValidationFailed { issues } && issues@ == seq![
                                ValidationIssue::RecordTooLarge,
                            ]
                        }
                    },
                }
            }),
    {
        let issues = check_quote(&payload);
        if issues.len() > 0 {
            return Err(Error::ValidationFailed { issues });
        }
        proof {
            lemma_view_entries_get(self.quotes@, id);
        }
        let stored = match self.quotes.get(id) {
            Some(q) => q,
            None => {
                return Err(Error::NotFound { target: Target::Quote { id } });
            },
        };
        proof {
            crate::store::lemma_kv_get_present(self.quotes@, id);
            lemma_view_entries_get(self.contributors@, stored.contributor_id);
        }
        let origin = match self.contributors.get(stored.contributor_id) {
            Some(c) => c,
            None => {
                return Err(
                    Error::NotFound { target: Target::Contributor { id: stored.contributor_id } },
                );
            },
        };
        if !origin.owner.same_as(caller) {
            return Err(
                Error::AuthenticationFailed {
                    caller: caller.clone(),
                    contributor_id: stored.contributor_id,
                },
            );
        }
        proof {
            lemma_view_entries_get(self.contributors@, payload.contributor_id);
        }
        if self.contributors.get(payload.contributor_id).is_none() {
            return Err(
                Error::NotFound { target: Target::Contributor { id: payload.contributor_id } },
            );
        }
        let quote = Quote {
            id: stored.id,
            contributor_id: payload.contributor_id,
            author: payload.author,
            text: payload.text,
            category: payload.category,
            created_at: stored.created_at,
            updated_at: Some(now),
        };
        if !quote_within_cap(&quote) {
            let mut issues: Vec<ValidationIssue> = Vec::new();
            issues.push(ValidationIssue::RecordTooLarge);
            proof {
                assert(issues@ =~= seq![ValidationIssue::RecordTooLarge]);
            }
            return Err(Error::ValidationFailed { issues });
        }
        let out = quote.clone();
        self.do_insert_quote(&quote);
        Ok(out)
    }

    /// Deletes a quote and returns the removed record.  Authorization is
    /// delegated: the caller must own the contributor the quote
    /// references.  Nothing changes on failure.
    pub fn delete_quote(&mut self, caller: &Principal, id: u64) -> (r: Result<Quote, Error>)
        requires
            old(self).wf(),
        ensures
            final(self).wf(),
            final(self).contributor_counter == old(self).contributor_counter,
            final(self).quote_counter == old(self).quote_counter,
            final(self).contributors@ == old(self).contributors@,
            ({
                let stored = kv_get(old(self).quotes_v(), id);
                let origin = kv_get(old(self).contributors_v(), stored->Some_0.contributor_id);
                &&& (r is Ok <==> stored is Some && origin is Some && origin->Some_0.owner
                    == caller@)
                &&& match r {
                    Ok(q) => {
                        &&& Some(q@) == stored
                        &&& final(self).quotes_v() == kv_remove(old(self).quotes_v(), id)
                    },
                    Err(e) => {
                        &&& *final(self) == *old(self)
                        &&& if stored is None {
                            e matches Error::NotFound { target } && target == (Target::Quote {
                                id,
                            })
                        } else if origin is None {
                            e matches Error::NotFound { target } && target
                                == (Target::Contributor { id: stored->Some_0.contributor_id })
                        } else {
                            e matches Error::AuthenticationFailed { caller: who, contributor_id }
                                && who@ == caller@ && contributor_id
                                == stored->Some_0.contributor_id
                        }
                    },
                }
            }),
    {
        proof {
            lemma_view_entries_get(self.quotes@, id);
        }
        let stored = match self.quotes.get(id) {
            Some(q) => q,
            None => {
                return Err(Error::NotFound { target: Target::Quote { id } });
            },
        };
        proof {
            lemma_view_entries_get(self.contributors@, stored.contributor_id);
        }
        let origin = match self.contributors.get(stored.contributor_id) {
            Some(c) => c,
            None => {
                return Err(
                    Error::NotFound { target: Target::Contributor { id: stored.contributor_id } },
                );
            },
        };
        if !origin.owner.same_as(caller) {
            return Err(
                Error::AuthenticationFailed {
                    caller: caller.clone(),
                    contributor_id: stored.contributor_id,
                },
            );
        }
        proof {
            lemma_kv_remove_sorted(self.quotes@, id);
            lemma_view_entries_remove(self.quotes@, id);
            crate::store::lemma_kv_remove_keys_subset(self.quotes@, id);
        }
        match self.quotes.remove(id) {
            Some(q) => Ok(q),
            None => {
                // unreachable: the lookup above succeeded
                proof {
                    assert(false);
                }
                Err(Error::NotFound { target: Target::Quote { id } })
            },
        }
    }

    /// Lists every quote in key order.  An empty collection is a
    /// `NotFound` error, distinguishable from data being present.
    pub fn get_all_quotes(&self) -> (r: Result<Vec<Quote>, Error>)
        ensures
            r is Ok <==> self.quotes_v().len() > 0,
            match r {
                Ok(v) => {
                    &&& v@.len() == self.quotes_v().len()
                    &&& forall|i: int|
                        0 <= i < v@.len() ==> (#[trigger] v@[i])@ == self.quotes_v()[i].1
                },
                Err(e) => (e matches Error::NotFound { target } && target == Target::Quotes),
            },
    {
        let n = self.quotes.len();
        if n == 0 {
            return Err(Error::NotFound { target: Target::Quotes });
        }
        let mut v: Vec<Quote> = Vec::new();
        let mut i: usize = 0;
        while i < n
            invariant
                i <= n,
                n == self.quotes@.len(),
                v@.len() == i,
                forall|j: int| 0 <= j < i ==> (#[trigger] v@[j])@ == self.quotes_v()[j].1,
            decreases n - i,
        {
            let e = self.quotes.entry_at(i);
            v.push(e.1.clone());
            i = i + 1;
        }
        Ok(v)
    }
}

/// Every identifier in the collection was minted by a counter at most
/// `bound`, and each record is keyed by its own identifier.
pub open spec fn contributor_keys_ok(bound: u64) -> spec_fn((u64, Contributor)) -> bool {
    |e: (u64, Contributor)| 1 <= e.0 <= bound && e.1.id == e.0
}

/// As `contributor_keys_ok`, for the quote collection.
pub open spec fn quote_keys_ok(bound: u64) -> spec_fn((u64, Quote)) -> bool {
    |e: (u64, Quote)| 1 <= e.0 <= bound && e.1.id == e.0
}

/// The record a successful quote update stores: payload fields replaced
/// (the referenced contributor may change), identifier and creation time
/// preserved, update time stamped.
pub open spec fn updated_quote_v(
    stored: QuoteV,
    contributor_id: u64,
    author: Seq<char>,
    text: Seq<char>,
    category: Seq<char>,
    now: u64,
) -> QuoteV {
    QuoteV {
        id: stored.id,
        contributor_id,
        author,
        text,
        category,
        created_at: stored.created_at,
        updated_at: Some(now),
    }
}

/// The record a successful contributor update stores: payload fields
/// replaced, identifier, owner and creation time preserved, update time
/// stamped.
pub open spec fn updated_contributor_v(
    stored: ContributorV,
    username: Seq<char>,
    email: Seq<char>,
    age: u32,
    now: u64,
) -> ContributorV {
    ContributorV {
        id: stored.id,
        owner: stored.owner,
        username,
        email,
        age,
        created_at: stored.created_at,
        updated_at: Some(now),
    }
}

} // verus!
