use wisewords::registry::Registry;
use wisewords::types::{
    Contributor, ContributorPayload, Error, Principal, Quote, QuotePayload, Target,
};

fn principal(tag: u8) -> Principal {
    Principal::new(vec![tag, tag, tag])
}

fn contributor_payload(username: &str, email: &str, age: u32) -> ContributorPayload {
    ContributorPayload { username: username.to_string(), email: email.to_string(), age }
}

fn quote_payload(contributor_id: u64, author: &str, text: &str, category: &str) -> QuotePayload {
    QuotePayload {
        contributor_id,
        author: author.to_string(),
        text: text.to_string(),
        category: category.to_string(),
    }
}

fn add_ok(reg: &mut Registry, caller: &Principal, now: u64, p: ContributorPayload) -> Contributor {
    match reg.add_contributor(caller, now, p) {
        Ok(c) => c,
        Err(_) => panic!("expected a contributor"),
    }
}

fn add_quote_ok(reg: &mut Registry, caller: &Principal, now: u64, p: QuotePayload) -> Quote {
    match reg.add_quote(caller, now, p) {
        Ok(q) => q,
        Err(_) => panic!("expected a quote"),
    }
}

#[test]
fn minted_ids_increase_and_are_never_reused() {
    let mut reg = Registry::new();
    let owner = principal(1);
    let a = add_ok(&mut reg, &owner, 10, contributor_payload("ada", "ada@x.io", 30));
    let b = add_ok(&mut reg, &owner, 11, contributor_payload("bob", "bob@x.io", 44));
    assert_eq!(a.id, 1);
    assert_eq!(b.id, 2);
    assert!(reg.delete_contributor(&owner, 2).is_ok());
    let c = add_ok(&mut reg, &owner, 12, contributor_payload("eve", "eve@x.io", 25));
    assert_eq!(c.id, 3);
}

#[test]
fn add_then_get_round_trips_the_payload() {
    let mut reg = Registry::new();
    let owner = principal(7);
    let added = add_ok(&mut reg, &owner, 99, contributor_payload("ada", "ada@x.io", 30));
    let got = match reg.get_contributor(added.id) {
        Ok(c) => c,
        Err(_) => panic!("stored contributor must be found"),
    };
    assert_eq!(got.id, added.id);
    assert_eq!(got.username, "ada");
    assert_eq!(got.email, "ada@x.io");
    assert_eq!(got.age, 30);
    assert_eq!(got.created_at, 99);
    assert_eq!(got.updated_at, None);
    assert_eq!(got.owner.bytes, owner.bytes);
}

#[test]
fn add_quote_then_get_round_trips_the_payload() {
    let mut reg = Registry::new();
    let owner = principal(7);
    add_ok(&mut reg, &owner, 1, contributor_payload("ada", "ada@x.io", 30));
    let added = add_quote_ok(&mut reg, &owner, 5, quote_payload(1, "Ada", "Think.", "Wisdom"));
    let got = match reg.get_quote(added.id) {
        Ok(q) => q,
        Err(_) => panic!("stored quote must be found"),
    };
    assert_eq!(got.id, added.id);
    assert_eq!(got.contributor_id, 1);
    assert_eq!(got.author, "Ada");
    assert_eq!(got.text, "Think.");
    assert_eq!(got.category, "Wisdom");
    assert_eq!(got.created_at, 5);
    assert_eq!(got.updated_at, None);
}

#[test]
fn deleting_twice_yields_the_record_then_not_found() {
    let mut reg = Registry::new();
    let owner = principal(3);
    let c = add_ok(&mut reg, &owner, 1, contributor_payload("ada", "ada@x.io", 30));
    let removed = match reg.delete_contributor(&owner, c.id) {
        Ok(r) => r,
        Err(_) => panic!("first delete must return the record"),
    };
    assert_eq!(removed.username, "ada");
    match reg.delete_contributor(&owner, c.id) {
        Err(Error::NotFound { target }) => {
            assert_eq!(target, Target::Contributor { id: c.id });
        }
        _ => panic!("second delete must be NotFound"),
    }
}

#[test]
fn deleting_a_quote_twice_yields_the_record_then_not_found() {
    let mut reg = Registry::new();
    let owner = principal(3);
    add_ok(&mut reg, &owner, 1, contributor_payload("ada", "ada@x.io", 30));
    let q = add_quote_ok(&mut reg, &owner, 2, quote_payload(1, "Ada", "Think.", "Wisdom"));
    assert!(reg.delete_quote(&owner, q.id).is_ok());
    match reg.delete_quote(&owner, q.id) {
        Err(Error::NotFound { target }) => {
            assert_eq!(target, Target::Quote { id: q.id });
        }
        _ => panic!("second delete must be NotFound"),
    }
}

#[test]
fn update_preserves_id_owner_and_created_at_and_stamps_updated_at() {
    let mut reg = Registry::new();
    let owner = principal(9);
    let c = add_ok(&mut reg, &owner, 50, contributor_payload("ada", "ada@x.io", 30));
    let updated = match reg.update_contributor(
        &owner,
        60,
        c.id,
        contributor_payload("adalovelace", "ada@lovelace.io", 31),
    ) {
        Ok(u) => u,
        Err(_) => panic!("owner update must succeed"),
    };
    assert_eq!(updated.id, c.id);
    assert_eq!(updated.owner.bytes, owner.bytes);
    assert_eq!(updated.created_at, 50);
    assert_eq!(updated.updated_at, Some(60));
    assert_eq!(updated.username, "adalovelace");
    assert_eq!(updated.email, "ada@lovelace.io");
    assert_eq!(updated.age, 31);
}

#[test]
fn quote_update_preserves_id_and_created_at_and_stamps_updated_at() {
    let mut reg = Registry::new();
    let owner = principal(9);
    add_ok(&mut reg, &owner, 1, contributor_payload("ada", "ada@x.io", 30));
    let q = add_quote_ok(&mut reg, &owner, 40, quote_payload(1, "Ada", "Think.", "Wisdom"));
    let updated = match reg.update_quote(
        &owner,
        41,
        q.id,
        quote_payload(1, "Ada L.", "Think twice.", "Wisdom"),
    ) {
        Ok(u) => u,
        Err(_) => panic!("owner update must succeed"),
    };
    assert_eq!(updated.id, q.id);
    assert_eq!(updated.created_at, 40);
    assert_eq!(updated.updated_at, Some(41));
    assert_eq!(updated.text, "Think twice.");
}

#[test]
fn update_by_non_owner_fails_and_leaves_the_store_unchanged() {
    let mut reg = Registry::new();
    let owner = principal(1);
    let intruder = principal(2);
    let c = add_ok(&mut reg, &owner, 5, contributor_payload("ada", "ada@x.io", 30));
    match reg.update_contributor(
        &intruder,
        6,
        c.id,
        contributor_payload("mallory", "m@x.io", 33),
    ) {
        Err(Error::AuthenticationFailed { caller, contributor_id }) => {
            assert_eq!(caller.bytes, intruder.bytes);
            assert_eq!(contributor_id, c.id);
        }
        _ => panic!("non-owner update must be AuthenticationFailed"),
    }
    let unchanged = match reg.get_contributor(c.id) {
        Ok(r) => r,
        Err(_) => panic!("record must still be there"),
    };
    assert_eq!(unchanged.username, "ada");
    assert_eq!(unchanged.updated_at, None);
}

#[test]
fn delete_by_non_owner_fails_and_leaves_the_store_unchanged() {
    let mut reg = Registry::new();
    let owner = principal(1);
    let intruder = principal(2);
    let c = add_ok(&mut reg, &owner, 5, contributor_payload("ada", "ada@x.io", 30));
    match reg.delete_contributor(&intruder, c.id) {
        Err(Error::AuthenticationFailed { caller, contributor_id }) => {
            assert_eq!(caller.bytes, intruder.bytes);
            assert_eq!(contributor_id, c.id);
        }
        _ => panic!("non-owner delete must be AuthenticationFailed"),
    }
    assert!(reg.get_contributor(c.id).is_ok());
}

#[test]
fn quote_mutation_by_non_owner_fails_through_the_referenced_contributor() {
    let mut reg = Registry::new();
    let owner = principal(1);
    let intruder = principal(2);
    add_ok(&mut reg, &owner, 1, contributor_payload("ada", "ada@x.io", 30));
    let q = add_quote_ok(&mut reg, &owner, 2, quote_payload(1, "Ada", "Think.", "Wisdom"));
    match reg.update_quote(&intruder, 3, q.id, quote_payload(1, "X", "New text.", "Wisdom")) {
        Err(Error::AuthenticationFailed { caller, contributor_id }) => {
            assert_eq!(caller.bytes, intruder.bytes);
            assert_eq!(contributor_id, 1);
        }
        _ => panic!("non-owner quote update must be AuthenticationFailed"),
    }
    match reg.delete_quote(&intruder, q.id) {
        Err(Error::AuthenticationFailed { .. }) => {}
        _ => panic!("non-owner quote delete must be AuthenticationFailed"),
    }
    let unchanged = match reg.get_quote(q.id) {
        Ok(r) => r,
        Err(_) => panic!("quote must still be there"),
    };
    assert_eq!(unchanged.text, "Think.");
}

#[test]
fn looking_up_a_missing_record_is_not_found() {
    let reg = Registry::new();
    match reg.get_contributor(5) {
        Err(Error::NotFound { target }) => assert_eq!(target, Target::Contributor { id: 5 }),
        _ => panic!("a missing contributor must be NotFound"),
    }
    match reg.get_quote(9) {
        Err(Error::NotFound { target }) => assert_eq!(target, Target::Quote { id: 9 }),
        _ => panic!("a missing quote must be NotFound"),
    }
}

#[test]
fn quote_update_may_repoint_to_an_existing_contributor() {
    let mut reg = Registry::new();
    let ada = principal(1);
    let bob = principal(2);
    add_ok(&mut reg, &ada, 1, contributor_payload("ada", "ada@x.io", 30));
    add_ok(&mut reg, &bob, 2, contributor_payload("bob", "bob@x.io", 41));
    let q = add_quote_ok(&mut reg, &ada, 3, quote_payload(1, "Ada", "Think.", "Wisdom"));
    // a new reference that resolves to nothing is NotFound
    match reg.update_quote(&ada, 4, q.id, quote_payload(77, "Ada", "Think.", "Wisdom")) {
        Err(Error::NotFound { target }) => {
            assert_eq!(target, Target::Contributor { id: 77 });
        }
        _ => panic!("a dangling new reference must be NotFound"),
    }
    // authorization is rooted at the contributor the quote referenced
    // before the update, so its owner may repoint the quote
    let updated = match reg.update_quote(&ada, 5, q.id, quote_payload(2, "Ada", "Think.", "Wisdom"))
    {
        Ok(u) => u,
        Err(_) => panic!("the origin owner may repoint the quote"),
    };
    assert_eq!(updated.contributor_id, 2);
    // after the repoint the authorization root is bob's contributor
    match reg.update_quote(&ada, 6, q.id, quote_payload(2, "Ada", "Mine?", "Wisdom")) {
        Err(Error::AuthenticationFailed { contributor_id, .. }) => {
            assert_eq!(contributor_id, 2);
        }
        _ => panic!("the old owner lost the authorization root"),
    }
}

#[test]
fn an_orphaned_quote_cannot_be_mutated() {
    let mut reg = Registry::new();
    let ada = principal(1);
    add_ok(&mut reg, &ada, 1, contributor_payload("ada", "ada@x.io", 30));
    let q = add_quote_ok(&mut reg, &ada, 2, quote_payload(1, "Ada", "Think.", "Wisdom"));
    assert!(reg.delete_contributor(&ada, 1).is_ok());
    // the quote is still readable (no cascading delete) ...
    assert!(reg.get_quote(q.id).is_ok());
    // ... but its authorization root is gone
    match reg.delete_quote(&ada, q.id) {
        Err(Error::NotFound { target }) => {
            assert_eq!(target, Target::Contributor { id: 1 });
        }
        _ => panic!("a missing referenced contributor is NotFound"),
    }
    match reg.update_quote(&ada, 3, q.id, quote_payload(1, "Ada", "Still here.", "Wisdom")) {
        Err(Error::NotFound { target }) => {
            assert_eq!(target, Target::Contributor { id: 1 });
        }
        _ => panic!("a missing referenced contributor is NotFound"),
    }
}

#[test]
fn adding_a_quote_requires_owning_the_referenced_contributor() {
    let mut reg = Registry::new();
    let owner = principal(1);
    let other = principal(2);
    add_ok(&mut reg, &owner, 1, contributor_payload("ada", "ada@x.io", 30));
    match reg.add_quote(&other, 2, quote_payload(1, "Eve", "Hi.", "Misc")) {
        Err(Error::AuthenticationFailed { caller, contributor_id }) => {
            assert_eq!(caller.bytes, other.bytes);
            assert_eq!(contributor_id, 1);
        }
        _ => panic!("submitter must own the referenced contributor"),
    }
    match reg.add_quote(&owner, 2, quote_payload(42, "Ada", "Hi.", "Misc")) {
        Err(Error::NotFound { target }) => {
            assert_eq!(target, Target::Contributor { id: 42 });
        }
        _ => panic!("a missing referenced contributor is NotFound"),
    }
}
