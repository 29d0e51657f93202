use wisewords::registry::Registry;
use wisewords::types::{
    Contributor, ContributorPayload, Error, Principal, Quote, QuotePayload, Target,
    ValidationIssue,
};

fn principal(tag: u8) -> Principal {
    Principal::new(vec![tag])
}

fn contributor_payload(username: &str, email: &str, age: u32) -> ContributorPayload {
    ContributorPayload { username: username.to_string(), email: email.to_string(), age }
}

fn quote_payload(contributor_id: u64, author: &str, text: &str, category: &str) -> QuotePayload {
    QuotePayload {
        contributor_id,
        author: author.to_string(),
        text: text.to_string(),
        category: category.to_string(),
    }
}

fn seeded(owner: &Principal, timestamps: &[u64]) -> Registry {
    let mut reg = Registry::new();
    reg.add_contributor(owner, 1, contributor_payload("ada", "ada@x.io", 30))
        .ok()
        .expect("seed contributor");
    for (i, t) in timestamps.iter().enumerate() {
        let p = quote_payload(1, "Ada", &format!("Quote number {i}."), "Wisdom");
        reg.add_quote(owner, *t, p).ok().expect("seed quote");
    }
    reg
}

#[test]
fn recent_quotes_returns_the_five_most_recent_in_descending_order() {
    let owner = principal(1);
    let reg = seeded(&owner, &[5, 3, 9, 1, 7, 2]);
    let recent: Vec<Quote> = match reg.get_recent_quotes() {
        Ok(v) => v,
        Err(_) => panic!("collection is not empty"),
    };
    let times: Vec<u64> = recent.iter().map(|q| q.created_at).collect();
    assert_eq!(times, vec![9, 7, 5, 3, 2]);
}

#[test]
fn recent_quotes_returns_fewer_when_fewer_exist() {
    let owner = principal(1);
    let reg = seeded(&owner, &[4, 8]);
    let recent = match reg.get_recent_quotes() {
        Ok(v) => v,
        Err(_) => panic!("collection is not empty"),
    };
    let times: Vec<u64> = recent.iter().map(|q| q.created_at).collect();
    assert_eq!(times, vec![8, 4]);
}

#[test]
fn category_filter_is_case_insensitive() {
    let owner = principal(1);
    let mut reg = Registry::new();
    reg.add_contributor(&owner, 1, contributor_payload("ada", "ada@x.io", 30))
        .ok()
        .expect("seed contributor");
    reg.add_quote(&owner, 2, quote_payload(1, "Seneca", "Luck.", "stoicism"))
        .ok()
        .expect("seed quote");
    reg.add_quote(&owner, 3, quote_payload(1, "Ada", "Think.", "Wisdom"))
        .ok()
        .expect("seed quote");
    let matched = match reg.get_quotes_by_category("Stoicism".to_string()) {
        Ok(v) => v,
        Err(_) => panic!("the lowercased categories must match"),
    };
    assert_eq!(matched.len(), 1);
    assert_eq!(matched[0].author, "Seneca");
    match reg.get_quotes_by_category("ethics".to_string()) {
        Err(Error::NotFound { target }) => assert_eq!(target, Target::Quotes),
        _ => panic!("no quote of that category"),
    }
}

#[test]
fn listing_an_empty_collection_is_not_found_not_an_empty_list() {
    let reg = Registry::new();
    match reg.get_all_contributors() {
        Err(Error::NotFound { target }) => assert_eq!(target, Target::Contributors),
        _ => panic!("empty contributor listing must be NotFound"),
    }
    match reg.get_all_quotes() {
        Err(Error::NotFound { target }) => assert_eq!(target, Target::Quotes),
        _ => panic!("empty quote listing must be NotFound"),
    }
    match reg.get_recent_quotes() {
        Err(Error::NotFound { target }) => assert_eq!(target, Target::Quotes),
        _ => panic!("empty recent listing must be NotFound"),
    }
}

#[test]
fn listing_returns_every_record_in_key_order() {
    let owner = principal(1);
    let mut reg = Registry::new();
    reg.add_contributor(&owner, 1, contributor_payload("ada", "ada@x.io", 30))
        .ok()
        .expect("seed");
    reg.add_contributor(&owner, 2, contributor_payload("bob", "bob@x.io", 41))
        .ok()
        .expect("seed");
    let all: Vec<Contributor> = match reg.get_all_contributors() {
        Ok(v) => v,
        Err(_) => panic!("collection is not empty"),
    };
    assert_eq!(all.len(), 2);
    assert_eq!(all[0].username, "ada");
    assert_eq!(all[1].username, "bob");
}

#[test]
fn contributor_validation_reports_each_failed_constraint() {
    let mut reg = Registry::new();
    let owner = principal(1);
    match reg.add_contributor(&owner, 1, contributor_payload("ab", "", 17)) {
        Err(Error::ValidationFailed { issues }) => {
            assert_eq!(
                issues,
                vec![
                    ValidationIssue::UsernameTooShort,
                    ValidationIssue::EmailEmpty,
                    ValidationIssue::AgeBelowMinimum,
                ]
            );
        }
        _ => panic!("invalid payload must be rejected"),
    }
    match reg.add_contributor(&owner, 1, contributor_payload("ada", "ada@x.io", 17)) {
        Err(Error::ValidationFailed { issues }) => {
            assert_eq!(issues, vec![ValidationIssue::AgeBelowMinimum]);
        }
        _ => panic!("a minor must be rejected"),
    }
    assert!(reg.get_all_contributors().is_err());
}

#[test]
fn quote_validation_reports_each_failed_constraint() {
    let mut reg = Registry::new();
    let owner = principal(1);
    reg.add_contributor(&owner, 1, contributor_payload("ada", "ada@x.io", 30))
        .ok()
        .expect("seed");
    match reg.add_quote(&owner, 2, quote_payload(1, "Ada", "", "ab")) {
        Err(Error::ValidationFailed { issues }) => {
            assert_eq!(
                issues,
                vec![ValidationIssue::TextEmpty, ValidationIssue::CategoryTooShort]
            );
        }
        _ => panic!("invalid payload must be rejected"),
    }
    match reg.update_quote(&owner, 3, 1, quote_payload(1, "Ada", "Fine.", "x")) {
        Err(Error::ValidationFailed { issues }) => {
            assert_eq!(issues, vec![ValidationIssue::CategoryTooShort]);
        }
        _ => panic!("invalid update payload must be rejected"),
    }
}

#[test]
fn an_oversized_record_is_rejected_before_storage() {
    let mut reg = Registry::new();
    let owner = principal(1);
    let long_name = "x".repeat(5000);
    match reg.add_contributor(&owner, 1, contributor_payload(&long_name, "a@x.io", 30)) {
        Err(Error::ValidationFailed { issues }) => {
            assert_eq!(issues, vec![ValidationIssue::RecordTooLarge]);
        }
        _ => panic!("an oversized record must be rejected"),
    }
    assert!(reg.get_contributor(1).is_err());
    reg.add_contributor(&owner, 1, contributor_payload("ada", "ada@x.io", 30))
        .ok()
        .expect("a small record fits");
    let long_text = "y".repeat(5000);
    match reg.add_quote(&owner, 2, quote_payload(1, "Ada", &long_text, "Wisdom")) {
        Err(Error::ValidationFailed { issues }) => {
            assert_eq!(issues, vec![ValidationIssue::RecordTooLarge]);
        }
        _ => panic!("an oversized quote must be rejected"),
    }
    match reg.update_contributor(&owner, 3, 1, contributor_payload(&long_name, "a@x.io", 30)) {
        Err(Error::ValidationFailed { issues }) => {
            assert_eq!(issues, vec![ValidationIssue::RecordTooLarge]);
        }
        _ => panic!("an oversized update must be rejected"),
    }
}

#[test]
fn end_to_end_add_add_quote_and_foreign_update() {
    let ada = principal(10);
    let other = principal(11);
    let mut reg = Registry::new();
    let c = match reg.add_contributor(&ada, 1, contributor_payload("ada", "ada@x.io", 30)) {
        Ok(c) => c,
        Err(_) => panic!("valid contributor"),
    };
    assert_eq!(c.id, 1);
    let q = match reg.add_quote(&ada, 2, quote_payload(1, "Ada", "Think.", "Wisdom")) {
        Ok(q) => q,
        Err(_) => panic!("valid quote by the owner"),
    };
    assert_eq!(q.id, 1);
    match reg.update_quote(&other, 3, 1, quote_payload(1, "Ada", "Changed.", "Wisdom")) {
        Err(Error::AuthenticationFailed { .. }) => {}
        _ => panic!("a different caller must get AuthenticationFailed"),
    }
}

#[test]
fn helper_lookups_and_raw_insert_behave_as_the_store() {
    let owner = principal(1);
    let mut reg = Registry::new();
    assert!(reg._get_contributor(1).is_none());
    assert!(reg._get_quote(1).is_none());
    reg.add_contributor(&owner, 1, contributor_payload("ada", "ada@x.io", 30))
        .ok()
        .expect("seed");
    let mut c = reg._get_contributor(1).expect("present");
    c.email = "new@x.io".to_string();
    reg.do_insert_contributor(&c);
    assert_eq!(reg._get_contributor(1).expect("present").email, "new@x.io");
    reg.add_quote(&owner, 2, quote_payload(1, "Ada", "Think.", "Wisdom"))
        .ok()
        .expect("seed");
    let mut q = reg._get_quote(1).expect("present");
    q.text = "Reconsidered.".to_string();
    reg.do_insert_quote(&q);
    assert_eq!(reg._get_quote(1).expect("present").text, "Reconsidered.");
}
