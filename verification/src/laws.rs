//! General properties of the library, stated once and proved: how the
//! operations' contracts compose across calls.

use vstd::prelude::*;
use crate::queries::{insert_desc, sort_desc, sorted_desc};
use crate::registry::{updated_contributor_v, updated_quote_v, Registry};
use crate::store::{
    kv_get, kv_insert, kv_remove, lemma_kv_insert_get, lemma_kv_remove_get,
    lemma_view_entries_sorted,
};
use crate::types::{ContributorV, QuoteV};

verus! {

/// Round trip: after a successful `add_contributor`, looking the minted
/// identifier up yields exactly the record the add returned — the payload
/// fields as given, the caller as owner.  The `requires` are what
/// `add_contributor` ensures of a success; `kv_get ... is Some` is what
/// `get_contributor` answers `Ok` from.
pub proof fn lemma_contributor_round_trip(
    pre: Registry,
    post: Registry,
    c: ContributorV,
    owner: Seq<u8>,
    username: Seq<char>,
    email: Seq<char>,
    age: u32,
    now: u64,
)
    requires
        c == pre.next_contributor_v(owner, username, email, age, now),
        post.contributors_v() == kv_insert(pre.contributors_v(), c.id, c),
    ensures
        kv_get(post.contributors_v(), c.id) == Some(c),
        c.owner == owner,
        c.username == username,
        c.email == email,
        c.age == age,
        c.created_at == now,
{
    lemma_kv_insert_get(pre.contributors_v(), c.id, c, c.id);
}

/// Round trip for quotes: after a successful `add_quote`, looking the
/// minted identifier up yields exactly the record the add returned.
pub proof fn lemma_quote_round_trip(
    pre: Registry,
    post: Registry,
    q: QuoteV,
    contributor_id: u64,
    author: Seq<char>,
    text: Seq<char>,
    category: Seq<char>,
    now: u64,
)
    requires
        q == pre.next_quote_v(contributor_id, author, text, category, now),
        post.quotes_v() == kv_insert(pre.quotes_v(), q.id, q),
    ensures
        kv_get(post.quotes_v(), q.id) == Some(q),
        q.contributor_id == contributor_id,
        q.author == author,
        q.text == text,
        q.category == category,
        q.created_at == now,
{
    lemma_kv_insert_get(pre.quotes_v(), q.id, q, q.id);
}

/// Delete is not idempotent: a successful `delete_contributor` returns
/// the removed record (its own contract), and afterwards the identifier
/// is gone — so a second delete of the same identifier answers
/// `NotFound`, whoever calls.
pub proof fn lemma_contributor_delete_gone(pre: Registry, post: Registry, id: u64)
    requires
        pre.wf(),
        post.contributors_v() == kv_remove(pre.contributors_v(), id),
    ensures
        kv_get(post.contributors_v(), id) is None,
{
    lemma_view_entries_sorted(pre.contributors@);
    lemma_kv_remove_get(pre.contributors_v(), id, id);
}

/// Delete is not idempotent, for quotes.
pub proof fn lemma_quote_delete_gone(pre: Registry, post: Registry, id: u64)
    requires
        pre.wf(),
        post.quotes_v() == kv_remove(pre.quotes_v(), id),
    ensures
        kv_get(post.quotes_v(), id) is None,
{
    lemma_view_entries_sorted(pre.quotes@);
    lemma_kv_remove_get(pre.quotes_v(), id, id);
}

/// A contributor update never changes the identifier, the owner or the
/// creation time, and always stamps the update time.
pub proof fn lemma_contributor_update_preserves_identity(
    stored: ContributorV,
    username: Seq<char>,
    email: Seq<char>,
    age: u32,
    now: u64,
)
    ensures
        ({
            let upd = updated_contributor_v(stored, username, email, age, now);
            &&& upd.id == stored.id
            &&& upd.owner == stored.owner
            &&& upd.created_at == stored.created_at
            &&& upd.updated_at == Some(now)
        }),
{
}

/// A quote update never changes the identifier or the creation time, and
/// always stamps the update time.
pub proof fn lemma_quote_update_preserves_identity(
    stored: QuoteV,
    contributor_id: u64,
    author: Seq<char>,
    text: Seq<char>,
    category: Seq<char>,
    now: u64,
)
    ensures
        ({
            let upd = updated_quote_v(stored, contributor_id, author, text, category, now);
            &&& upd.id == stored.id
            &&& upd.created_at == stored.created_at
            &&& upd.updated_at == Some(now)
        }),
{
}

/// Every creation time in `insert_desc(q, s)` stays within a bound that
/// held of `q` and of every record of `s`.
proof fn lemma_insert_desc_le(q: QuoteV, s: Seq<QuoteV>, b: u64)
    requires
        q.created_at <= b,
        forall|k: int| 0 <= k < s.len() ==> (#[trigger] s[k]).created_at <= b,
    ensures
        forall|i: int|
            0 <= i < insert_desc(q, s).len() ==> (#[trigger] insert_desc(q, s)[i]).created_at
                <= b,
    decreases s.len(),
{
    if s.len() == 0 {
    } else if q.created_at > s[0].created_at {
        let t = seq![q] + s;
        assert(forall|i: int| 0 < i < t.len() ==> t[i] == s[i - 1]);
    } else {
        assert(forall|k: int| 0 <= k < s.drop_first().len() ==> s.drop_first()[k] == s[k + 1]);
        lemma_insert_desc_le(q, s.drop_first(), b);
        let rest = insert_desc(q, s.drop_first());
        let t = seq![s[0]] + rest;
        assert(forall|i: int| 0 < i < t.len() ==> t[i] == rest[i - 1]);
    }
}

/// Inserting into a sequence sorted by creation time descending keeps it
/// sorted.
proof fn lemma_insert_desc_sorted(q: QuoteV, s: Seq<QuoteV>)
    requires
        sorted_desc(s),
    ensures
        sorted_desc(insert_desc(q, s)),
    decreases s.len(),
{
    if s.len() == 0 {
    } else if q.created_at > s[0].created_at {
        let t = seq![q] + s;
        assert forall|i: int, j: int|
            0 <= i < j < t.len() implies t[i].created_at >= t[j].created_at by {
            if i > 0 {
                assert(t[i] == s[i - 1]);
            }
            assert(t[j] == s[j - 1]);
        }
    } else {
        assert(forall|k: int| 0 <= k < s.drop_first().len() ==> s.drop_first()[k] == s[k + 1]);
        lemma_insert_desc_sorted(q, s.drop_first());
        lemma_insert_desc_le(q, s.drop_first(), s[0].created_at);
        let rest = insert_desc(q, s.drop_first());
        let t = seq![s[0]] + rest;
        assert forall|i: int, j: int|
            0 <= i < j < t.len() implies t[i].created_at >= t[j].created_at by {
            if i > 0 {
                assert(t[i] == rest[i - 1]);
            }
            assert(t[j] == rest[j - 1]);
        }
    }
}

/// Prepending one record inserts it into the sequence's multiset.
proof fn lemma_cons_multiset(q: QuoteV, s: Seq<QuoteV>)
    ensures
        (seq![q] + s).to_multiset() == s.to_multiset().insert(q),
{
    broadcast use vstd::seq_lib::group_to_multiset_ensures;

    let t = seq![q] + s;
    assert(t.remove(0) =~= s);
    assert(t[0] == q);
    assert(t.contains(q));
    assert(s.to_multiset() =~= t.to_multiset().remove(q));
    assert(t.to_multiset().count(q) > 0);
    assert(t.to_multiset() =~= s.to_multiset().insert(q));
}

/// `insert_desc` only reorders: the records are the records of the input
/// plus the inserted one.
proof fn lemma_insert_desc_multiset(q: QuoteV, s: Seq<QuoteV>)
    ensures
        insert_desc(q, s).to_multiset() == s.to_multiset().insert(q),
    decreases s.len(),
{
    if s.len() == 0 {
        lemma_cons_multiset(q, s);
        assert(seq![q] + s =~= insert_desc(q, s));
    } else if q.created_at > s[0].created_at {
        lemma_cons_multiset(q, s);
    } else {
        lemma_insert_desc_multiset(q, s.drop_first());
        let rest = insert_desc(q, s.drop_first());
        lemma_cons_multiset(s[0], rest);
        lemma_cons_multiset(s[0], s.drop_first());
        assert(seq![s[0]] + s.drop_first() =~= s);
        assert(insert_desc(q, s).to_multiset() == s.drop_first().to_multiset().insert(
            q,
        ).insert(s[0]));
        assert(s.to_multiset().insert(q) == s.drop_first().to_multiset().insert(s[0]).insert(
            q,
        ));
        assert(s.drop_first().to_multiset().insert(q).insert(s[0])
            =~= s.drop_first().to_multiset().insert(s[0]).insert(q));
    }
}

/// The recent-quotes view only reorders the collection: it holds exactly
/// the stored records, as a multiset.
pub proof fn lemma_sort_desc_permutes(s: Seq<QuoteV>)
    ensures
        sort_desc(s).to_multiset() == s.to_multiset(),
    decreases s.len(),
{
    broadcast use vstd::seq_lib::group_to_multiset_ensures;

    if s.len() > 0 {
        lemma_sort_desc_permutes(s.drop_last());
        lemma_insert_desc_multiset(s.last(), sort_desc(s.drop_last()));
        assert(s.drop_last().push(s.last()) =~= s);
        assert(s.drop_last().push(s.last()).to_multiset() =~= s.drop_last().to_multiset().insert(
            s.last(),
        ));
    }
}

/// The recent-quotes view of any collection is sorted by creation time
/// descending; truncating it keeps that.  With the length bound in
/// `get_recent_quotes`'s own contract: at most `RECENT_LIMIT` records,
/// most recent first.
pub proof fn lemma_sort_desc_sorted(s: Seq<QuoteV>)
    ensures
        sorted_desc(sort_desc(s)),
    decreases s.len(),
{
    if s.len() > 0 {
        lemma_sort_desc_sorted(s.drop_last());
        lemma_insert_desc_sorted(s.last(), sort_desc(s.drop_last()));
    }
}

/// A prefix of a sequence sorted by creation time descending is sorted.
pub proof fn lemma_sorted_desc_take(s: Seq<QuoteV>, k: int)
    requires
        sorted_desc(s),
        0 <= k <= s.len(),
    ensures
        sorted_desc(s.take(k)),
{
    assert forall|i: int, j: int|
        0 <= i < j < s.take(k).len() implies s.take(k)[i].created_at >= s.take(
        k,
    )[j].created_at by {
        assert(s.take(k)[i] == s[i]);
        assert(s.take(k)[j] == s[j]);
    }
}

} // verus!
