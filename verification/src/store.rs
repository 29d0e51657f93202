//! An ordered key-value store: records keyed by `u64`, kept sorted by key.
//!
//! The entity collections live in a `StoreMap`, which supports
//! insert-or-replace, point lookup, full scan in key order, and
//! delete-by-key.  Its contents are specified by the recursive functions
//! `kv_get`, `kv_insert` and `kv_remove` over the sequence of entries.

use vstd::prelude::*;

verus! {

/// Point lookup in an association sequence: the first entry with key `id`.
pub open spec fn kv_get<R>(s: Seq<(u64, R)>, id: u64) -> Option<R>
    decreases s.len(),
{
    if s.len() == 0 {
        None
    } else if s[0].0 == id {
        Some(s[0].1)
    } else {
        kv_get(s.drop_first(), id)
    }
}

/// Insert-or-replace in a key-sorted association sequence, keeping the order.
pub open spec fn kv_insert<R>(s: Seq<(u64, R)>, id: u64, v: R) -> Seq<(u64, R)>
    decreases s.len(),
{
    if s.len() == 0 {
        seq![(id, v)]
    } else if id < s[0].0 {
        seq![(id, v)] + s
    } else if id == s[0].0 {
        seq![(id, v)] + s.drop_first()
    } else {
        seq![s[0]] + kv_insert(s.drop_first(), id, v)
    }
}

/// Removal of the entry with key `id`, if any, from an association sequence.
pub open spec fn kv_remove<R>(s: Seq<(u64, R)>, id: u64) -> Seq<(u64, R)>
    decreases s.len(),
{
    if s.len() == 0 {
        s
    } else if s[0].0 == id {
        s.drop_first()
    } else {
        seq![s[0]] + kv_remove(s.drop_first(), id)
    }
}

/// Keys appear in strictly increasing order (hence each key is unique).
pub open spec fn keys_sorted<R>(s: Seq<(u64, R)>) -> bool {
    forall|i: int, j: int| 0 <= i < j < s.len() ==> s[i].0 < s[j].0
}

/// `kv_insert` binds `id` to `v` and leaves every other key unchanged.
pub proof fn lemma_kv_insert_get<R>(s: Seq<(u64, R)>, id: u64, v: R, k: u64)
    ensures
        kv_get(kv_insert(s, id, v), k) == if k == id {
            Some(v)
        } else {
            kv_get(s, k)
        },
    decreases s.len(),
{
    if s.len() == 0 {
        let t = seq![(id, v)];
        assert(kv_insert(s, id, v) == t);
        assert(t[0].0 == id);
        if k == id {
            assert(kv_get(t, k) == Some(v));
        } else {
            assert(t.drop_first().len() == 0);
            assert(kv_get(t, k) is None);
        }
    } else if id < s[0].0 {
        let t = seq![(id, v)] + s;
        assert(kv_insert(s, id, v) == t);
        assert(t.drop_first() =~= s);
        assert(t[0] == (id, v));
        if k == id {
            assert(kv_get(t, k) == Some(v));
        } else {
            assert(kv_get(t, k) == kv_get(s, k));
        }
    } else if id == s[0].0 {
        let t = seq![(id, v)] + s.drop_first();
        assert(kv_insert(s, id, v) == t);
        assert(t.drop_first() =~= s.drop_first());
        assert(t[0] == (id, v));
        if k == id {
            assert(kv_get(t, k) == Some(v));
        } else {
            assert(kv_get(s, k) == kv_get(s.drop_first(), k));
            assert(kv_get(t, k) == kv_get(s.drop_first(), k));
        }
    } else {
        let t = seq![s[0]] + kv_insert(s.drop_first(), id, v);
        assert(kv_insert(s, id, v) == t);
        assert(t.drop_first() =~= kv_insert(s.drop_first(), id, v));
        assert(t[0] == s[0]);
        lemma_kv_insert_get(s.drop_first(), id, v, k);
        if k == s[0].0 {
            assert(kv_get(t, k) == Some(s[0].1));
            assert(kv_get(s, k) == Some(s[0].1));
        } else {
            assert(kv_get(t, k) == kv_get(kv_insert(s.drop_first(), id, v), k));
        }
    }
}

/// `kv_insert` keeps the keys strictly sorted, and adds `id` exactly when
/// it was absent.
pub proof fn lemma_kv_insert_sorted<R>(s: Seq<(u64, R)>, id: u64, v: R)
    requires
        keys_sorted(s),
    ensures
        keys_sorted(kv_insert(s, id, v)),
        kv_insert(s, id, v).len() == if kv_get(s, id) is Some {
            s.len()
        } else {
            s.len() + 1
        },
    decreases s.len(),
{
    if s.len() == 0 {
    } else if id < s[0].0 {
        assert(forall|i: int| 0 <= i < s.len() ==> id < s[i].0);
        lemma_sorted_get_absent(s, id);
        let t = seq![(id, v)] + s;
        assert forall|i: int, j: int| 0 <= i < j < t.len() implies t[i].0 < t[j].0 by {
            if i > 0 {
                assert(t[i] == s[i - 1]);
                assert(t[j] == s[j - 1]);
            }
            if i == 0 && j > 0 {
                assert(t[j] == s[j - 1]);
            }
        }
    } else if id == s[0].0 {
    } else {
        assert(keys_sorted(s.drop_first())) by {
            assert forall|i: int, j: int|
                0 <= i < j < s.drop_first().len() implies s.drop_first()[i].0
                < s.drop_first()[j].0 by {
                assert(s.drop_first()[i] == s[i + 1]);
                assert(s.drop_first()[j] == s[j + 1]);
            }
        }
        lemma_kv_insert_sorted(s.drop_first(), id, v);
        assert(kv_get(s, id) == kv_get(s.drop_first(), id));
        let rest = kv_insert(s.drop_first(), id, v);
        let t = seq![s[0]] + rest;
        assert(forall|m: int| 0 <= m < s.drop_first().len() ==> s.drop_first()[m] == s[m + 1]);
        // every key of `rest` is a key of `s.drop_first()` or `id`, and both
        // are greater than `s[0].0`
        lemma_kv_insert_keys_ge(s.drop_first(), id, v, s[0].0);
        assert forall|i: int, j: int| 0 <= i < j < t.len() implies t[i].0 < t[j].0 by {
            if i > 0 {
                assert(t[i] == rest[i - 1]);
            }
            assert(t[j] == rest[j - 1]);
        }
    }
}

/// If every key of `s` is above `b` and `id` is above `b`, every key of
/// `kv_insert(s, id, v)` is above `b`.
proof fn lemma_kv_insert_keys_ge<R>(s: Seq<(u64, R)>, id: u64, v: R, b: u64)
    requires
        forall|i: int| 0 <= i < s.len() ==> b < s[i].0,
        b < id,
    ensures
        forall|i: int| 0 <= i < kv_insert(s, id, v).len() ==> b < kv_insert(s, id, v)[i].0,
    decreases s.len(),
{
    if s.len() == 0 {
    } else if id < s[0].0 {
        let t = seq![(id, v)] + s;
        assert forall|i: int| 0 <= i < t.len() implies b < t[i].0 by {
            if i > 0 {
                assert(t[i] == s[i - 1]);
            }
        }
    } else if id == s[0].0 {
        let t = seq![(id, v)] + s.drop_first();
        assert forall|i: int| 0 <= i < t.len() implies b < t[i].0 by {
            if i > 0 {
                assert(t[i] == s[i]);
            }
        }
    } else {
        assert(forall|i: int| 0 <= i < s.drop_first().len() ==> b < s.drop_first()[i].0) by {
            assert(forall|i: int|
                0 <= i < s.drop_first().len() ==> s.drop_first()[i] == s[i + 1]);
        }
        lemma_kv_insert_keys_ge(s.drop_first(), id, v, b);
        let rest = kv_insert(s.drop_first(), id, v);
        let t = seq![s[0]] + rest;
        assert(forall|i: int| 0 < i < t.len() ==> t[i] == rest[i - 1]);
    }
}

/// `kv_remove` drops `id` and leaves every other key unchanged.
pub proof fn lemma_kv_remove_get<R>(s: Seq<(u64, R)>, id: u64, k: u64)
    requires
        keys_sorted(s),
    ensures
        kv_get(kv_remove(s, id), k) == if k == id {
            None::<R>
        } else {
            kv_get(s, k)
        },
    decreases s.len(),
{
    lemma_sorted_drop_first(s);
    if s.len() == 0 {
    } else if s[0].0 == id {
        if k == id {
            lemma_sorted_first_key_absent_in_rest(s, k);
        }
    } else {
        lemma_kv_remove_get(s.drop_first(), id, k);
        let t = seq![s[0]] + kv_remove(s.drop_first(), id);
        assert(t.drop_first() =~= kv_remove(s.drop_first(), id));
    }
}

/// In a sorted sequence the first key does not occur again in the rest.
proof fn lemma_sorted_first_key_absent_in_rest<R>(s: Seq<(u64, R)>, k: u64)
    requires
        keys_sorted(s),
        s.len() > 0,
        s[0].0 == k,
    ensures
        kv_get(s.drop_first(), k) is None,
{
    lemma_sorted_drop_first(s);
    lemma_sorted_get_absent(s.drop_first(), k);
    assert(forall|i: int| 0 <= i < s.drop_first().len() ==> s.drop_first()[i] == s[i + 1]);
}

/// A key smaller than every key of a sorted sequence is absent.
proof fn lemma_sorted_get_absent<R>(s: Seq<(u64, R)>, k: u64)
    requires
        forall|i: int| 0 <= i < s.len() ==> k < s[i].0,
    ensures
        kv_get(s, k) is None,
    decreases s.len(),
{
    if s.len() > 0 {
        assert(forall|i: int| 0 <= i < s.drop_first().len() ==> s.drop_first()[i] == s[i + 1]);
        lemma_sorted_get_absent(s.drop_first(), k);
    }
}

/// Dropping the first entry of a sorted sequence keeps it sorted.
pub proof fn lemma_sorted_drop_first<R>(s: Seq<(u64, R)>)
    requires
        keys_sorted(s),
    ensures
        s.len() > 0 ==> keys_sorted(s.drop_first()),
{
    if s.len() > 0 {
        assert forall|i: int, j: int|
            0 <= i < j < s.drop_first().len() implies s.drop_first()[i].0
            < s.drop_first()[j].0 by {
            assert(s.drop_first()[i] == s[i + 1]);
            assert(s.drop_first()[j] == s[j + 1]);
        }
    }
}

/// `kv_remove` keeps the keys strictly sorted, and shortens the sequence
/// exactly when `id` was present.
pub proof fn lemma_kv_remove_sorted<R>(s: Seq<(u64, R)>, id: u64)
    requires
        keys_sorted(s),
    ensures
        keys_sorted(kv_remove(s, id)),
        kv_remove(s, id).len() == if kv_get(s, id) is Some {
            s.len() - 1
        } else {
            s.len() as int
        },
    decreases s.len(),
{
    lemma_sorted_drop_first(s);
    if s.len() == 0 {
    } else if s[0].0 == id {
    } else {
        lemma_kv_remove_sorted(s.drop_first(), id);
        let rest = kv_remove(s.drop_first(), id);
        let t = seq![s[0]] + rest;
        assert forall|i: int, j: int| 0 <= i < j < t.len() implies t[i].0 < t[j].0 by {
            lemma_kv_remove_keys_subset(s.drop_first(), id);
            if i > 0 {
                assert(t[i] == rest[i - 1]);
            }
            assert(t[j] == rest[j - 1]);
            assert(forall|m: int| 0 <= m < s.drop_first().len() ==> s[0].0 < s.drop_first()[m].0);
        }
    }
}

/// Every entry of `kv_remove(s, id)` is an entry of `s`.
pub proof fn lemma_kv_remove_keys_subset<R>(s: Seq<(u64, R)>, id: u64)
    ensures
        forall|i: int|
            0 <= i < kv_remove(s, id).len() ==> exists|j: int|
                0 <= j < s.len() && s[j] == #[trigger] kv_remove(s, id)[i],
    decreases s.len(),
{
    if s.len() == 0 {
    } else if s[0].0 == id {
        assert forall|i: int| 0 <= i < kv_remove(s, id).len() implies exists|j: int|
            0 <= j < s.len() && s[j] == #[trigger] kv_remove(s, id)[i] by {
            assert(s[i + 1] == kv_remove(s, id)[i]);
        }
    } else {
        lemma_kv_remove_keys_subset(s.drop_first(), id);
        let rest = kv_remove(s.drop_first(), id);
        let t = seq![s[0]] + rest;
        assert forall|i: int| 0 <= i < t.len() implies exists|j: int|
            0 <= j < s.len() && s[j] == #[trigger] t[i] by {
            if i == 0 {
                assert(s[0] == t[0]);
            } else {
                assert(t[i] == rest[i - 1]);
                let j = choose|j: int|
                    0 <= j < s.drop_first().len() && s.drop_first()[j] == rest[i - 1];
                assert(s[j + 1] == rest[i - 1]);
            }
        }
    }
}

/// A property of every entry of `s` that also holds of `(id, v)` holds of
/// every entry of `kv_insert(s, id, v)`.
pub proof fn lemma_kv_insert_all<R>(s: Seq<(u64, R)>, id: u64, v: R, p: spec_fn((u64, R)) -> bool)
    requires
        forall|i: int| 0 <= i < s.len() ==> p(#[trigger] s[i]),
        p((id, v)),
    ensures
        forall|i: int| 0 <= i < kv_insert(s, id, v).len() ==> p(#[trigger] kv_insert(s, id, v)[i]),
    decreases s.len(),
{
    if s.len() == 0 {
    } else if id < s[0].0 {
        let t = seq![(id, v)] + s;
        assert(forall|i: int| 0 < i < t.len() ==> t[i] == s[i - 1]);
    } else if id == s[0].0 {
        let t = seq![(id, v)] + s.drop_first();
        assert(forall|i: int| 0 < i < t.len() ==> t[i] == s[i]);
    } else {
        assert(forall|i: int| 0 <= i < s.drop_first().len() ==> s.drop_first()[i] == s[i + 1]);
        lemma_kv_insert_all(s.drop_first(), id, v, p);
        let rest = kv_insert(s.drop_first(), id, v);
        let t = seq![s[0]] + rest;
        assert(forall|i: int| 0 < i < t.len() ==> t[i] == rest[i - 1]);
    }
}

/// A successful lookup returns the record of an entry whose key is `id`.
pub proof fn lemma_kv_get_present<R>(s: Seq<(u64, R)>, id: u64)
    requires
        kv_get(s, id) is Some,
    ensures
        exists|j: int| 0 <= j < s.len() && s[j] == (id, kv_get(s, id)->Some_0),
    decreases s.len(),
{
    if s.len() > 0 {
        if s[0].0 == id {
            assert(s[0] == (id, kv_get(s, id)->Some_0));
        } else {
            lemma_kv_get_present(s.drop_first(), id);
            let j = choose|j: int|
                0 <= j < s.drop_first().len() && s.drop_first()[j] == (
                    id,
                    kv_get(s.drop_first(), id)->Some_0,
                );
            assert(s[j + 1] == (id, kv_get(s, id)->Some_0));
        }
    }
}

/// The entries with each record replaced by its mathematical view.
pub open spec fn view_entries<R: View>(s: Seq<(u64, R)>) -> Seq<(u64, R::V)> {
    s.map_values(|e: (u64, R)| (e.0, e.1@))
}

/// Taking views of the records keeps the keys, hence their order.
pub proof fn lemma_view_entries_sorted<R: View>(s: Seq<(u64, R)>)
    requires
        keys_sorted(s),
    ensures
        keys_sorted(view_entries(s)),
{
    let sv = view_entries(s);
    assert forall|i: int, j: int| 0 <= i < j < sv.len() implies sv[i].0 < sv[j].0 by {
        assert(sv[i] == (s[i].0, s[i].1@));
        assert(sv[j] == (s[j].0, s[j].1@));
    }
}

/// Lookup commutes with taking views of the records.
pub proof fn lemma_view_entries_get<R: View>(s: Seq<(u64, R)>, id: u64)
    ensures
        kv_get(view_entries(s), id) == match kv_get(s, id) {
            Some(r) => Some(r@),
            None => None::<R::V>,
        },
    decreases s.len(),
{
    let sv = view_entries(s);
    if s.len() == 0 {
    } else {
        assert(sv[0] == (s[0].0, s[0].1@));
        if s[0].0 != id {
            lemma_view_entries_get(s.drop_first(), id);
            assert(sv.drop_first() =~= view_entries(s.drop_first()));
        }
    }
}

/// Insertion commutes with taking views of the records.
pub proof fn lemma_view_entries_insert<R: View>(s: Seq<(u64, R)>, id: u64, v: R)
    ensures
        view_entries(kv_insert(s, id, v)) == kv_insert(view_entries(s), id, v@),
    decreases s.len(),
{
    let sv = view_entries(s);
    if s.len() == 0 {
        assert(view_entries(kv_insert(s, id, v)) =~= kv_insert(sv, id, v@));
    } else {
        assert(sv[0] == (s[0].0, s[0].1@));
        if id < s[0].0 {
            assert(view_entries(seq![(id, v)] + s) =~= seq![(id, v@)] + sv);
        } else if id == s[0].0 {
            assert(view_entries(seq![(id, v)] + s.drop_first()) =~= seq![(id, v@)]
                + sv.drop_first());
        } else {
            lemma_view_entries_insert(s.drop_first(), id, v);
            assert(view_entries(s.drop_first()) =~= sv.drop_first());
            assert(view_entries(seq![s[0]] + kv_insert(s.drop_first(), id, v)) =~= seq![
                sv[0],
            ] + view_entries(kv_insert(s.drop_first(), id, v)));
            assert(kv_insert(sv, id, v@) == seq![sv[0]] + kv_insert(sv.drop_first(), id, v@));
        }
    }
}

/// Removal commutes with taking views of the records.
pub proof fn lemma_view_entries_remove<R: View>(s: Seq<(u64, R)>, id: u64)
    ensures
        view_entries(kv_remove(s, id)) == kv_remove(view_entries(s), id),
    decreases s.len(),
{
    let sv = view_entries(s);
    if s.len() == 0 {
        assert(view_entries(kv_remove(s, id)) =~= kv_remove(sv, id));
    } else {
        assert(sv[0] == (s[0].0, s[0].1@));
        if s[0].0 == id {
            assert(view_entries(s.drop_first()) =~= sv.drop_first());
        } else {
            lemma_view_entries_remove(s.drop_first(), id);
            assert(view_entries(s.drop_first()) =~= sv.drop_first());
            assert(view_entries(seq![s[0]] + kv_remove(s.drop_first(), id)) =~= seq![sv[0]]
                + view_entries(kv_remove(s.drop_first(), id)));
            assert(kv_remove(sv, id) == seq![sv[0]] + kv_remove(sv.drop_first(), id));
        }
    }
}

/// An ordered collection of records keyed by `u64`: entries are kept in
/// strictly increasing key order, so a full scan is a scan in key order.
pub struct StoreMap<R> {
    entries: Vec<(u64, R)>,
}

impl<R> View for StoreMap<R> {
    type V = Seq<(u64, R)>;

    closed spec fn view(&self) -> Seq<(u64, R)> {
        self.entries@
    }
}

impl<R> StoreMap<R> {
    /// The store invariant: keys strictly increasing.
    pub open spec fn wf(self) -> bool {
        keys_sorted(self@)
    }

    pub fn new() -> (r: Self)
        ensures
            r@ == Seq::<(u64, R)>::empty(),
            r.wf(),
    {
        StoreMap { entries: Vec::new() }
    }

    pub fn len(&self) -> (n: usize)
        ensures
            n == self@.len(),
    {
        self.entries.len()
    }

    /// The entry at scan position `i` (scan order is key order).
    pub fn entry_at(&self, i: usize) -> (e: &(u64, R))
        requires
            i < self@.len(),
        ensures
            *e == self@[i as int],
    {
        &self.entries[i]
    }

    /// Point lookup; absence is a normal outcome.
    pub fn get(&self, id: u64) -> (r: Option<&R>)
        ensures
            match r {
                Some(v) => kv_get(self@, id) == Some(*v),
                None => kv_get(self@, id) is None,
            },
    {
        let n = self.entries.len();
        let mut i: usize = 0;
        proof {
            assert(self@.skip(0) =~= self@);
        }
        while i < n
            invariant
                i <= n,
                n == self@.len(),
                kv_get(self@, id) == kv_get(self@.skip(i as int), id),
            decreases n - i,
        {
            let e = &self.entries[i];
            proof {
                assert(self@.skip(i as int)[0] == self@[i as int]);
            }
            if e.0 == id {
                return Some(&e.1);
            }
            proof {
                assert(self@.skip(i as int).drop_first() =~= self@.skip(i as int + 1));
            }
            i = i + 1;
        }
        proof {
            assert(self@.skip(n as int).len() == 0);
        }
        None
    }

    /// Upsert: binds `id` to `v`, replacing any record already at that key.
    pub fn insert(&mut self, id: u64, v: R)
        requires
            old(self).wf(),
        ensures
            final(self).wf(),
            final(self)@ == kv_insert(old(self)@, id, v),
    {
        let n = self.entries.len();
        let mut i: usize = 0;
        while i < n && self.entries[i].0 < id
            invariant
                i <= n,
                n == self@.len(),
                *self == *old(self),
                keys_sorted(self@),
                forall|j: int| 0 <= j < i ==> self@[j].0 < id,
            decreases n - i,
        {
            i = i + 1;
        }
        proof {
            lemma_kv_insert_at(self@, id, v, i as int);
            lemma_kv_insert_sorted(self@, id, v);
        }
        if i < n && self.entries[i].0 == id {
            self.entries.remove(i);
            self.entries.insert(i, (id, v));
            proof {
                assert(final(self)@ =~= kv_insert(old(self)@, id, v));
            }
        } else {
            self.entries.insert(i, (id, v));
        }
    }

    /// Deletes the record at `id` and returns it, or `None` if absent.
    pub fn remove(&mut self, id: u64) -> (r: Option<R>)
        requires
            old(self).wf(),
        ensures
            final(self).wf(),
            final(self)@ == kv_remove(old(self)@, id),
            r == kv_get(old(self)@, id),
    {
        let n = self.entries.len();
        let mut i: usize = 0;
        while i < n
            invariant
                i <= n,
                n == self@.len(),
                *self == *old(self),
                keys_sorted(self@),
                forall|j: int| 0 <= j < i ==> self@[j].0 != id,
            decreases n - i,
        {
            if self.entries[i].0 == id {
                proof {
                    lemma_kv_remove_at(self@, id, i as int);
                    lemma_kv_remove_sorted(self@, id);
                }
                let e = self.entries.remove(i);
                return Some(e.1);
            }
            i = i + 1;
        }
        proof {
            lemma_kv_scan_miss(self@, id);
            lemma_kv_remove_sorted(self@, id);
        }
        None
    }
}

/// Where the scan stopped at the first key not below `id`, `kv_insert`
/// is the positional replacement or insertion there, and `kv_get` is the
/// record found there, if its key matches.
proof fn lemma_kv_insert_at<R>(s: Seq<(u64, R)>, id: u64, v: R, i: int)
    requires
        keys_sorted(s),
        0 <= i <= s.len(),
        forall|j: int| 0 <= j < i ==> s[j].0 < id,
        i < s.len() ==> s[i].0 >= id,
    ensures
        i < s.len() && s[i].0 == id ==> kv_insert(s, id, v) == s.remove(i).insert(
            i,
            (id, v),
        ),
        !(i < s.len() && s[i].0 == id) ==> kv_insert(s, id, v) == s.insert(i, (id, v)),
    decreases i,
{
    lemma_sorted_drop_first(s);
    if i == 0 {
        if s.len() == 0 {
            assert(kv_insert(s, id, v) =~= s.insert(0, (id, v)));
        } else if id < s[0].0 {
            assert(kv_insert(s, id, v) =~= s.insert(0, (id, v)));
        } else if id == s[0].0 {
            assert(kv_insert(s, id, v) =~= s.remove(0).insert(0, (id, v)));
        }
    } else {
        assert(s[0].0 < id);
        assert(forall|j: int|
            0 <= j < i - 1 ==> s.drop_first()[j] == s[j + 1] && s.drop_first()[j].0 < id);
        assert(i - 1 < s.drop_first().len() ==> s.drop_first()[i - 1] == s[i]);
        lemma_kv_insert_at(s.drop_first(), id, v, i - 1);
        if i < s.len() && s[i].0 == id {
            assert(kv_insert(s, id, v) =~= s.remove(i).insert(i, (id, v))) by {
                assert(kv_insert(s.drop_first(), id, v) == s.drop_first().remove(i - 1).insert(
                    i - 1,
                    (id, v),
                ));
                assert(seq![s[0]] + s.drop_first().remove(i - 1).insert(i - 1, (id, v))
                    =~= s.remove(i).insert(i, (id, v)));
            }
        } else {
            assert(kv_insert(s, id, v) =~= s.insert(i, (id, v))) by {
                assert(kv_insert(s.drop_first(), id, v) == s.drop_first().insert(i - 1, (id, v)));
                assert(seq![s[0]] + s.drop_first().insert(i - 1, (id, v)) =~= s.insert(
                    i,
                    (id, v),
                ));
            }
        }
    }
}

/// Where the scan found the first match at position `i`, `kv_remove` is the
/// positional removal there and `kv_get` the record there.
proof fn lemma_kv_remove_at<R>(s: Seq<(u64, R)>, id: u64, i: int)
    requires
        0 <= i < s.len(),
        forall|j: int| 0 <= j < i ==> s[j].0 != id,
        s[i].0 == id,
    ensures
        kv_remove(s, id) == s.remove(i),
        kv_get(s, id) == Some(s[i].1),
    decreases i,
{
    if i == 0 {
        assert(kv_remove(s, id) =~= s.remove(0));
    } else {
        assert(forall|j: int| 0 <= j < i - 1 ==> s.drop_first()[j] == s[j + 1]);
        assert(s.drop_first()[i - 1] == s[i]);
        lemma_kv_remove_at(s.drop_first(), id, i - 1);
        assert(seq![s[0]] + s.drop_first().remove(i - 1) =~= s.remove(i));
    }
}

/// Where a full scan found no match, the key is absent and removal is a
/// no-op.
proof fn lemma_kv_scan_miss<R>(s: Seq<(u64, R)>, id: u64)
    requires
        forall|j: int| 0 <= j < s.len() ==> s[j].0 != id,
    ensures
        kv_get(s, id) is None,
        kv_remove(s, id) == s,
    decreases s.len(),
{
    if s.len() > 0 {
        assert(forall|j: int| 0 <= j < s.drop_first().len() ==> s.drop_first()[j] == s[j + 1]);
        lemma_kv_scan_miss(s.drop_first(), id);
        assert(seq![s[0]] + s.drop_first() =~= s);
    }
}

} // verus!
