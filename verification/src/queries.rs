//! Derived read queries over the quote collection: most-recent-N by
//! creation time, and filter-by-category (case-insensitive equality).
//! Both recompute from scratch on every call by scanning the store.

use vstd::prelude::*;
use crate::registry::Registry;
use crate::types::{Error, Quote, QuoteV, Target};

verus! {

/// How many quotes `get_recent_quotes` returns at most.
pub const RECENT_LIMIT: usize = 5;

/// The lowercase form of a string, as Unicode case folding gives it.
pub uninterp spec fn lower_of(s: Seq<char>) -> Seq<char>;

/// Relies on `str::to_lowercase`: the result depends on the characters
/// alone; `lower_of` names it.
#[verifier::external_body]
fn lowercase(s: &str) -> (r: String)
    ensures
        r@ == lower_of(s@),
{
    s.to_lowercase()
}

/// The quote records in store scan order (key order), views only.
pub open spec fn stored_quote_views(reg: Registry) -> Seq<QuoteV> {
    reg.quotes_v().map_values(|e: (u64, QuoteV)| e.1)
}

/// Whether a quote belongs to a category: case-insensitive equality, both
/// sides lowercased.
pub open spec fn category_matches(q: QuoteV, category: Seq<char>) -> bool {
    lower_of(q.category) == lower_of(category)
}

/// The quotes of a category, kept in scan order.
pub open spec fn category_filter(s: Seq<QuoteV>, category: Seq<char>) -> Seq<QuoteV> {
    s.filter(|q: QuoteV| category_matches(q, category))
}

/// Insertion step of a stable sort by creation time descending: `q` goes
/// after every record at least as recent as `q`.
pub open spec fn insert_desc(q: QuoteV, s: Seq<QuoteV>) -> Seq<QuoteV>
    decreases s.len(),
{
    if s.len() == 0 {
        seq![q]
    } else if q.created_at > s[0].created_at {
        seq![q] + s
    } else {
        seq![s[0]] + insert_desc(q, s.drop_first())
    }
}

/// Stable sort by creation time, most recent first: records are taken in
/// scan order and each inserted after those at least as recent, so ties
/// keep their scan order.
pub open spec fn sort_desc(s: Seq<QuoteV>) -> Seq<QuoteV>
    decreases s.len(),
{
    if s.len() == 0 {
        Seq::empty()
    } else {
        insert_desc(s.last(), sort_desc(s.drop_last()))
    }
}

/// Creation times are non-increasing.
pub open spec fn sorted_desc(s: Seq<QuoteV>) -> bool {
    forall|i: int, j: int| 0 <= i < j < s.len() ==> s[i].created_at >= s[j].created_at
}

/// `sort_desc` keeps the length.
pub proof fn lemma_sort_desc_len(s: Seq<QuoteV>)
    ensures
        sort_desc(s).len() == s.len(),
    decreases s.len(),
{
    if s.len() > 0 {
        lemma_sort_desc_len(s.drop_last());
        lemma_insert_desc_len(s.last(), sort_desc(s.drop_last()));
    }
}

/// `insert_desc` adds exactly one record.
pub proof fn lemma_insert_desc_len(q: QuoteV, s: Seq<QuoteV>)
    ensures
        insert_desc(q, s).len() == s.len() + 1,
    decreases s.len(),
{
    if s.len() > 0 && !(q.created_at > s[0].created_at) {
        lemma_insert_desc_len(q, s.drop_first());
    }
}

/// Where the scan stopped at the first record less recent than `q`,
/// `insert_desc` is the positional insertion there.
proof fn lemma_insert_desc_at(q: QuoteV, s: Seq<QuoteV>, j: int)
    requires
        0 <= j <= s.len(),
        forall|k: int| 0 <= k < j ==> s[k].created_at >= q.created_at,
        j < s.len() ==> s[j].created_at < q.created_at,
    ensures
        insert_desc(q, s) == s.insert(j, q),
    decreases j,
{
    if j == 0 {
        if s.len() == 0 {
            assert(insert_desc(q, s) =~= s.insert(0, q));
        } else if q.created_at > s[0].created_at {
            assert(seq![q] + s =~= s.insert(0, q));
        }
    } else {
        assert(s[0].created_at >= q.created_at);
        // indices of `s.drop_first()` shift down by one
        assert(forall|k: int|
            0 <= k < s.drop_first().len() ==> s.drop_first()[k] == s[k + 1]);
        lemma_insert_desc_at(q, s.drop_first(), j - 1);
        assert(seq![s[0]] + s.drop_first().insert(j - 1, q) =~= s.insert(j, q));
    }
}

impl Registry {
    /// The most recent quotes: the whole collection sorted by creation
    /// time descending (ties keep scan order), truncated to
    /// `RECENT_LIMIT`.  An empty collection is a `NotFound` error.
    pub fn get_recent_quotes(&self) -> (r: Result<Vec<Quote>, Error>)
        ensures
            r is Ok <==> self.quotes_v().len() > 0,
            match r {
                Ok(v) => {
                    let sorted = sort_desc(stored_quote_views(*self));
                    &&& v@.len() == if sorted.len() < RECENT_LIMIT {
                        sorted.len() as int
                    } else {
                        RECENT_LIMIT as int
                    }
                    &&& v@.map_values(|q: Quote| q@) == sorted.take(v@.len() as int)
                },
                Err(e) => (e matches Error::NotFound { target } && target == Target::Quotes),
            },
    {
        let n = self.quotes.len();
        if n == 0 {
            proof {
                assert(stored_quote_views(*self).len() == 0);
            }
            return Err(Error::NotFound { target: Target::Quotes });
        }
        let ghost all = stored_quote_views(*self);
        let mut sorted: Vec<Quote> = Vec::new();
        let mut i: usize = 0;
        proof {
            assert(all.take(0) =~= Seq::<QuoteV>::empty());
        }
        while i < n
            invariant
                i <= n,
                n == self.quotes@.len(),
                all == stored_quote_views(*self),
                all.len() == n,
                sorted@.map_values(|q: Quote| q@) == sort_desc(all.take(i as int)),
                sorted@.len() == i,
            decreases n - i,
        {
            let q = self.quotes.entry_at(i).1.clone();
            proof {
                assert(q@ == all[i as int]);
            }
            let mut j: usize = 0;
            let sn = sorted.len();
            while j < sn && sorted[j].created_at >= q.created_at
                invariant
                    j <= sn,
                    sn == sorted@.len(),
                    forall|k: int|
                        0 <= k < j ==> (#[trigger] sorted@[k]).created_at >= q.created_at,
                decreases sn - j,
            {
                j = j + 1;
            }
            let ghost sv = sorted@.map_values(|q: Quote| q@);
            proof {
                assert(forall|k: int| 0 <= k < sv.len() ==> sv[k] == (#[trigger] sorted@[k])@);
                lemma_insert_desc_at(q@, sv, j as int);
            }
            sorted.insert(j, q);
            proof {
                assert(sorted@.map_values(|q: Quote| q@) =~= sv.insert(j as int, q@));
                assert(all.take(i as int + 1).drop_last() =~= all.take(i as int));
                assert(all.take(i as int + 1).last() == all[i as int]);
            }
            i = i + 1;
        }
        proof {
            assert(all.take(n as int) =~= all);
            lemma_sort_desc_len(all);
        }
        if sorted.len() > RECENT_LIMIT {
            sorted.truncate(RECENT_LIMIT);
            proof {
                assert(sorted@.map_values(|q: Quote| q@) =~= sort_desc(all).take(
                    RECENT_LIMIT as int,
                ));
            }
        } else {
            proof {
                assert(sort_desc(all).take(sorted@.len() as int) =~= sort_desc(all));
            }
        }
        Ok(sorted)
    }

    /// The quotes whose category equals the given one, compared
    /// case-insensitively, in scan order.  No match is a `NotFound` error.
    pub fn get_quotes_by_category(&self, category: String) -> (r: Result<Vec<Quote>, Error>)
        ensures
            ({
                let matched = category_filter(stored_quote_views(*self), category@);
                &&& (r is Ok <==> matched.len() > 0)
                &&& match r {
                    Ok(v) => v@.map_values(|q: Quote| q@) == matched,
                    Err(e) => (e matches Error::NotFound { target } && target
                        == Target::Quotes),
                }
            }),
    {
        let wanted = lowercase(category.as_str());
        let ghost all = stored_quote_views(*self);
        let n = self.quotes.len();
        let mut v: Vec<Quote> = Vec::new();
        let mut i: usize = 0;
        proof {
            assert(all.take(0) =~= Seq::<QuoteV>::empty());
            assert(category_filter(all.take(0), category@) =~= Seq::<QuoteV>::empty());
        }
        while i < n
            invariant
                i <= n,
                n == self.quotes@.len(),
                all == stored_quote_views(*self),
                all.len() == n,
                wanted@ == lower_of(category@),
                v@.map_values(|q: Quote| q@) == category_filter(all.take(i as int), category@),
            decreases n - i,
        {
            let q = self.quotes.entry_at(i).1.clone();
            proof {
                assert(q@ == all[i as int]);
            }
            let ghost pre = v@.map_values(|q: Quote| q@);
            let lowered = lowercase(q.category.as_str());
            if lowered.eq(&wanted) {
                v.push(q);
                proof {
                    assert(v@.map_values(|q: Quote| q@) =~= pre.push(all[i as int]));
                }
            }
            proof {
                let p = |q: QuoteV| category_matches(q, category@);
                let x = all[i as int];
                assert(all.take(i as int + 1) =~= all.take(i as int) + seq![x]);
                Seq::filter_distributes_over_add(all.take(i as int), seq![x], p);
                reveal_with_fuel(Seq::filter, 2);
                assert(seq![x].drop_last() =~= Seq::<QuoteV>::empty());
                assert(seq![x].filter(p) == if p(x) {
                    seq![x]
                } else {
                    Seq::<QuoteV>::empty()
                });
                assert(all.take(i as int).filter(p) + seq![x] =~= all.take(i as int).filter(
                    p,
                ).push(x));
                assert(all.take(i as int).filter(p) + Seq::<QuoteV>::empty() =~= all.take(
                    i as int,
                ).filter(p));
            }
            i = i + 1;
        }
        proof {
            assert(all.take(n as int) =~= all);
        }
        if v.len() == 0 {
            proof {
                assert(category_filter(all, category@).len() == 0);
            }
            return Err(Error::NotFound { target: Target::Quotes });
        }
        Ok(v)
    }
}

} // verus!
