//! The per-market cache of scanner metainfo: a lookup either answers from
//! what an earlier fetch stored, or tells the caller to fetch and store.
use vstd::prelude::*;

use crate::scanner::{str_equals, Market};

verus! {

broadcast use vstd::seq::group_seq_axioms;

/// The map that a list of (market, value) entries stands for: a later entry
/// for a market replaces an earlier one.
pub open spec fn entries_map<V>(s: Seq<(Seq<char>, V)>) -> Map<Seq<char>, V>
    decreases s.len(),
{
    if s.len() == 0 {
        Map::empty()
    } else {
        entries_map(s.drop_last()).insert(s.last().0, s.last().1)
    }
}

/// No market occurs twice among the entries.
pub open spec fn keys_distinct<V>(s: Seq<(Seq<char>, V)>) -> bool {
    forall|i: int, j: int| 0 <= i < j < s.len() ==> #[trigger] s[i].0 != #[trigger] s[j].0
}

proof fn lemma_entry_in_map<V>(s: Seq<(Seq<char>, V)>, i: int)
    requires
        keys_distinct(s),
        0 <= i < s.len(),
    ensures
        entries_map(s).dom().contains(s[i].0),
        entries_map(s)[s[i].0] == s[i].1,
    decreases s.len(),
{
    if i < s.len() - 1 {
        let t = s.drop_last();
        assert(keys_distinct(t));
        lemma_entry_in_map(t, i);
        assert(s[i].0 != s[s.len() - 1].0);
    }
}

proof fn lemma_absent_key<V>(s: Seq<(Seq<char>, V)>, k: Seq<char>)
    requires
        forall|i: int| 0 <= i < s.len() ==> #[trigger] s[i].0 != k,
    ensures
        !entries_map(s).dom().contains(k),
    decreases s.len(),
{
    if s.len() > 0 {
        let t = s.drop_last();
        assert forall|i: int| 0 <= i < t.len() implies #[trigger] t[i].0 != k by {
            assert(t[i] == s[i]);
        }
        lemma_absent_key(t, k);
    }
}

proof fn lemma_map_key_has_entry<V>(s: Seq<(Seq<char>, V)>, k: Seq<char>) -> (i: int)
    requires
        entries_map(s).dom().contains(k),
    ensures
        0 <= i < s.len(),
        s[i].0 == k,
{
    if forall|j: int| 0 <= j < s.len() ==> #[trigger] s[j].0 != k {
        lemma_absent_key(s, k);
        0
    } else {
        choose|j: int| 0 <= j < s.len() && #[trigger] s[j].0 == k
    }
}

proof fn lemma_update_entry<V>(s: Seq<(Seq<char>, V)>, i: int, v: V)
    requires
        keys_distinct(s),
        0 <= i < s.len(),
    ensures
        keys_distinct(s.update(i, (s[i].0, v))),
        entries_map(s.update(i, (s[i].0, v))) =~= entries_map(s).insert(s[i].0, v),
{
    let k = s[i].0;
    let u = s.update(i, (k, v));
    assert(keys_distinct(u)) by {
        assert forall|a: int, b: int| 0 <= a < b < u.len() implies #[trigger] u[a].0 != #[trigger] u[b].0 by {
            assert(u[a].0 == s[a].0);
            assert(u[b].0 == s[b].0);
        }
    }
    let m = entries_map(u);
    let n = entries_map(s).insert(k, v);
    assert forall|x: Seq<char>| #[trigger] m.dom().contains(x) <==> n.dom().contains(x) by {
        if m.dom().contains(x) {
            let j = lemma_map_key_has_entry(u, x);
            if x != k {
                assert(s[j].0 == x);
                lemma_entry_in_map(s, j);
            }
        }
        if n.dom().contains(x) && x != k {
            let j = lemma_map_key_has_entry(s, x);
            assert(u[j].0 == x);
            lemma_entry_in_map(u, j);
        }
        if x == k {
            lemma_entry_in_map(u, i);
        }
    }
    assert forall|x: Seq<char>| #[trigger] m.dom().contains(x) implies m[x] == n[x] by {
        let j = lemma_map_key_has_entry(u, x);
        lemma_entry_in_map(u, j);
        if x != k {
            assert(u[j] == s[j]);
            lemma_entry_in_map(s, j);
        }
    }
}

/// The entries with each market taken by its name.
pub open spec fn views_of<V>(entries: Seq<(Market, V)>) -> Seq<(Seq<char>, V)> {
    Seq::new(entries.len(), |i: int| (entries[i].0@, entries[i].1))
}

/// Scanner metainfo already fetched, by market.
#[derive(Debug)]
pub struct MetainfoCache<V> {
    entries: Vec<(Market, V)>,
}

/// What a lookup in the cache decides.
#[derive(Debug)]
pub enum CacheLookup<V> {
    /// The market was fetched before: use this value.
    Cached(V),
    /// The market was not fetched yet: fetch it, then store the result.
    Fetch,
}

impl<V> MetainfoCache<V> {
    pub closed spec fn entry_views(self) -> Seq<(Seq<char>, V)> {
        views_of(self.entries@)
    }

    #[verifier::type_invariant]
    closed spec fn wf(self) -> bool {
        keys_distinct(self.entry_views())
    }

    /// The cached values, keyed by market name.
    pub closed spec fn map(self) -> Map<Seq<char>, V> {
        entries_map(self.entry_views())
    }

    /// An empty cache.
    pub fn new() -> (c: Self)
        ensures
            c.map() == Map::<Seq<char>, V>::empty(),
    {
        let c = MetainfoCache { entries: Vec::new() };
        assert(c.entry_views() =~= Seq::<(Seq<char>, V)>::empty());
        c
    }

    /// The value stored for `market`, if any.
    pub fn get(&self, market: &Market) -> (r: Option<&V>)
        ensures
            match r {
                Some(v) => self.map().dom().contains(market@) && *v == self.map()[market@],
                None => !self.map().dom().contains(market@),
            },
    {
        proof {
            use_type_invariant(self);
        }
        let ghost s = self.entry_views();
        let mut i: usize = 0;
        while i < self.entries.len()
            invariant
                i <= self.entries@.len(),
                s == self.entry_views(),
                keys_distinct(s),
                forall|j: int| 0 <= j < i ==> #[trigger] s[j].0 != market@,
            decreases self.entries@.len() - i,
        {
            if str_equals(self.entries[i].0.as_str(), market.as_str()) {
                proof {
                    assert(s[i as int].0 == market@);
                    lemma_entry_in_map(s, i as int);
                }
                return Some(&self.entries[i].1);
            }
            assert(s[i as int].0 != market@);
            i = i + 1;
        }
        proof {
            lemma_absent_key(s, market@);
        }
        None
    }

    /// Stores `value` for `market`, replacing what was stored for it before.
    pub fn store(&mut self, market: Market, value: V)
        ensures
            final(self).map() == old(self).map().insert(market@, value),
    {
        proof {
            use_type_invariant(&*self);
        }
        let ghost s = self.entry_views();
        let mut i: usize = 0;
        while i < self.entries.len()
            invariant
                i <= self.entries@.len(),
                s == self.entry_views(),
                s == old(self).entry_views(),
                keys_distinct(s),
                forall|j: int| 0 <= j < i ==> #[trigger] s[j].0 != market@,
            decreases self.entries@.len() - i,
        {
            if str_equals(self.entries[i].0.as_str(), market.as_str()) {
                proof {
                    assert(s[i as int].0 == market@);
                    lemma_update_entry(s, i as int, value);
                }
                let mut entries: Vec<(Market, V)> = Vec::new();
                std::mem::swap(&mut entries, &mut self.entries);
                entries.set(i, (market, value));
                assert(views_of(entries@) =~= s.update(i as int, (s[i as int].0, value)));
                self.entries = entries;
                return;
            }
            assert(s[i as int].0 != market@);
            i = i + 1;
        }
        let ghost key = market@;
        let mut entries: Vec<(Market, V)> = Vec::new();
        std::mem::swap(&mut entries, &mut self.entries);
        entries.push((market, value));
        proof {
            let t = views_of(entries@);
            assert(t =~= s.push((key, value)));
            assert(t.drop_last() =~= s);
            assert(keys_distinct(t));
        }
        self.entries = entries;
    }

    /// What a fetch for `market` leaves behind: a fetched value is stored
    /// (as a clone) and handed back; an error is handed back and the cache
    /// stays as it was, so the next lookup fetches again.
    pub fn record_fetch<E>(&mut self, market: Market, fetched: Result<V, E>) -> (r: Result<V, E>)
        where
            V: Clone,
        ensures
            r == fetched,
            fetched is Err ==> final(self).map() == old(self).map(),
            fetched matches Ok(v) ==> exists|stored: V|
                cloned(v, stored) && #[trigger] final(self).map() == old(self).map().insert(
                    market@,
                    stored,
                ),
    {
        match fetched {
            Ok(v) => {
                let stored = v.clone();
                let ghost kept = stored;
                let ghost key = market@;
                self.store(market, stored);
                assert(cloned(v, kept) && self.map() == old(self).map().insert(key, kept));
                Ok(v)
            },
            Err(e) => Err(e),
        }
    }

    /// Decides whether `market` is answered from the cache or must be fetched.
    pub fn lookup(&self, market: &Market) -> (r: CacheLookup<V>)
        where
            V: Clone,
        ensures
            self.map().dom().contains(market@) <==> r is Cached,
            r matches CacheLookup::Cached(v) ==> cloned(self.map()[market@], v),
    {
        match self.get(market) {
            Some(v) => CacheLookup::Cached(v.clone()),
            None => CacheLookup::Fetch,
        }
    }
}

/// What a read of the cache gives back after a store: the stored value for
/// that market, and, for every other market, what was there before.
pub proof fn law_lookup_after_store<V>(
    before: MetainfoCache<V>,
    after: MetainfoCache<V>,
    market: Seq<char>,
    value: V,
    other: Seq<char>,
)
    requires
        after.map() == before.map().insert(market, value),
    ensures
        after.map().dom().contains(market),
        after.map()[market] == value,
        other != market ==> (after.map().dom().contains(other) == before.map().dom().contains(
            other,
        )),
        other != market && before.map().dom().contains(other) ==> after.map()[other]
            == before.map()[other],
{
}

} // verus!
