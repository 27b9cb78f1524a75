//! Per-domain edit counters with a deterministic top-3.
//!
//! Three implementations share one contract: `MutexLeaderboard` and
//! `RwLockLeaderboard` keep the table that the executable guards with a mutex
//! or a reader-writer lock, and `AtomicLeaderboard` keeps its counts in a
//! sharded `DashMap`.  Callers share a leaderboard behind the lock of their
//! choice; every update goes through `&mut self` here.
use crate::ranking::{
    as_counts, entries_view, entry_view, is_top, lemma_as_counts, names_distinct, top_entries,
};
use dashmap::DashMap;
use vstd::hash_map::StringHashMap;
use vstd::multiset::Multiset;
use vstd::prelude::*;

verus! {

/// Number of entries a leaderboard reports.
pub const TOP_N: usize = 3;

/// The counts of a leaderboard that has seen no edit.
pub open spec fn no_counts() -> Map<Seq<char>, u64> {
    Map::empty()
}

/// `m` after one more edit on `domain`.
pub open spec fn bumped(m: Map<Seq<char>, u64>, domain: Seq<char>) -> Map<Seq<char>, u64> {
    m.insert(domain, if m.contains_key(domain) { (m[domain] + 1) as u64 } else { 1 })
}

/// `m` after one more edit on `domain`, the count wrapping around at `u64::MAX`.
pub open spec fn bumped_wrapping(m: Map<Seq<char>, u64>, domain: Seq<char>) -> Map<Seq<char>, u64> {
    m.insert(
        domain,
        if !m.contains_key(domain) {
            1
        } else if m[domain] == u64::MAX {
            0
        } else {
            (m[domain] + 1) as u64
        },
    )
}

/// One more edit on `domain` would not overflow its count.
pub open spec fn can_bump(m: Map<Seq<char>, u64>, domain: Seq<char>) -> bool {
    m.contains_key(domain) ==> m[domain] < u64::MAX
}

/// The counts after recording `domains` in order, starting from `m`.
pub open spec fn replay(m: Map<Seq<char>, u64>, domains: Seq<Seq<char>>) -> Map<Seq<char>, u64>
    decreases domains.len(),
{
    if domains.len() == 0 {
        m
    } else {
        bumped(replay(m, domains.drop_last()), domains.last())
    }
}

/// Number of times `d` occurs in `domains`.
pub open spec fn occurrences(domains: Seq<Seq<char>>, d: Seq<char>) -> nat
    decreases domains.len(),
{
    if domains.len() == 0 {
        0
    } else {
        occurrences(domains.drop_last(), d) + if domains.last() == d { 1nat } else { 0nat }
    }
}

/// The count of `d` after replaying `domains` from an empty leaderboard is the
/// number of times `d` occurs in `domains`, and `d` is counted at all exactly
/// when it occurs.
pub proof fn law_replay_counts_occurrences(domains: Seq<Seq<char>>, d: Seq<char>)
    requires
        domains.len() < u64::MAX,
    ensures
        replay(no_counts(), domains).contains_key(d) <==> domains.contains(d),
        replay(no_counts(), domains).contains_key(d) ==> replay(no_counts(), domains)[d] == occurrences(domains, d),
        !domains.contains(d) ==> occurrences(domains, d) == 0,
        occurrences(domains, d) <= domains.len(),
        replay(no_counts(), domains).dom().finite(),
    decreases domains.len(),
{
    if domains.len() > 0 {
        let prev = domains.drop_last();
        let last = domains.last();
        law_replay_counts_occurrences(prev, d);
        law_replay_counts_occurrences(prev, last);
        if domains.contains(d) && d != last {
            let i = choose|i: int| 0 <= i < domains.len() && domains[i] == d;
            assert(prev[i] == d);
        }
        if prev.contains(d) {
            let i = choose|i: int| 0 <= i < prev.len() && prev[i] == d;
            assert(domains[i] == d);
        }
        if d == last {
            assert(domains[domains.len() - 1] == d);
        }
    }
}

proof fn lemma_occurrences_count(domains: Seq<Seq<char>>, d: Seq<char>)
    ensures
        occurrences(domains, d) == domains.to_multiset().count(d),
    decreases domains.len(),
{
    broadcast use vstd::multiset::group_multiset_axioms;

    if domains.len() == 0 {
        assert(domains.to_multiset() =~= Multiset::<Seq<char>>::empty()) by {
            vstd::seq_lib::to_multiset_len(domains);
        }
    } else {
        let p = domains.drop_last();
        lemma_occurrences_count(p, d);
        assert(domains =~= p.push(domains.last()));
        vstd::seq_lib::to_multiset_build(p, domains.last());
    }
}

/// Order does not matter: recording the same multiset of edits, in any order,
/// from an empty leaderboard gives the same counts.
pub proof fn law_replay_order_independent(a: Seq<Seq<char>>, b: Seq<Seq<char>>)
    requires
        a.to_multiset() == b.to_multiset(),
        a.len() < u64::MAX,
    ensures
        replay(no_counts(), a) == replay(no_counts(), b),
{
    vstd::seq_lib::to_multiset_len(a);
    vstd::seq_lib::to_multiset_len(b);
    let ma = replay(no_counts(), a);
    let mb = replay(no_counts(), b);
    assert forall|d: Seq<char>| #[trigger] ma.contains_key(d) <==> mb.contains_key(d) by {
        law_replay_counts_occurrences(a, d);
        law_replay_counts_occurrences(b, d);
        vstd::seq_lib::to_multiset_contains(a, d);
        vstd::seq_lib::to_multiset_contains(b, d);
    }
    assert forall|d: Seq<char>| #[trigger] ma.contains_key(d) implies ma[d] == mb[d] by {
        law_replay_counts_occurrences(a, d);
        law_replay_counts_occurrences(b, d);
        lemma_occurrences_count(a, d);
        lemma_occurrences_count(b, d);
    }
    assert(ma =~= mb);
}

/// Below the maximum count, the wrapping increment of the concurrent-map
/// leaderboard is the ordinary one.
pub proof fn law_wrapping_bump_agrees(m: Map<Seq<char>, u64>, domain: Seq<char>)
    requires
        can_bump(m, domain),
    ensures
        bumped_wrapping(m, domain) == bumped(m, domain),
{
}

/// The counts of the concurrent-map leaderboard after recording `domains` in
/// order, starting from `m`.
pub open spec fn replay_wrapping(m: Map<Seq<char>, u64>, domains: Seq<Seq<char>>) -> Map<Seq<char>, u64>
    decreases domains.len(),
{
    if domains.len() == 0 {
        m
    } else {
        bumped_wrapping(replay_wrapping(m, domains.drop_last()), domains.last())
    }
}

/// Fewer than `u64::MAX` edits never wrap a count, so the concurrent-map
/// leaderboard counts exactly as the locked ones do.
pub proof fn law_wrapping_replay_agrees(domains: Seq<Seq<char>>)
    requires
        domains.len() < u64::MAX,
    ensures
        replay_wrapping(no_counts(), domains) == replay(no_counts(), domains),
    decreases domains.len(),
{
    if domains.len() > 0 {
        let p = domains.drop_last();
        law_wrapping_replay_agrees(p);
        law_replay_counts_occurrences(p, domains.last());
        law_wrapping_bump_agrees(replay(no_counts(), p), domains.last());
    }
}

/// The three implementations give identical results: leaderboards that have
/// recorded the same multiset of edits, in whatever order, report the same
/// top 3.
pub proof fn law_same_edits_same_top3(
    a: Seq<Seq<char>>,
    b: Seq<Seq<char>>,
    top_a: Seq<(Seq<char>, u64)>,
    top_b: Seq<(Seq<char>, u64)>,
)
    requires
        a.to_multiset() == b.to_multiset(),
        a.len() < u64::MAX,
        is_top(replay(no_counts(), a), top_a, TOP_N as nat),
        is_top(replay(no_counts(), b), top_b, TOP_N as nat),
    ensures
        top_a == top_b,
{
    law_replay_order_independent(a, b);
    crate::ranking::law_top_unique(replay(no_counts(), a), top_a, top_b, TOP_N as nat);
}

/// All leaderboards agree: two leaderboards holding the same counts report
/// the same top 3, whichever implementations they are.
pub proof fn law_leaderboards_agree<A: Leaderboard, B: Leaderboard>(
    a: &A,
    b: &B,
    top_a: Seq<(Seq<char>, u64)>,
    top_b: Seq<(Seq<char>, u64)>,
)
    requires
        a.counts() == b.counts(),
        is_top(a.counts(), top_a, TOP_N as nat),
        is_top(b.counts(), top_b, TOP_N as nat),
    ensures
        top_a == top_b,
{
    crate::ranking::law_top_unique(a.counts(), top_a, top_b, TOP_N as nat);
}

/// The common interface of the leaderboards: record an edit, read the top 3.
pub trait Leaderboard {
    /// The count of every domain seen so far.
    spec fn counts(&self) -> Map<Seq<char>, u64>;

    spec fn wf(&self) -> bool;

    /// Counts one edit on `domain`.
    fn record(&mut self, domain: &str)
        requires
            old(self).wf(),
            can_bump(old(self).counts(), domain@),
        ensures
            final(self).wf(),
            final(self).counts() == bumped(old(self).counts(), domain@),
    ;

    /// The three most edited domains, by descending count, ties broken by
    /// ascending name.
    fn top_3(&self) -> (r: Vec<(String, u64)>)
        requires
            self.wf(),
        ensures
            is_top(self.counts(), entries_view(r@), TOP_N as nat),
    ;
}

/// A table of (domain, count) rows in which no domain occurs twice, with a
/// hash index from each domain to its row.
struct CountTable {
    rows: Vec<(String, u64)>,
    index: StringHashMap<usize>,
}

impl CountTable {
    spec fn wf(&self) -> bool {
        &&& names_distinct(entries_view(self.rows@))
        &&& forall|k: Seq<char>| #[trigger] self.index@.contains_key(k) ==> self.index@[k] < self.rows@.len()
            && self.rows@[self.index@[k] as int].0@ == k
        &&& forall|i: int| 0 <= i < self.rows@.len() ==> #[trigger] self.index@.contains_key(self.rows@[i].0@)
    }

    spec fn counts(&self) -> Map<Seq<char>, u64> {
        as_counts(entries_view(self.rows@))
    }

    fn new() -> (t: CountTable)
        ensures
            t.wf(),
            t.counts() == no_counts(),
    {
        CountTable { rows: Vec::new(), index: StringHashMap::new() }
    }

    fn increment(&mut self, domain: &str)
        requires
            old(self).wf(),
            can_bump(old(self).counts(), domain@),
        ensures
            final(self).wf(),
            final(self).counts() == bumped(old(self).counts(), domain@),
    {
        let ghost old_rows = entries_view(self.rows@);
        proof {
            lemma_as_counts(old_rows);
        }
        match self.index.get(domain) {
            Some(i) => {
                let i = *i;
                let count = self.rows[i].1;
                proof {
                    assert(old_rows[i as int].0 == domain@);
                    assert(as_counts(old_rows).contains_key(old_rows[i as int].0));
                    assert(as_counts(old_rows)[domain@] == count);
                }
                self.rows.set(i, (domain.to_owned(), count + 1));
                proof {
                    let new_rows = entries_view(self.rows@);
                    assert(new_rows =~= old_rows.update(i as int, (domain@, (count + 1) as u64)));
                    assert(names_distinct(new_rows));
                    lemma_as_counts(new_rows);
                    let target = bumped(as_counts(old_rows), domain@);
                    assert forall|k: Seq<char>| #[trigger] as_counts(new_rows).contains_key(k) <==> target.contains_key(k) by {
                        if as_counts(new_rows).contains_key(k) {
                            let j = choose|j: int| 0 <= j < new_rows.len() && new_rows[j].0 == k;
                            if j != i {
                                assert(new_rows[j] == old_rows[j]);
                            }
                        }
                        if target.contains_key(k) && k != domain@ {
                            assert(as_counts(old_rows).contains_key(k));
                            let j = choose|j: int| 0 <= j < old_rows.len() && old_rows[j].0 == k;
                            assert(new_rows[j] == old_rows[j]);
                            assert(as_counts(new_rows).contains_key(new_rows[j].0));
                        }
                        if k == domain@ {
                            assert(new_rows[i as int].0 == k);
                            assert(as_counts(new_rows).contains_key(new_rows[i as int].0));
                        }
                    }
                    assert forall|k: Seq<char>| #[trigger] as_counts(new_rows).contains_key(k) implies as_counts(new_rows)[k] == target[k] by {
                        let j = choose|j: int| 0 <= j < new_rows.len() && new_rows[j].0 == k;
                        if j != i {
                            assert(new_rows[j] == old_rows[j]);
                        }
                    }
                    assert(as_counts(new_rows) =~= target);
                    assert forall|k: Seq<char>| #[trigger] self.index@.contains_key(k) implies self.index@[k] < self.rows@.len()
                        && self.rows@[self.index@[k] as int].0@ == k by {
                        assert(new_rows[self.index@[k] as int] == entry_view(self.rows@[self.index@[k] as int]));
                        if self.index@[k] != i {
                            assert(new_rows[self.index@[k] as int] == old_rows[self.index@[k] as int]);
                            assert(old_rows[self.index@[k] as int] == entry_view(old(self).rows@[self.index@[k] as int]));
                        }
                    }
                    assert forall|j: int| 0 <= j < self.rows@.len() implies #[trigger] self.index@.contains_key(self.rows@[j].0@) by {
                        assert(new_rows[j] == entry_view(self.rows@[j]));
                        if j != i {
                            assert(new_rows[j] == old_rows[j]);
                            assert(old_rows[j] == entry_view(old(self).rows@[j]));
                            assert(old(self).index@.contains_key(old(self).rows@[j].0@));
                        } else {
                            assert(old(self).index@.contains_key(old(self).rows@[i as int].0@));
                        }
                    }
                }
            },
            None => {
                proof {
                    assert forall|j: int| 0 <= j < old_rows.len() implies old_rows[j].0 != domain@ by {
                        assert(old_rows[j] == entry_view(old(self).rows@[j]));
                        assert(old(self).index@.contains_key(old(self).rows@[j].0@));
                    }
                    assert(!as_counts(old_rows).contains_key(domain@));
                }
                let n = self.rows.len();
                self.index.insert(domain.to_owned(), n);
                self.rows.push((domain.to_owned(), 1));
                proof {
                    let new_rows = entries_view(self.rows@);
                    assert(new_rows =~= old_rows.push((domain@, 1u64)));
                    assert(new_rows.drop_last() =~= old_rows);
                    assert forall|k: Seq<char>| #[trigger] self.index@.contains_key(k) implies self.index@[k] < self.rows@.len()
                        && self.rows@[self.index@[k] as int].0@ == k by {
                        if k != domain@ {
                            assert(old(self).index@.contains_key(k));
                            assert(self.rows@[self.index@[k] as int] == old(self).rows@[self.index@[k] as int]);
                        }
                    }
                    assert forall|j: int| 0 <= j < self.rows@.len() implies #[trigger] self.index@.contains_key(self.rows@[j].0@) by {
                        if j < n {
                            assert(self.rows@[j] == old(self).rows@[j]);
                            assert(old(self).index@.contains_key(old(self).rows@[j].0@));
                        }
                    }
                }
            },
        }
    }

    fn top3(&self) -> (r: Vec<(String, u64)>)
        requires
            self.wf(),
        ensures
            is_top(self.counts(), entries_view(r@), TOP_N as nat),
    {
        top_entries(&self.rows, TOP_N)
    }
}

/// Leaderboard table for use behind a mutex.
pub struct MutexLeaderboard {
    counts: CountTable,
}

impl View for MutexLeaderboard {
    type V = Map<Seq<char>, u64>;

    closed spec fn view(&self) -> Map<Seq<char>, u64> {
        self.counts.counts()
    }
}

impl MutexLeaderboard {
    pub closed spec fn well_formed(&self) -> bool {
        self.counts.wf()
    }

    /// An empty leaderboard.
    pub fn new() -> (l: Self)
        ensures
            l.well_formed(),
            l@ == no_counts(),
    {
        MutexLeaderboard { counts: CountTable::new() }
    }

    /// Counts one edit on `domain`.
    pub fn increment(&mut self, domain: &str)
        requires
            old(self).well_formed(),
            can_bump(old(self)@, domain@),
        ensures
            final(self).well_formed(),
            final(self)@ == bumped(old(self)@, domain@),
    {
        self.counts.increment(domain)
    }

    /// The three most edited domains, by descending count, ties broken by
    /// ascending name.
    pub fn top3(&self) -> (r: Vec<(String, u64)>)
        requires
            self.well_formed(),
        ensures
            is_top(self@, entries_view(r@), TOP_N as nat),
    {
        self.counts.top3()
    }
}

impl Leaderboard for MutexLeaderboard {
    open spec fn counts(&self) -> Map<Seq<char>, u64> {
        self@
    }

    open spec fn wf(&self) -> bool {
        self.well_formed()
    }

    fn record(&mut self, domain: &str) {
        self.increment(domain)
    }

    fn top_3(&self) -> (r: Vec<(String, u64)>) {
        self.top3()
    }
}

/// Leaderboard table for use behind a reader-writer lock.
pub struct RwLockLeaderboard {
    counts: CountTable,
}

impl View for RwLockLeaderboard {
    type V = Map<Seq<char>, u64>;

    closed spec fn view(&self) -> Map<Seq<char>, u64> {
        self.counts.counts()
    }
}

impl RwLockLeaderboard {
    pub closed spec fn well_formed(&self) -> bool {
        self.counts.wf()
    }

    /// An empty leaderboard.
    pub fn new() -> (l: Self)
        ensures
            l.well_formed(),
            l@ == no_counts(),
    {
        RwLockLeaderboard { counts: CountTable::new() }
    }

    /// Counts one edit on `domain`.
    pub fn increment(&mut self, domain: &str)
        requires
            old(self).well_formed(),
            can_bump(old(self)@, domain@),
        ensures
            final(self).well_formed(),
            final(self)@ == bumped(old(self)@, domain@),
    {
        self.counts.increment(domain)
    }

    /// The three most edited domains, by descending count, ties broken by
    /// ascending name.
    pub fn top3(&self) -> (r: Vec<(String, u64)>)
        requires
            self.well_formed(),
        ensures
            is_top(self@, entries_view(r@), TOP_N as nat),
    {
        self.counts.top3()
    }
}

impl Leaderboard for RwLockLeaderboard {
    open spec fn counts(&self) -> Map<Seq<char>, u64> {
        self@
    }

    open spec fn wf(&self) -> bool {
        self.well_formed()
    }

    fn record(&mut self, domain: &str) {
        self.increment(domain)
    }

    fn top_3(&self) -> (r: Vec<(String, u64)>) {
        self.top3()
    }
}

#[verifier::external_type_specification]
#[verifier::external_body]
#[verifier::reject_recursive_types(K)]
#[verifier::reject_recursive_types(V)]
#[verifier::reject_recursive_types(S)]
pub struct ExDashMap<K, V, S>(DashMap<K, V, S>);

/// The domain-to-count map held by a `DashMap`.
pub uninterp spec fn dashmap_counts(m: DashMap<String, u64>) -> Map<Seq<char>, u64>;

/// `DashMap::new`: an empty map.
#[verifier::external_body]
fn dashmap_new() -> (r: DashMap<String, u64>)
    ensures
        dashmap_counts(r) == no_counts(),
{
    DashMap::new()
}

/// `DashMap::get`: the count stored under `domain`, copied out of the guard.
#[verifier::external_body]
fn dashmap_get(m: &DashMap<String, u64>, domain: &str) -> (r: Option<u64>)
    ensures
        match r {
            Some(v) => dashmap_counts(*m).contains_key(domain@) && dashmap_counts(*m)[domain@] == v,
            None => !dashmap_counts(*m).contains_key(domain@),
        },
{
    m.get(domain).map(|e| *e.value())
}

/// `DashMap::insert`: stores `count` under `domain`, replacing any earlier
/// count.
#[verifier::external_body]
fn dashmap_insert(m: &mut DashMap<String, u64>, domain: String, count: u64)
    ensures
        dashmap_counts(*final(m)) == dashmap_counts(*old(m)).insert(domain@, count),
{
    m.insert(domain, count);
}

/// `DashMap::iter`: every (domain, count) pair once, in the map's own order,
/// which the contract leaves open.
#[verifier::external_body]
fn dashmap_entries(m: &DashMap<String, u64>) -> (r: Vec<(String, u64)>)
    ensures
        names_distinct(entries_view(r@)),
        as_counts(entries_view(r@)) == dashmap_counts(*m),
{
    m.iter().map(|e| (e.key().clone(), *e.value())).collect()
}

/// Leaderboard whose counts live in a sharded concurrent map.
pub struct AtomicLeaderboard {
    counts: DashMap<String, u64>,
}

impl View for AtomicLeaderboard {
    type V = Map<Seq<char>, u64>;

    closed spec fn view(&self) -> Map<Seq<char>, u64> {
        dashmap_counts(self.counts)
    }
}

impl AtomicLeaderboard {
    /// An empty leaderboard.
    pub fn new() -> (l: Self)
        ensures
            l@ == no_counts(),
    {
        AtomicLeaderboard { counts: dashmap_new() }
    }

    /// Counts one edit on `domain`; a count at `u64::MAX` wraps to 0.
    pub fn increment(&mut self, domain: &str)
        ensures
            final(self)@ == bumped_wrapping(old(self)@, domain@),
    {
        match dashmap_get(&self.counts, domain) {
            Some(count) => {
                dashmap_insert(&mut self.counts, domain.to_owned(), count.wrapping_add(1));
            },
            None => {
                dashmap_insert(&mut self.counts, domain.to_owned(), 1);
            },
        }
    }

    /// The three most edited domains, by descending count, ties broken by
    /// ascending name.
    pub fn top3(&self) -> (r: Vec<(String, u64)>)
        ensures
            is_top(self@, entries_view(r@), TOP_N as nat),
    {
        let entries = dashmap_entries(&self.counts);
        top_entries(&entries, TOP_N)
    }
}

impl Leaderboard for AtomicLeaderboard {
    open spec fn counts(&self) -> Map<Seq<char>, u64> {
        self@
    }

    open spec fn wf(&self) -> bool {
        true
    }

    fn record(&mut self, domain: &str) {
        self.increment(domain)
    }

    fn top_3(&self) -> (r: Vec<(String, u64)>) {
        self.top3()
    }
}

} // verus!
