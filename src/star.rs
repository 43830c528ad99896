use crate::pane_id::{contains_pane, is_pane_key, key_of, lemma_key_round_trip, pane_of_key, PaneId};
use indexmap::IndexSet;
use vstd::prelude::*;

verus! {

#[verifier::external_type_specification]
#[verifier::external_body]
#[verifier::reject_recursive_types(T)]
#[verifier::reject_recursive_types(S)]
pub struct ExIndexSet<T, S>(IndexSet<T, S>);

/// The keys that an `IndexSet` holds, in the order in which they were inserted.
pub uninterp spec fn set_keys(s: IndexSet<u64>) -> Seq<u64>;

/// Relies on `IndexSet::new`: a new set holds nothing.
#[verifier::external_body]
fn empty_keys() -> (r: IndexSet<u64>)
    ensures
        set_keys(r) == Seq::<u64>::empty(),
{
    IndexSet::new()
}

/// Relies on `IndexSet::len`: the number of keys held.
#[verifier::external_body]
fn key_count(s: &IndexSet<u64>) -> (r: usize)
    ensures
        r == set_keys(*s).len(),
{
    s.len()
}

/// Relies on `IndexSet::contains`: whether the key is held.
#[verifier::external_body]
fn holds_key(s: &IndexSet<u64>, k: u64) -> (r: bool)
    ensures
        r == set_keys(*s).contains(k),
{
    s.contains(&k)
}

/// Relies on `IndexSet::insert`: a key that is not held goes last; a key that
/// is held leaves the set as it was. Returns whether the key was new.
#[verifier::external_body]
fn insert_key(s: &mut IndexSet<u64>, k: u64) -> (r: bool)
    ensures
        r == !set_keys(*old(s)).contains(k),
        set_keys(*final(s)) == if r {
            set_keys(*old(s)).push(k)
        } else {
            set_keys(*old(s))
        },
{
    s.insert(k)
}

/// Relies on `IndexSet::shift_remove`: the key leaves the set and the others
/// keep their relative order. Returns whether the key was held.
#[verifier::external_body]
fn remove_key(s: &mut IndexSet<u64>, k: u64) -> (r: bool)
    ensures
        r == set_keys(*old(s)).contains(k),
        set_keys(*final(s)) == set_keys(*old(s)).filter(|x: u64| x != k),
{
    s.shift_remove(&k)
}

/// Relies on `IndexSet::get_index_of`: the position of a held key.
#[verifier::external_body]
fn position_of_key(s: &IndexSet<u64>, k: u64) -> (r: Option<usize>)
    ensures
        match r {
            Some(i) => i < set_keys(*s).len() && set_keys(*s)[i as int] == k,
            None => !set_keys(*s).contains(k),
        },
{
    s.get_index_of(&k)
}

/// Relies on `IndexSet::get_index`: the key at a position, if there is one.
#[verifier::external_body]
fn key_at(s: &IndexSet<u64>, i: usize) -> (r: Option<u64>)
    ensures
        i < set_keys(*s).len() ==> r == Some(set_keys(*s)[i as int]),
        i >= set_keys(*s).len() ==> r is None,
{
    s.get_index(i).copied()
}

/// Relies on `IndexSet::retain`, which keeps, in their order, the keys for
/// which the predicate holds; the predicate is `listed_key`.
#[verifier::external_body]
fn retain_listed(s: &mut IndexSet<u64>, live: &[PaneId])
    ensures
        set_keys(*final(s)) == set_keys(*old(s)).filter(|k: u64| live@.contains(pane_of_key(k))),
{
    s.retain(|k| listed_key(live, *k))
}

/// Whether the pane that `k` stands for is in `live`.
fn listed_key(live: &[PaneId], k: u64) -> (r: bool)
    ensures
        r == live@.contains(pane_of_key(k)),
{
    contains_pane(live, PaneId::from_key(k))
}

/// Holds of every pane but `x`.
pub open spec fn other_than(x: PaneId) -> spec_fn(PaneId) -> bool {
    |y: PaneId| y != x
}

/// The sequence without `x`, the others in their order.
pub open spec fn without(s: Seq<PaneId>, x: PaneId) -> Seq<PaneId> {
    s.filter(other_than(x))
}

/// The sequence after `toggle(x)`: `x` leaves if it is there, else it goes last.
pub open spec fn toggled(s: Seq<PaneId>, x: PaneId) -> Seq<PaneId> {
    if s.contains(x) {
        without(s, x)
    } else {
        s.push(x)
    }
}

/// The sequence after `sync(live)`: what is in `live` stays, in its order.
pub open spec fn synced(s: Seq<PaneId>, live: Seq<PaneId>) -> Seq<PaneId> {
    s.filter(|y: PaneId| live.contains(y))
}

/// The star after `x` in the ring; the first star when `x` is not starred.
pub open spec fn star_after(s: Seq<PaneId>, x: PaneId) -> Option<PaneId> {
    if s.len() == 0 {
        None
    } else if s.contains(x) {
        Some(s[(s.index_of(x) + 1) % (s.len() as int)])
    } else {
        Some(s[0])
    }
}

/// The star before `x` in the ring; the first star when `x` is not starred.
pub open spec fn star_before(s: Seq<PaneId>, x: PaneId) -> Option<PaneId> {
    if s.len() == 0 {
        None
    } else if s.contains(x) {
        Some(s[(s.index_of(x) + s.len() - 1) % (s.len() as int)])
    } else {
        Some(s[0])
    }
}

/// The panes that the keys stand for.
pub open spec fn panes_of_keys(ks: Seq<u64>) -> Seq<PaneId> {
    ks.map_values(|k: u64| pane_of_key(k))
}

/// Keys that are all distinct and all produced by `key_of`.
pub open spec fn keys_valid(ks: Seq<u64>) -> bool {
    &&& ks.no_duplicates()
    &&& forall|i: int| 0 <= i < ks.len() ==> is_pane_key(#[trigger] ks[i])
}

/// Filtering keeps keys valid, and keeps only keys that were there and pass.
proof fn lemma_filter_keeps_valid(ks: Seq<u64>, p: spec_fn(u64) -> bool)
    requires
        keys_valid(ks),
    ensures
        keys_valid(ks.filter(p)),
        forall|k: u64| ks.filter(p).contains(k) ==> ks.contains(k) && p(k),
    decreases ks.len(),
{
    reveal(Seq::filter);
    broadcast use vstd::seq_lib::group_seq_lib_default;

    if ks.len() > 0 {
        let init = ks.drop_last();
        assert(keys_valid(init)) by {
            assert forall|i: int, j: int|
                0 <= i < init.len() && 0 <= j < init.len() && i != j implies init[i]
                != init[j] by {
                assert(ks[i] == init[i] && ks[j] == init[j]);
            }
            assert forall|i: int| 0 <= i < init.len() implies is_pane_key(#[trigger] init[i]) by {
                assert(ks[i] == init[i]);
            }
        }
        lemma_filter_keeps_valid(init, p);
        let last = ks.last();
        assert(!init.contains(last)) by {
            if init.contains(last) {
                let j = choose|j: int| 0 <= j < init.len() && init[j] == last;
                assert(ks[j] == ks[ks.len() - 1]);
            }
        }
        assert(is_pane_key(ks[ks.len() - 1]));
        let sub = init.filter(p);
        assert forall|k: u64| sub.contains(k) implies ks.contains(k) && p(k) by {
            assert(init.contains(k) && p(k));
            let m = choose|m: int| 0 <= m < init.len() && init[m] == k;
            assert(ks[m] == k);
        }
        if p(last) {
            assert forall|k: u64| sub.push(last).contains(k) implies ks.contains(k) && p(k) by {
                if k == last {
                    assert(ks[ks.len() - 1] == last);
                } else {
                    let j = choose|j: int| 0 <= j < sub.push(last).len() && sub.push(last)[j] == k;
                    assert(sub[j] == k);
                }
            }
            assert forall|i: int, j: int|
                0 <= i < sub.push(last).len() && 0 <= j < sub.push(last).len() && i != j
                implies sub.push(last)[i] != sub.push(last)[j] by {
                if i == sub.len() {
                    assert(sub.contains(sub[j]));
                } else if j == sub.len() {
                    assert(sub.contains(sub[i]));
                }
            }
            assert forall|i: int| 0 <= i < sub.push(last).len() implies is_pane_key(
                #[trigger] sub.push(last)[i],
            ) by {
                if i < sub.len() {
                    assert(sub[i] == sub.push(last)[i]);
                }
            }
        }
    }
}

/// Filtering keys and then reading them as panes is filtering the panes by the
/// matching predicate.
proof fn lemma_filter_panes(ks: Seq<u64>, kp: spec_fn(u64) -> bool, pp: spec_fn(PaneId) -> bool)
    requires
        forall|i: int| 0 <= i < ks.len() ==> kp(#[trigger] ks[i]) == pp(pane_of_key(ks[i])),
    ensures
        panes_of_keys(ks.filter(kp)) == panes_of_keys(ks).filter(pp),
    decreases ks.len(),
{
    reveal(Seq::filter);
    if ks.len() > 0 {
        let init = ks.drop_last();
        assert forall|i: int| 0 <= i < init.len() implies kp(#[trigger] init[i]) == pp(
            pane_of_key(init[i]),
        ) by {
            assert(ks[i] == init[i]);
        }
        lemma_filter_panes(init, kp, pp);
        assert(panes_of_keys(ks).drop_last() =~= panes_of_keys(init));
        assert(kp(ks[ks.len() - 1]) == pp(pane_of_key(ks[ks.len() - 1])));
        if kp(ks.last()) {
            assert(panes_of_keys(init.filter(kp).push(ks.last())) =~= panes_of_keys(
                init.filter(kp),
            ).push(pane_of_key(ks.last())));
        }
    } else {
        assert(panes_of_keys(ks) =~= Seq::<PaneId>::empty());
    }
}

/// Over valid keys, a pane is among the panes exactly when its key is among the keys.
proof fn lemma_contains_pane(ks: Seq<u64>, x: PaneId)
    requires
        keys_valid(ks),
    ensures
        panes_of_keys(ks).contains(x) == ks.contains(key_of(x)),
{
    lemma_key_round_trip(x);
    if ks.contains(key_of(x)) {
        let i = choose|i: int| 0 <= i < ks.len() && ks[i] == key_of(x);
        assert(panes_of_keys(ks)[i] == x);
    }
    if panes_of_keys(ks).contains(x) {
        let i = choose|i: int| 0 <= i < ks.len() && panes_of_keys(ks)[i] == x;
        assert(is_pane_key(ks[i]));
        crate::pane_id::lemma_pane_round_trip(ks[i]);
    }
}

/// Over valid keys, the panes are distinct too.
proof fn lemma_panes_distinct(ks: Seq<u64>)
    requires
        keys_valid(ks),
    ensures
        panes_of_keys(ks).no_duplicates(),
{
    assert forall|i: int, j: int|
        0 <= i < ks.len() && 0 <= j < ks.len() && i != j implies panes_of_keys(ks)[i]
        != panes_of_keys(ks)[j] by {
        assert(is_pane_key(ks[i]) && is_pane_key(ks[j]));
        crate::pane_id::lemma_pane_round_trip(ks[i]);
        crate::pane_id::lemma_pane_round_trip(ks[j]);
    }
}

/// `x` stands before `y` in `s`.
pub open spec fn stands_before(s: Seq<PaneId>, x: PaneId, y: PaneId) -> bool {
    exists|p: int, q: int| 0 <= p < q < s.len() && #[trigger] s[p] == x && #[trigger] s[q] == y
}

/// Two elements of `r` stand in `s` in the order in which they stand in `r`.
pub open spec fn keeps_order(r: Seq<PaneId>, s: Seq<PaneId>) -> bool {
    forall|i: int, j: int|
        #![trigger r[i], r[j]]
        0 <= i < j < r.len() ==> stands_before(s, r[i], r[j])
}

proof fn lemma_filter_keeps_order(s: Seq<PaneId>, pred: spec_fn(PaneId) -> bool)
    ensures
        keeps_order(s.filter(pred), s),
    decreases s.len(),
{
    reveal(Seq::filter);
    broadcast use vstd::seq_lib::group_seq_lib_default;

    if s.len() > 0 {
        let init = s.drop_last();
        lemma_filter_keeps_order(init, pred);
        let sub = init.filter(pred);
        let r = s.filter(pred);
        assert forall|i: int, j: int|
            #![trigger r[i], r[j]]
            0 <= i < j < r.len() implies stands_before(s, r[i], r[j]) by {
            if j < sub.len() {
                assert(r[i] == sub[i] && r[j] == sub[j]);
                assert(stands_before(init, sub[i], sub[j]));
                let (p, q) = choose|p: int, q: int|
                    0 <= p < q < init.len() && #[trigger] init[p] == sub[i] && #[trigger] init[q]
                        == sub[j];
                assert(s[p] == init[p] && s[q] == init[q]);
            } else {
                assert(r[i] == sub[i]);
                assert(sub.contains(sub[i]));
                init.lemma_filter_contains_rev(pred, sub[i]);
                let p = choose|p: int| 0 <= p < init.len() && init[p] == sub[i];
                assert(s[p] == init[p]);
                assert(s[s.len() - 1] == r[j]);
                assert(s[p] == r[i]);
            }
        }
    }
}

proof fn lemma_filter_keeps_all(s: Seq<PaneId>, pred: spec_fn(PaneId) -> bool)
    requires
        forall|i: int| 0 <= i < s.len() ==> pred(#[trigger] s[i]),
    ensures
        s.filter(pred) == s,
    decreases s.len(),
{
    reveal(Seq::filter);
    if s.len() > 0 {
        let init = s.drop_last();
        assert forall|i: int| 0 <= i < init.len() implies pred(#[trigger] init[i]) by {
            assert(init[i] == s[i]);
        }
        lemma_filter_keeps_all(init, pred);
        assert(pred(s[s.len() - 1]));
        assert(init.push(s.last()) =~= s);
    }
}

/// Toggling a pane twice leaves the ring as it was, both its members and
/// their order, when the pane was not starred or was the last star. (A star
/// in the middle of the ring comes back at its end.)
pub proof fn lemma_toggle_twice(s: Seq<PaneId>, x: PaneId)
    requires
        s.no_duplicates(),
        !s.contains(x) || s.last() == x,
    ensures
        toggled(toggled(s, x), x) == s,
{
    broadcast use vstd::seq_lib::group_seq_lib_default;
    broadcast use Seq::lemma_filter_push;

    if !s.contains(x) {
        assert(s.push(x)[s.len() as int] == x);
        assert(s.push(x).contains(x));
        assert forall|i: int| 0 <= i < s.len() implies other_than(x)(#[trigger] s[i]) by {
            if s[i] == x {
                assert(s.contains(x));
            }
        }
        lemma_filter_keeps_all(s, other_than(x));
        assert(s.push(x).filter(other_than(x)) == s.filter(other_than(x)));
    } else {
        let init = s.drop_last();
        assert(init.push(x) =~= s);
        assert(!init.contains(x)) by {
            if init.contains(x) {
                let j = choose|j: int| 0 <= j < init.len() && init[j] == x;
                assert(s[j] == s[s.len() - 1]);
            }
        }
        assert forall|i: int| 0 <= i < init.len() implies other_than(x)(#[trigger] init[i]) by {
            if init[i] == x {
                assert(init.contains(x));
            }
        }
        lemma_filter_keeps_all(init, other_than(x));
        assert(init.push(x).filter(other_than(x)) == init.filter(other_than(x)));
    }
}

/// A ring of one star leads from that star back to itself, both ways.
pub proof fn lemma_single_star_loops(x: PaneId)
    ensures
        star_after(seq![x], x) == Some(x),
        star_before(seq![x], x) == Some(x),
{
    let s = seq![x];
    assert(s[0] == x);
    assert(s.contains(x));
    assert(s.index_of(x) == 0);
}

/// In a ring of three distinct stars the last leads to the first, and the
/// first leads back to the last.
pub proof fn lemma_ring_wraps(a: PaneId, b: PaneId, c: PaneId)
    requires
        a != b,
        b != c,
        a != c,
    ensures
        star_after(seq![a, b, c], c) == Some(a),
        star_before(seq![a, b, c], a) == Some(c),
{
    let s = seq![a, b, c];
    assert(s[0] == a && s[1] == b && s[2] == c);
    assert(s.contains(c));
    assert(s.contains(a));
    assert(s.index_of(c) == 2);
    assert(s.index_of(a) == 0);
}

/// After a sync every remaining star is live and was starred before, the
/// ring does not grow, and the stars that remain keep their order.
pub proof fn lemma_sync_law(s: Seq<PaneId>, live: Seq<PaneId>)
    ensures
        forall|x: PaneId| #[trigger] synced(s, live).contains(x) ==> live.contains(x) && s.contains(x),
        synced(s, live).len() <= s.len(),
        keeps_order(synced(s, live), s),
        s.no_duplicates() ==> forall|i: int, j: int|
            #![trigger synced(s, live)[i], synced(s, live)[j]]
            0 <= i < j < synced(s, live).len() ==> s.index_of(synced(s, live)[i]) < s.index_of(
                synced(s, live)[j],
            ),
{
    broadcast use vstd::seq_lib::group_seq_lib_default;

    let pred = |y: PaneId| live.contains(y);
    assert forall|x: PaneId| #[trigger] synced(s, live).contains(x) implies live.contains(x)
        && s.contains(x) by {
        let i = choose|i: int| 0 <= i < s.filter(pred).len() && s.filter(pred)[i] == x;
        assert(pred(s.filter(pred)[i]));
        s.lemma_filter_contains_rev(pred, x);
    }
    lemma_filter_keeps_order(s, pred);
    if s.no_duplicates() {
        lemma_order_by_index(synced(s, live), s);
    }
}

/// In a sequence without duplicates, standing before is having the smaller index.
proof fn lemma_order_by_index(r: Seq<PaneId>, s: Seq<PaneId>)
    requires
        s.no_duplicates(),
        keeps_order(r, s),
    ensures
        forall|i: int, j: int|
            #![trigger r[i], r[j]]
            0 <= i < j < r.len() ==> s.index_of(r[i]) < s.index_of(r[j]),
{
    assert forall|i: int, j: int|
        #![trigger r[i], r[j]]
        0 <= i < j < r.len() implies s.index_of(r[i]) < s.index_of(r[j]) by {
        assert(stands_before(s, r[i], r[j]));
        let (p, q) = choose|p: int, q: int|
            0 <= p < q < s.len() && #[trigger] s[p] == r[i] && #[trigger] s[q] == r[j];
        assert(s.contains(r[i]));
        assert(s.contains(r[j]));
        let a = s.index_of(r[i]);
        let b = s.index_of(r[j]);
        assert(s[a] == r[i] && s[b] == r[j]);
        assert(a == p);
        assert(b == q);
    }
}

/// The starred panes, in the order in which they were starred, each at most once.
pub struct Star {
    pane_ids: IndexSet<u64>,
}

impl View for Star {
    type V = Seq<PaneId>;

    closed spec fn view(&self) -> Seq<PaneId> {
        panes_of_keys(set_keys(self.pane_ids))
    }
}

impl Star {
    #[verifier::type_invariant]
    spec fn inv(self) -> bool {
        keys_valid(set_keys(self.pane_ids))
    }

    pub fn new() -> (r: Star)
        ensures
            r@ == Seq::<PaneId>::empty(),
    {
        let r = Star { pane_ids: empty_keys() };
        assert(r@ =~= Seq::<PaneId>::empty());
        r
    }

    /// Stars a pane; a pane that is starred already keeps its place.
    pub fn add(&mut self, pane_id: PaneId)
        ensures
            final(self)@ == if old(self)@.contains(pane_id) {
                old(self)@
            } else {
                old(self)@.push(pane_id)
            },
            old(self)@.no_duplicates(),
            final(self)@.no_duplicates(),
    {
        proof {
            use_type_invariant(&*self);
            lemma_panes_distinct(set_keys(self.pane_ids));
            lemma_contains_pane(set_keys(self.pane_ids), pane_id);
            lemma_key_round_trip(pane_id);
        }
        let mut ids = empty_keys();
        std::mem::swap(&mut ids, &mut self.pane_ids);
        let ghost before = set_keys(ids);
        let k = pane_id.key();
        let added = insert_key(&mut ids, k);
        proof {
            if added {
                assert(keys_valid(set_keys(ids))) by {
                    assert forall|i: int| 0 <= i < set_keys(ids).len() implies is_pane_key(
                        #[trigger] set_keys(ids)[i],
                    ) by {
                        if i < before.len() {
                            assert(set_keys(ids)[i] == before[i]);
                        }
                    }
                    assert forall|i: int, j: int|
                        0 <= i < set_keys(ids).len() && 0 <= j < set_keys(ids).len() && i
                            != j implies set_keys(ids)[i] != set_keys(ids)[j] by {
                        if i == before.len() {
                            assert(before.contains(set_keys(ids)[j]));
                        } else if j == before.len() {
                            assert(before.contains(set_keys(ids)[i]));
                        }
                    }
                }
                assert(panes_of_keys(set_keys(ids)) =~= panes_of_keys(before).push(pane_id));
            }
        }
        self.pane_ids = ids;
        proof {
            use_type_invariant(&*self);
            lemma_panes_distinct(set_keys(self.pane_ids));
        }
    }

    /// Unstars a pane; the other stars keep their order.
    pub fn remove(&mut self, pane_id: &PaneId)
        ensures
            final(self)@ == without(old(self)@, *pane_id),
            old(self)@.no_duplicates(),
            final(self)@.no_duplicates(),
    {
        proof {
            use_type_invariant(&*self);
            lemma_panes_distinct(set_keys(self.pane_ids));
        }
        let mut ids = empty_keys();
        std::mem::swap(&mut ids, &mut self.pane_ids);
        let ghost before = set_keys(ids);
        let k = pane_id.key();
        remove_key(&mut ids, k);
        proof {
            let kp = |x: u64| x != k;
            let pp = other_than(*pane_id);
            assert forall|i: int| 0 <= i < before.len() implies kp(#[trigger] before[i]) == pp(
                pane_of_key(before[i]),
            ) by {
                lemma_key_round_trip(*pane_id);
                crate::pane_id::lemma_pane_round_trip(before[i]);
            }
            lemma_filter_panes(before, kp, pp);
            lemma_filter_keeps_valid(before, kp);
        }
        self.pane_ids = ids;
        proof {
            use_type_invariant(&*self);
            lemma_panes_distinct(set_keys(self.pane_ids));
        }
    }

    /// Drops every star whose pane is not in `pane_ids`; the others keep their order.
    pub fn sync(&mut self, pane_ids: &[PaneId])
        ensures
            final(self)@ == synced(old(self)@, pane_ids@),
            old(self)@.no_duplicates(),
            final(self)@.no_duplicates(),
            forall|i: int, j: int|
                #![trigger final(self)@[i], final(self)@[j]]
                0 <= i < j < final(self)@.len() ==> old(self)@.index_of(final(self)@[i]) < old(
                    self)@.index_of(final(self)@[j]),
    {
        proof {
            use_type_invariant(&*self);
            lemma_panes_distinct(set_keys(self.pane_ids));
            lemma_sync_law(self@, pane_ids@);
        }
        let mut ids = empty_keys();
        std::mem::swap(&mut ids, &mut self.pane_ids);
        let ghost before = set_keys(ids);
        retain_listed(&mut ids, pane_ids);
        proof {
            let kp = |k: u64| pane_ids@.contains(pane_of_key(k));
            let pp = |y: PaneId| pane_ids@.contains(y);
            lemma_filter_panes(before, kp, pp);
            lemma_filter_keeps_valid(before, kp);
            lemma_panes_distinct(set_keys(ids));
        }
        self.pane_ids = ids;
    }

    /// Whether the pane is starred.
    pub fn has(&self, pane_id: &PaneId) -> (r: bool)
        ensures
            r == self@.contains(*pane_id),
            self@.no_duplicates(),
    {
        proof {
            use_type_invariant(self);
            lemma_panes_distinct(set_keys(self.pane_ids));
            lemma_contains_pane(set_keys(self.pane_ids), *pane_id);
        }
        holds_key(&self.pane_ids, pane_id.key())
    }

    /// Unstars a starred pane; stars an unstarred one, last in the ring.
    pub fn toggle(&mut self, pane_id: PaneId)
        ensures
            final(self)@ == toggled(old(self)@, pane_id),
            old(self)@.no_duplicates(),
            final(self)@.no_duplicates(),
    {
        if self.has(&pane_id) {
            self.remove(&pane_id);
        } else {
            self.add(pane_id);
        }
        proof {
            use_type_invariant(&*self);
            lemma_panes_distinct(set_keys(self.pane_ids));
        }
    }

    /// The starred panes, in ring order.
    pub fn to_vec(&self) -> (r: Vec<PaneId>)
        ensures
            r@ == self@,
            self@.no_duplicates(),
    {
        proof {
            use_type_invariant(self);
            lemma_panes_distinct(set_keys(self.pane_ids));
        }
        let len = key_count(&self.pane_ids);
        let mut r: Vec<PaneId> = Vec::new();
        let mut i: usize = 0;
        while i < len
            invariant
                0 <= i <= len,
                len == self@.len(),
                r@ == self@.take(i as int),
            decreases len - i,
        {
            match self.star_at(i) {
                Some(p) => r.push(p),
                None => {},
            }
            i = i + 1;
            assert(r@ =~= self@.take(i as int));
        }
        assert(self@.take(len as int) =~= self@);
        r
    }

    /// The star at a position of the ring.
    fn star_at(&self, i: usize) -> (r: Option<PaneId>)
        ensures
            i < self@.len() ==> r == Some(self@[i as int]),
            i >= self@.len() ==> r is None,
    {
        match key_at(&self.pane_ids, i) {
            Some(k) => Some(PaneId::from_key(k)),
            None => None,
        }
    }

    /// The position of a starred pane.
    fn position(&self, pane_id: &PaneId) -> (r: Option<usize>)
        ensures
            match r {
                Some(i) => i < self@.len() && self@.contains(*pane_id) && self@.index_of(*pane_id) == i,
                None => !self@.contains(*pane_id),
            },
    {
        proof {
            use_type_invariant(self);
            lemma_contains_pane(set_keys(self.pane_ids), *pane_id);
            lemma_panes_distinct(set_keys(self.pane_ids));
        }
        let r = position_of_key(&self.pane_ids, pane_id.key());
        proof {
            if let Some(i) = r {
                let s = self@;
                lemma_key_round_trip(*pane_id);
                assert(s[i as int] == *pane_id);
                assert(s.contains(*pane_id));
                let j = s.index_of(*pane_id);
                assert(s[j] == *pane_id);
            }
        }
        r
    }

    /// The star after `pane_id` in the ring, wrapping from the last to the
    /// first; the first star when `pane_id` is not starred.
    pub fn next(&self, pane_id: &PaneId) -> (r: Option<PaneId>)
        ensures
            r == star_after(self@, *pane_id),
            self@.no_duplicates(),
    {
        proof {
            use_type_invariant(self);
            lemma_panes_distinct(set_keys(self.pane_ids));
        }
        let len = key_count(&self.pane_ids);
        if len == 0 {
            return None;
        }
        match self.position(pane_id) {
            Some(index) => {
                let next_index = (index + 1) % len;
                self.star_at(next_index)
            },
            None => self.star_at(0),
        }
    }

    /// The star before `pane_id` in the ring, wrapping from the first to the
    /// last; the first star when `pane_id` is not starred.
    pub fn previous(&self, pane_id: &PaneId) -> (r: Option<PaneId>)
        ensures
            r == star_before(self@, *pane_id),
            self@.no_duplicates(),
    {
        proof {
            use_type_invariant(self);
            lemma_panes_distinct(set_keys(self.pane_ids));
        }
        let len = key_count(&self.pane_ids);
        if len == 0 {
            return None;
        }
        match self.position(pane_id) {
            Some(index) => {
                let prev_index = if index == 0 {
                    len - 1
                } else {
                    index - 1
                };
                proof {
                    if index == 0 {
                        vstd::arithmetic::div_mod::lemma_small_mod((len - 1) as nat, len as nat);
                    } else {
                        vstd::arithmetic::div_mod::lemma_mod_add_multiples_vanish(index - 1, len as int);
                        vstd::arithmetic::div_mod::lemma_small_mod((index - 1) as nat, len as nat);
                    }
                }
                self.star_at(prev_index)
            },
            None => self.star_at(0),
        }
    }
}

impl Default for Star {
    fn default() -> (r: Star)
        ensures
            r@ == Seq::<PaneId>::empty(),
    {
        Star::new()
    }
}

} // verus!
