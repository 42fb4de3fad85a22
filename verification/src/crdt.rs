//! Replicated data types: a grow-only counter and a last-write-wins register.
//!
//! A `GCounter` keeps one count per node in a hash map. Merging takes the
//! larger count of each node, so replicas that exchange state converge.

use vstd::prelude::*;
use std::collections::HashMap;

verus! {

broadcast use vstd::std_specs::hash::group_hash_axioms;

/// The count recorded for `node` (zero when the node never counted).
pub open spec fn count_of(m: Map<u64, u64>, node: u64) -> nat {
    if m.contains_key(node) { m[node] as nat } else { 0 }
}

/// The stored count for `node`, zero when there is none.
pub open spec fn stored(m: Map<u64, u64>, node: u64) -> u64 {
    if m.contains_key(node) { m[node] } else { 0 }
}

pub open spec fn max_u64(a: u64, b: u64) -> u64 {
    if a >= b { a } else { b }
}

/// Node-wise maximum of two count maps.
pub open spec fn merge_counts(a: Map<u64, u64>, b: Map<u64, u64>) -> Map<u64, u64> {
    Map::new(
        |k: u64| a.contains_key(k) || b.contains_key(k),
        |k: u64| max_u64(stored(a, k), stored(b, k)),
    )
}

/// The counts after `node` counts once more.
pub open spec fn increment(m: Map<u64, u64>, node: u64) -> Map<u64, u64> {
    m.insert(node, (stored(m, node) + 1) as u64)
}

/// The sum of all counts of a finite map.
pub open spec fn total(m: Map<u64, u64>) -> nat
    decreases m.dom().len(),
    when m.dom().finite()
{
    if m.dom().len() == 0 {
        0
    } else {
        let k = m.dom().choose();
        m[k] as nat + total(m.remove(k))
    }
}

/// Counts are kept for finitely many nodes, and a node that is present has
/// counted at least once.
pub open spec fn valid_counts(m: Map<u64, u64>) -> bool {
    &&& m.dom().finite()
    &&& forall|k: u64| #[trigger] m.contains_key(k) ==> m[k] > 0
}

/// The sum of all counts is the count of any one node plus the sum of the
/// others.
pub proof fn lemma_total_remove(m: Map<u64, u64>, k: u64)
    requires
        m.dom().finite(),
        m.contains_key(k),
    ensures
        total(m) == m[k] + total(m.remove(k)),
    decreases m.dom().len(),
{
    assert(m.dom().contains(k));
    let c = m.dom().choose();
    if c != k {
        let mc = m.remove(c);
        let mk = m.remove(k);
        lemma_total_remove(mc, k);
        lemma_total_remove(mk, c);
        assert(mc.remove(k) =~= mk.remove(c));
    }
}

/// A sub-map sums to no more than the map.
pub proof fn lemma_total_submap(a: Map<u64, u64>, b: Map<u64, u64>)
    requires
        b.dom().finite(),
        a.submap_of(b),
    ensures
        a.dom().finite(),
        total(a) <= total(b),
    decreases b.dom().len(),
{
    vstd::set_lib::lemma_len_subset(a.dom(), b.dom());
    if a.dom().len() > 0 {
        let k = a.dom().choose();
        lemma_total_remove(a, k);
        lemma_total_remove(b, k);
        lemma_total_submap(a.remove(k), b.remove(k));
    }
}

/// A map whose every count is at least another's sums to at least as much.
pub proof fn lemma_total_dominated(a: Map<u64, u64>, b: Map<u64, u64>)
    requires
        a.dom().finite(),
        b.dom().finite(),
        forall|n: u64| #[trigger] count_of(a, n) <= count_of(b, n),
    ensures
        total(a) <= total(b),
    decreases a.dom().len(),
{
    if a.dom().len() > 0 {
        let k = a.dom().choose();
        lemma_total_remove(a, k);
        let a2 = a.remove(k);
        if b.contains_key(k) {
            lemma_total_remove(b, k);
            let b2 = b.remove(k);
            assert forall|n: u64| #[trigger] count_of(a2, n) <= count_of(b2, n) by {
                assert(count_of(a, n) <= count_of(b, n));
            }
            lemma_total_dominated(a2, b2);
        } else {
            assert(count_of(a, k) <= count_of(b, k));
            assert forall|n: u64| #[trigger] count_of(a2, n) <= count_of(b, n) by {
                assert(count_of(a, n) <= count_of(b, n));
            }
            lemma_total_dominated(a2, b);
        }
    }
}

/// A merged counter's value is at least the value of either side.
pub proof fn lemma_merge_value_grows(a: Map<u64, u64>, b: Map<u64, u64>)
    requires
        a.dom().finite(),
        b.dom().finite(),
    ensures
        merge_counts(a, b).dom().finite(),
        total(a) <= total(merge_counts(a, b)),
        total(b) <= total(merge_counts(a, b)),
{
    let m = merge_counts(a, b);
    assert(m.dom() =~= a.dom().union(b.dom()));
    assert forall|n: u64| #[trigger] count_of(a, n) <= count_of(m, n) by {
        lemma_merge_count(a, b, n);
    }
    assert forall|n: u64| #[trigger] count_of(b, n) <= count_of(m, n) by {
        lemma_merge_count(a, b, n);
    }
    lemma_total_dominated(a, m);
    lemma_total_dominated(b, m);
}

/// No node's count exceeds the sum of all counts, so a counter whose value
/// is below `u64::MAX` can count once more.
pub proof fn lemma_count_le_total(m: Map<u64, u64>, node: u64)
    requires
        m.dom().finite(),
    ensures
        count_of(m, node) <= total(m),
{
    if m.contains_key(node) {
        lemma_total_remove(m, node);
    }
}

/// Counting once raises the node's count, and the sum, by one and leaves
/// every other node's count as it was.
pub proof fn lemma_increment_counts(m: Map<u64, u64>, node: u64, other: u64)
    requires
        valid_counts(m),
        count_of(m, node) < u64::MAX,
    ensures
        valid_counts(increment(m, node)),
        count_of(increment(m, node), node) == count_of(m, node) + 1,
        other != node ==> count_of(increment(m, node), other) == count_of(m, other),
        total(increment(m, node)) == total(m) + 1,
{
    let r = increment(m, node);
    lemma_total_remove(r, node);
    assert(r.remove(node) =~= m.remove(node));
    if m.contains_key(node) {
        lemma_total_remove(m, node);
    } else {
        assert(m.remove(node) =~= m);
    }
}

/// The merged count of each node is the larger of its two counts.
pub proof fn lemma_merge_count(a: Map<u64, u64>, b: Map<u64, u64>, node: u64)
    ensures
        count_of(merge_counts(a, b), node) == if count_of(a, node) >= count_of(b, node) {
            count_of(a, node)
        } else {
            count_of(b, node)
        },
{
}

/// Merging valid counts gives valid counts.
pub proof fn lemma_merge_valid(a: Map<u64, u64>, b: Map<u64, u64>)
    requires
        valid_counts(a),
        valid_counts(b),
    ensures
        valid_counts(merge_counts(a, b)),
{
    assert(merge_counts(a, b).dom() =~= a.dom().union(b.dom()));
}

/// Merging is commutative.
pub proof fn lemma_merge_commutative(a: Map<u64, u64>, b: Map<u64, u64>)
    ensures
        merge_counts(a, b) == merge_counts(b, a),
{
    assert(merge_counts(a, b) =~= merge_counts(b, a));
}

/// Merging a state with itself changes nothing.
pub proof fn lemma_merge_idempotent(a: Map<u64, u64>)
    ensures
        merge_counts(a, a) == a,
{
    assert(merge_counts(a, a) =~= a);
}

/// Merging is associative.
pub proof fn lemma_merge_associative(a: Map<u64, u64>, b: Map<u64, u64>, c: Map<u64, u64>)
    ensures
        merge_counts(merge_counts(a, b), c) == merge_counts(a, merge_counts(b, c)),
{
    assert(merge_counts(merge_counts(a, b), c) =~= merge_counts(a, merge_counts(b, c)));
}

/// Valid states with the same count for every node are the same state.
pub proof fn lemma_counts_determine(s: Map<u64, u64>, t: Map<u64, u64>)
    requires
        valid_counts(s),
        valid_counts(t),
        forall|n: u64| count_of(s, n) == count_of(t, n),
    ensures
        s == t,
{
    assert forall|n: u64| #[trigger] s.contains_key(n) == t.contains_key(n) by {
        assert(count_of(s, n) == count_of(t, n));
    }
    assert forall|n: u64| #[trigger] s.contains_key(n) implies s[n] == t[n] by {
        assert(count_of(s, n) == count_of(t, n));
    }
    assert(s =~= t);
}

/// Replicas converge: after `a` merges `b` and `b` merges the result, both
/// hold the same state.
pub proof fn lemma_replicas_converge(a: Map<u64, u64>, b: Map<u64, u64>)
    ensures
        merge_counts(b, merge_counts(a, b)) == merge_counts(a, b),
{
    assert(merge_counts(b, merge_counts(a, b)) =~= merge_counts(a, b));
}

/// The keys of the first `i` items of an iteration.
pub open spec fn seen_keys(items: Seq<(&u64, &u64)>, i: int) -> Set<u64> {
    Set::new(|k: u64| exists|j: int| 0 <= j < i && *items[j].0 == k)
}

/// A grow-only counter.
pub struct GCounter {
    id: u64,
    counts: HashMap<u64, u64>,
}

impl View for GCounter {
    type V = Map<u64, u64>;

    closed spec fn view(&self) -> Map<u64, u64> {
        self.counts@
    }
}

impl GCounter {
    /// The id of the node this replica counts for.
    pub closed spec fn node(&self) -> u64 {
        self.id
    }

    /// Counts are kept for finitely many nodes, each positive.
    pub open spec fn wf(&self) -> bool {
        valid_counts(self@)
    }

    pub fn new(node_id: u64) -> (c: Self)
        ensures
            c.wf(),
            c.node() == node_id,
            c@ == Map::<u64, u64>::empty(),
    {
        GCounter { id: node_id, counts: HashMap::new() }
    }

    /// Count one event on this node.
    pub fn inc(&mut self)
        requires
            old(self).wf(),
            count_of(old(self)@, old(self).node()) < u64::MAX,
        ensures
            final(self).wf(),
            final(self).node() == old(self).node(),
            final(self)@ == increment(old(self)@, old(self).node()),
            total(final(self)@) == total(old(self)@) + 1,
    {
        let ghost m = self.counts@;
        let id = self.id;
        let cur: u64 = match self.counts.get(&id) {
            Some(c) => *c,
            None => 0,
        };
        self.counts.insert(id, cur + 1);
        proof {
            lemma_increment_counts(m, id, id);
            assert(self.counts@ =~= increment(m, id));
        }
    }

    /// The counter's value: the sum of all nodes' counts.
    pub fn value(&self) -> (v: u64)
        requires
            total(self@) <= u64::MAX,
        ensures
            v == total(self@),
    {
        let ghost m = self.counts@;
        let mut acc: u64 = 0;
        let ghost mut seen: Map<u64, u64> = Map::empty();
        for (k, c) in it: self.counts.iter()
            invariant
                m == self.counts@,
                m.dom().finite(),
                total(m) <= u64::MAX,
                it.seq().len() == m.dom().len(),
                it.seq().no_duplicates(),
                forall|j: int| 0 <= j < it.seq().len() ==> #[trigger] m.contains_key(*it.seq()[j].0)
                    && m[*it.seq()[j].0] == *it.seq()[j].1,
                seen.submap_of(m),
                seen.dom() == seen_keys(it.seq(), it.index() as int),
                seen.dom().finite(),
                seen.dom().len() == it.index(),
                acc == total(seen),
        {
            let ghost i = it.index() as int;
            proof {
                assert(*k == *it.seq()[i].0 && *c == *it.seq()[i].1);
                assert(m.contains_key(*it.seq()[i].0));
                if seen.contains_key(*k) {
                    let j = choose|j: int| 0 <= j < i && *it.seq()[j].0 == *k;
                    assert(m.contains_key(*it.seq()[j].0));
                    assert(it.seq()[j] == it.seq()[i]);
                    assert(false);
                }
                let next = seen.insert(*k, *c);
                assert(next.submap_of(m));
                lemma_total_submap(next, m);
                lemma_total_remove(next, *k);
                assert(next.remove(*k) =~= seen);
                assert(next.dom() =~= seen_keys(it.seq(), i + 1));
            }
            acc = acc + *c;
            proof {
                seen = seen.insert(*k, *c);
            }
        }
        proof {
            vstd::set_lib::lemma_subset_equality(seen.dom(), m.dom());
            assert(seen =~= m);
        }
        acc
    }

    /// Take the node-wise maximum of this state and `other`.
    pub fn merge(&mut self, other: &GCounter)
        requires
            old(self).wf(),
            other.wf(),
        ensures
            final(self).wf(),
            final(self).node() == old(self).node(),
            final(self)@ == merge_counts(old(self)@, other@),
            total(old(self)@) <= total(final(self)@),
            total(other@) <= total(final(self)@),
            forall|n: u64| #[trigger] count_of(final(self)@, n) == if count_of(old(self)@, n)
                >= count_of(other@, n) {
                count_of(old(self)@, n)
            } else {
                count_of(other@, n)
            },
    {
        let ghost a = self.counts@;
        let ghost b = other.counts@;
        let ghost id = self.id;
        let ghost mut seen: Map<u64, u64> = Map::empty();
        proof {
            assert(merge_counts(a, seen) =~= a);
        }
        for (k, c) in it: other.counts.iter()
            invariant
                b == other.counts@,
                b.dom().finite(),
                self.id == id,
                self.counts@ == merge_counts(a, seen),
                it.seq().len() == b.dom().len(),
                it.seq().no_duplicates(),
                forall|j: int| 0 <= j < it.seq().len() ==> #[trigger] b.contains_key(*it.seq()[j].0)
                    && b[*it.seq()[j].0] == *it.seq()[j].1,
                seen.submap_of(b),
                seen.dom() == seen_keys(it.seq(), it.index() as int),
                seen.dom().finite(),
                seen.dom().len() == it.index(),
        {
            let ghost i = it.index() as int;
            proof {
                assert(*k == *it.seq()[i].0 && *c == *it.seq()[i].1);
                assert(b.contains_key(*it.seq()[i].0));
                if seen.contains_key(*k) {
                    let j = choose|j: int| 0 <= j < i && *it.seq()[j].0 == *k;
                    assert(b.contains_key(*it.seq()[j].0));
                    assert(it.seq()[j] == it.seq()[i]);
                    assert(false);
                }
            }
            let cur: u64 = match self.counts.get(k) {
                Some(x) => *x,
                None => 0,
            };
            let nv = if cur >= *c { cur } else { *c };
            self.counts.insert(*k, nv);
            proof {
                let next = seen.insert(*k, *c);
                assert(self.counts@ =~= merge_counts(a, next));
                assert(next.dom() =~= seen_keys(it.seq(), i + 1));
                seen = next;
            }
        }
        proof {
            vstd::set_lib::lemma_subset_equality(seen.dom(), b.dom());
            assert(seen =~= b);
            lemma_merge_valid(a, b);
            lemma_merge_value_grows(a, b);
        }
    }
}

/// A replicated register where the write with the latest timestamp wins.
pub struct LwwRegister<T> {
    value: T,
    timestamp: u64,
}

impl<T: Clone> LwwRegister<T> {
    pub closed spec fn spec_value(&self) -> T {
        self.value
    }

    pub closed spec fn spec_timestamp(&self) -> u64 {
        self.timestamp
    }

    pub fn new(value: T, timestamp: u64) -> (r: Self)
        ensures
            r.spec_value() == value,
            r.spec_timestamp() == timestamp,
    {
        LwwRegister { value, timestamp }
    }

    /// Write `value` if `timestamp` is later than the current one.
    pub fn set(&mut self, value: T, timestamp: u64)
        ensures
            if timestamp > old(self).spec_timestamp() {
                final(self).spec_value() == value && final(self).spec_timestamp() == timestamp
            } else {
                final(self).spec_value() == old(self).spec_value()
                    && final(self).spec_timestamp() == old(self).spec_timestamp()
            },
    {
        if timestamp > self.timestamp {
            self.value = value;
            self.timestamp = timestamp;
        }
    }

    pub fn get(&self) -> (v: &T)
        ensures
            *v == self.spec_value(),
    {
        &self.value
    }

    /// Adopt `other`'s value when it was written later.
    pub fn merge(&mut self, other: &LwwRegister<T>)
        ensures
            if other.spec_timestamp() > old(self).spec_timestamp() {
                cloned(other.spec_value(), final(self).spec_value())
                    && final(self).spec_timestamp() == other.spec_timestamp()
            } else {
                final(self).spec_value() == old(self).spec_value()
                    && final(self).spec_timestamp() == old(self).spec_timestamp()
            },
            final(self).spec_timestamp() == lww_join(
                (old(self).spec_value(), old(self).spec_timestamp()),
                (other.spec_value(), other.spec_timestamp()),
            ).1,
    {
        if other.timestamp > self.timestamp {
            self.value = other.value.clone();
            self.timestamp = other.timestamp;
        }
    }
}

/// The state a register holds after merging `b` into `a`: the pair with the
/// later timestamp, and `a`'s own on a tie.
pub open spec fn lww_join<T>(a: (T, u64), b: (T, u64)) -> (T, u64) {
    if b.1 > a.1 {
        b
    } else {
        a
    }
}

/// Merging registers is idempotent and associative, keeps the latest
/// timestamp, and does not depend on the order of the two registers when
/// their timestamps differ: replicas that have merged each other's writes
/// agree.
pub proof fn lemma_lww_join_laws<T>(a: (T, u64), b: (T, u64), c: (T, u64))
    ensures
        lww_join(a, a) == a,
        lww_join(lww_join(a, b), c) == lww_join(a, lww_join(b, c)),
        a.1 != b.1 ==> lww_join(a, b) == lww_join(b, a),
        lww_join(a, b).1 == (if a.1 < b.1 { b.1 } else { a.1 }),
{
}

} // verus!
