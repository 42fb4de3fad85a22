//! A pool of idle connections per cell: a released connection is kept for
//! reuse while its cell has fewer than the limit, and reuse takes the most
//! recently released one.

use vstd::prelude::*;
use crate::mitosis::str_eq;

verus! {

/// Idle connections, grouped by the name of the cell they lead to.
pub struct ConnectionPool<C> {
    entries: Vec<(String, Vec<C>)>,
    max_per_cell: usize,
    max_total: usize,
}

/// The idle connections of `name` among `entries`: those of its entry, or
/// none without one.
pub open spec fn idle_in<C>(entries: Seq<(String, Vec<C>)>, name: Seq<char>) -> Seq<C> {
    if exists|i: int| 0 <= i < entries.len() && #[trigger] entries[i].0@ == name {
        let i = choose|i: int| 0 <= i < entries.len() && #[trigger] entries[i].0@ == name;
        entries[i].1@
    } else {
        Seq::empty()
    }
}

impl<C> ConnectionPool<C> {
    /// No two entries have the same name.
    pub closed spec fn wf(&self) -> bool {
        forall|i: int, j: int|
            0 <= i < self.entries@.len() && 0 <= j < self.entries@.len() && i != j
                ==> #[trigger] self.entries@[i].0@ != #[trigger] self.entries@[j].0@
    }

    /// The idle connections kept for the cell `name`.
    pub closed spec fn idle(&self, name: Seq<char>) -> Seq<C> {
        idle_in(self.entries@, name)
    }

    pub closed spec fn max_per_cell(&self) -> usize {
        self.max_per_cell
    }

    pub closed spec fn max_total(&self) -> usize {
        self.max_total
    }

    /// An empty pool.
    pub fn new(max_per_cell: usize, max_total: usize) -> (p: Self)
        ensures
            p.wf(),
            p.max_per_cell() == max_per_cell,
            p.max_total() == max_total,
            forall|name: Seq<char>| #[trigger] p.idle(name) == Seq::<C>::empty(),
    {
        ConnectionPool { entries: Vec::new(), max_per_cell, max_total }
    }

    /// The most connections a pool hands out at once.
    pub fn max_total_connections(&self) -> (n: usize)
        ensures
            n == self.max_total(),
    {
        self.max_total
    }

    proof fn lemma_idle_at(entries: Seq<(String, Vec<C>)>, i: int)
        requires
            0 <= i < entries.len(),
            forall|a: int, b: int|
                0 <= a < entries.len() && 0 <= b < entries.len() && a != b
                    ==> #[trigger] entries[a].0@ != #[trigger] entries[b].0@,
        ensures
            idle_in(entries, entries[i].0@) == entries[i].1@,
    {
        let name = entries[i].0@;
        assert(0 <= i < entries.len() && entries[i].0@ == name);
        let k = choose|k: int| 0 <= k < entries.len() && #[trigger] entries[k].0@ == name;
        assert(k == i);
    }

    fn find(&self, name: &str) -> (r: Option<usize>)
        requires
            self.wf(),
        ensures
            match r {
                Some(i) => i < self.entries@.len() && self.entries@[i as int].0@ == name@,
                None => forall|i: int|
                    0 <= i < self.entries@.len() ==> #[trigger] self.entries@[i].0@ != name@,
            },
    {
        let mut i: usize = 0;
        while i < self.entries.len()
            invariant
                i <= self.entries@.len(),
                forall|j: int| 0 <= j < i ==> #[trigger] self.entries@[j].0@ != name@,
            decreases self.entries@.len() - i,
        {
            if str_eq(self.entries[i].0.as_str(), name) {
                return Some(i);
            }
            i = i + 1;
        }
        None
    }

    /// Takes the most recently released idle connection to `name`, if any.
    pub fn take_idle(&mut self, name: &str) -> (r: Option<C>)
        requires
            old(self).wf(),
        ensures
            final(self).wf(),
            final(self).max_per_cell() == old(self).max_per_cell(),
            final(self).max_total() == old(self).max_total(),
            old(self).idle(name@).len() == 0 ==> r is None && final(self).idle(name@) == old(
                self,
            ).idle(name@),
            old(self).idle(name@).len() > 0 ==> r == Some(old(self).idle(name@).last())
                && final(self).idle(name@) == old(self).idle(name@).drop_last(),
            forall|other: Seq<char>|
                other != name@ ==> #[trigger] final(self).idle(other) == old(self).idle(other),
    {
        match self.find(name) {
            None => {
                proof {
                    assert(!exists|i: int|
                        0 <= i < self.entries@.len() && #[trigger] self.entries@[i].0@ == name@);
                }
                None
            },
            Some(i) => {
                let ghost before = self.entries@;
                proof {
                    Self::lemma_idle_at(before, i as int);
                }
                let (n, mut list) = self.entries.remove(i);
                let r = list.pop();
                self.entries.insert(i, (n, list));
                let ghost after = self.entries@;
                proof {
                    assert(after =~= before.update(i as int, after[i as int]));
                    assert forall|a: int, b: int|
                        0 <= a < after.len() && 0 <= b < after.len() && a != b
                            implies #[trigger] after[a].0@ != #[trigger] after[b].0@ by {
                        assert(after[a].0@ == before[a].0@);
                        assert(after[b].0@ == before[b].0@);
                    }
                    Self::lemma_idle_at(after, i as int);
                    assert forall|other: Seq<char>| other != name@ implies #[trigger] idle_in(
                        after,
                        other,
                    ) == idle_in(before, other) by {
                        Self::lemma_idle_other(before, after, i as int, other);
                    }
                }
                r
            },
        }
    }

    proof fn lemma_idle_other(before: Seq<(String, Vec<C>)>, after: Seq<(String, Vec<C>)>, i: int, other: Seq<char>)
        requires
            0 <= i < before.len(),
            after.len() == before.len(),
            forall|k: int| 0 <= k < before.len() ==> #[trigger] after[k].0@ == before[k].0@,
            forall|k: int| 0 <= k < before.len() && k != i ==> #[trigger] after[k] == before[k],
            other != before[i].0@,
            forall|a: int, b: int|
                0 <= a < before.len() && 0 <= b < before.len() && a != b
                    ==> #[trigger] before[a].0@ != #[trigger] before[b].0@,
        ensures
            idle_in(after, other) == idle_in(before, other),
    {
        if exists|k: int| 0 <= k < before.len() && #[trigger] before[k].0@ == other {
            let k = choose|k: int| 0 <= k < before.len() && #[trigger] before[k].0@ == other;
            assert(after[k].0@ == other);
            Self::lemma_idle_at(before, k);
            assert forall|a: int, b: int|
                0 <= a < after.len() && 0 <= b < after.len() && a != b
                    implies #[trigger] after[a].0@ != #[trigger] after[b].0@ by {
                assert(after[a].0@ == before[a].0@);
                assert(after[b].0@ == before[b].0@);
            }
            Self::lemma_idle_at(after, k);
        } else {
            assert forall|k: int| 0 <= k < after.len() implies #[trigger] after[k].0@ != other by {
                assert(after[k].0@ == before[k].0@);
            }
        }
    }

    /// Returns a connection to `name` to the pool: it is kept while the
    /// cell has fewer idle connections than the limit, else dropped.
    pub fn release(&mut self, name: String, conn: C)
        requires
            old(self).wf(),
        ensures
            final(self).wf(),
            final(self).max_per_cell() == old(self).max_per_cell(),
            final(self).max_total() == old(self).max_total(),
            old(self).idle(name@).len() < old(self).max_per_cell() ==> final(self).idle(name@)
                == old(self).idle(name@).push(conn),
            old(self).idle(name@).len() >= old(self).max_per_cell() ==> final(self).idle(name@)
                == old(self).idle(name@),
            forall|other: Seq<char>|
                other != name@ ==> #[trigger] final(self).idle(other) == old(self).idle(other),
    {
        let ghost before = self.entries@;
        match self.find(name.as_str()) {
            None => {
                proof {
                    assert(!exists|i: int|
                        0 <= i < before.len() && #[trigger] before[i].0@ == name@);
                }
                let mut list: Vec<C> = Vec::new();
                let keep = 0 < self.max_per_cell;
                if keep {
                    list.push(conn);
                }
                self.entries.push((name, list));
                let ghost after = self.entries@;
                proof {
                    let n = before.len() as int;
                    assert forall|a: int, b: int|
                        0 <= a < after.len() && 0 <= b < after.len() && a != b
                            implies #[trigger] after[a].0@ != #[trigger] after[b].0@ by {
                        if a < n && b < n {
                            assert(after[a] == before[a]);
                            assert(after[b] == before[b]);
                        } else if a < n {
                            assert(after[a] == before[a]);
                        } else {
                            assert(after[b] == before[b]);
                        }
                    }
                    Self::lemma_idle_at(after, n);
                    assert(list@ =~= (if keep { Seq::<C>::empty().push(conn) } else { Seq::<C>::empty() }));
                    assert forall|other: Seq<char>| other != name@ implies #[trigger] idle_in(
                        after,
                        other,
                    ) == idle_in(before, other) by {
                        if exists|k: int| 0 <= k < before.len() && #[trigger] before[k].0@ == other {
                            let k = choose|k: int| 0 <= k < before.len() && #[trigger] before[k].0@ == other;
                            Self::lemma_idle_at(before, k);
                            assert(after[k] == before[k]);
                            Self::lemma_idle_at(after, k);
                        } else {
                            assert forall|k: int| 0 <= k < after.len() implies #[trigger] after[k].0@ != other by {
                                if k < n {
                                    assert(after[k] == before[k]);
                                }
                            }
                        }
                    }
                }
            },
            Some(i) => {
                proof {
                    Self::lemma_idle_at(before, i as int);
                }
                let (n, mut list) = self.entries.remove(i);
                if list.len() < self.max_per_cell {
                    list.push(conn);
                }
                self.entries.insert(i, (n, list));
                let ghost after = self.entries@;
                proof {
                    assert(after =~= before.update(i as int, after[i as int]));
                    assert forall|a: int, b: int|
                        0 <= a < after.len() && 0 <= b < after.len() && a != b
                            implies #[trigger] after[a].0@ != #[trigger] after[b].0@ by {
                        assert(after[a].0@ == before[a].0@);
                        assert(after[b].0@ == before[b].0@);
                    }
                    Self::lemma_idle_at(after, i as int);
                    assert forall|other: Seq<char>| other != name@ implies #[trigger] idle_in(
                        after,
                        other,
                    ) == idle_in(before, other) by {
                        Self::lemma_idle_other(before, after, i as int, other);
                    }
                }
            },
        }
    }
}

} // verus!
