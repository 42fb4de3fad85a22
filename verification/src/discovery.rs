//! Discovery on the local network: the signals cells broadcast, the cache
//! of the latest signal of each cell (bounded, with the oldest evicted
//! first), and the choice of what to answer and where to broadcast.

use vstd::prelude::*;

verus! {

/// A cell's advertisement: where it listens, and when it said so (seconds
/// since the epoch). A signal with port 0 asks for the named cell instead.
#[derive(Debug, Clone)]
pub struct Signal {
    pub cell_name: String,
    pub ip: String,
    pub port: u16,
    pub timestamp: u64,
}

impl Signal {
    /// A copy of the signal.
    pub fn duplicate(&self) -> (s: Signal)
        ensures
            s == *self,
    {
        Signal {
            cell_name: self.cell_name.clone(),
            ip: self.ip.clone(),
            port: self.port,
            timestamp: self.timestamp,
        }
    }
}

/// The most signals the discovery cache holds.
pub const MAX_CACHE_SIZE: usize = 10000;

/// How many of the oldest signals a full cache drops at once.
pub const EVICTION_BATCH: usize = 1000;

/// The signal of `name` among `s`, if any.
pub open spec fn signal_of(s: Seq<Signal>, name: Seq<char>) -> Option<Signal> {
    if exists|i: int| 0 <= i < s.len() && #[trigger] s[i].cell_name@ == name {
        Some(s[choose|i: int| 0 <= i < s.len() && #[trigger] s[i].cell_name@ == name])
    } else {
        None
    }
}

/// No two signals name the same cell.
pub open spec fn names_unique(s: Seq<Signal>) -> bool {
    forall|i: int, j: int|
        0 <= i < s.len() && 0 <= j < s.len() && i != j ==> #[trigger] s[i].cell_name@
            != #[trigger] s[j].cell_name@
}

/// The age of a signal at `now`, as an unsigned subtraction that wraps.
pub open spec fn age(now: u64, ts: u64) -> int {
    if now >= ts { now - ts } else { now + 0x1_0000_0000_0000_0000 - ts }
}

/// A signal stays while it is younger than `max_age`.
pub open spec fn fresh(sig: Signal, now: u64, max_age: u64) -> bool {
    age(now, sig.timestamp) < max_age
}

proof fn lemma_signal_at(s: Seq<Signal>, i: int)
    requires
        0 <= i < s.len(),
        names_unique(s),
    ensures
        signal_of(s, s[i].cell_name@) == Some(s[i]),
{
    let name = s[i].cell_name@;
    assert(0 <= i < s.len() && s[i].cell_name@ == name);
    let k = choose|k: int| 0 <= k < s.len() && #[trigger] s[k].cell_name@ == name;
    assert(k == i);
}

proof fn lemma_signal_absent(s: Seq<Signal>, name: Seq<char>)
    requires
        forall|i: int| 0 <= i < s.len() ==> #[trigger] s[i].cell_name@ != name,
    ensures
        signal_of(s, name) is None,
{
}

/// Removing the entry at `i` removes its cell and keeps the others.
proof fn lemma_signal_remove(s: Seq<Signal>, i: int, name: Seq<char>)
    requires
        0 <= i < s.len(),
        names_unique(s),
    ensures
        names_unique(s.remove(i)),
        signal_of(s.remove(i), name) == (if name == s[i].cell_name@ {
            None
        } else {
            signal_of(s, name)
        }),
{
    let t = s.remove(i);
    assert forall|a: int, b: int|
        0 <= a < t.len() && 0 <= b < t.len() && a != b implies #[trigger] t[a].cell_name@
            != #[trigger] t[b].cell_name@ by {
        let a2 = if a < i { a } else { a + 1 };
        let b2 = if b < i { b } else { b + 1 };
        assert(t[a] == s[a2]);
        assert(t[b] == s[b2]);
    }
    if name == s[i].cell_name@ {
        assert forall|k: int| 0 <= k < t.len() implies #[trigger] t[k].cell_name@ != name by {
            let k2 = if k < i { k } else { k + 1 };
            assert(t[k] == s[k2]);
        }
    } else if exists|k: int| 0 <= k < s.len() && #[trigger] s[k].cell_name@ == name {
        let k = choose|k: int| 0 <= k < s.len() && #[trigger] s[k].cell_name@ == name;
        lemma_signal_at(s, k);
        let k2 = if k < i { k } else { k - 1 };
        assert(t[k2] == s[k]);
        lemma_signal_at(t, k2);
    } else {
        assert forall|k: int| 0 <= k < t.len() implies #[trigger] t[k].cell_name@ != name by {
            let k2 = if k < i { k } else { k + 1 };
            assert(t[k] == s[k2]);
        }
    }
}

/// The latest signal of each cell.
pub struct SignalCache {
    entries: Vec<Signal>,
}

impl SignalCache {
    pub closed spec fn wf(&self) -> bool {
        names_unique(self.entries@)
    }

    /// The cached signal of `name`.
    pub closed spec fn get_spec(&self, name: Seq<char>) -> Option<Signal> {
        signal_of(self.entries@, name)
    }

    /// How many cells the cache knows.
    pub closed spec fn size(&self) -> nat {
        self.entries@.len()
    }

    pub fn new() -> (c: Self)
        ensures
            c.wf(),
            c.size() == 0,
            forall|n: Seq<char>| #[trigger] c.get_spec(n) is None,
    {
        SignalCache { entries: Vec::new() }
    }

    pub fn len(&self) -> (n: usize)
        ensures
            n == self.size(),
    {
        self.entries.len()
    }

    fn index_of(&self, name: &String) -> (r: Option<usize>)
        requires
            self.wf(),
        ensures
            match r {
                Some(i) => i < self.entries@.len() && self.entries@[i as int].cell_name@ == name@,
                None => forall|i: int|
                    0 <= i < self.entries@.len() ==> #[trigger] self.entries@[i].cell_name@ != name@,
            },
    {
        let mut i: usize = 0;
        while i < self.entries.len()
            invariant
                i <= self.entries@.len(),
                forall|j: int| 0 <= j < i ==> #[trigger] self.entries@[j].cell_name@ != name@,
            decreases self.entries@.len() - i,
        {
            if self.entries[i].cell_name == *name {
                return Some(i);
            }
            i = i + 1;
        }
        None
    }

    /// The cached signal of `name`, if any.
    pub fn find(&self, name: &String) -> (r: Option<Signal>)
        requires
            self.wf(),
        ensures
            r == self.get_spec(name@),
    {
        match self.index_of(name) {
            Some(i) => {
                proof {
                    lemma_signal_at(self.entries@, i as int);
                }
                Some(self.entries[i].duplicate())
            },
            None => None,
        }
    }

    /// Records a signal, replacing the earlier signal of the same cell.
    pub fn insert(&mut self, sig: Signal)
        requires
            old(self).wf(),
        ensures
            final(self).wf(),
            final(self).get_spec(sig.cell_name@) == Some(sig),
            forall|n: Seq<char>|
                n != sig.cell_name@ ==> #[trigger] final(self).get_spec(n) == old(self).get_spec(n),
            final(self).size() == old(self).size() + (if old(self).get_spec(sig.cell_name@) is Some {
                0int
            } else {
                1int
            }),
    {
        let ghost before = self.entries@;
        match self.index_of(&sig.cell_name) {
            Some(i) => {
                proof {
                    lemma_signal_at(before, i as int);
                }
                self.entries.set(i, sig);
                let ghost after = self.entries@;
                proof {
                    assert forall|a: int, b: int|
                        0 <= a < after.len() && 0 <= b < after.len() && a != b
                            implies #[trigger] after[a].cell_name@ != #[trigger] after[b].cell_name@ by {
                        assert(after[a].cell_name@ == before[a].cell_name@);
                        assert(after[b].cell_name@ == before[b].cell_name@);
                    }
                    lemma_signal_at(after, i as int);
                    assert forall|n: Seq<char>| n != sig.cell_name@ implies #[trigger] signal_of(
                        after,
                        n,
                    ) == signal_of(before, n) by {
                        if exists|k: int| 0 <= k < before.len() && #[trigger] before[k].cell_name@ == n {
                            let k = choose|k: int| 0 <= k < before.len() && #[trigger] before[k].cell_name@ == n;
                            lemma_signal_at(before, k);
                            assert(after[k] == before[k]);
                            lemma_signal_at(after, k);
                        } else {
                            assert forall|k: int| 0 <= k < after.len() implies #[trigger] after[k].cell_name@ != n by {
                                assert(after[k].cell_name@ == before[k].cell_name@ || k == i);
                            }
                        }
                    }
                }
            },
            None => {
                let ghost name = sig.cell_name@;
                self.entries.push(sig);
                let ghost after = self.entries@;
                proof {
                    let n0 = before.len() as int;
                    assert forall|a: int, b: int|
                        0 <= a < after.len() && 0 <= b < after.len() && a != b
                            implies #[trigger] after[a].cell_name@ != #[trigger] after[b].cell_name@ by {
                        if a < n0 {
                            assert(after[a] == before[a]);
                        }
                        if b < n0 {
                            assert(after[b] == before[b]);
                        }
                    }
                    lemma_signal_at(after, n0);
                    lemma_signal_absent(before, name);
                    assert forall|n: Seq<char>| n != name implies #[trigger] signal_of(after, n)
                        == signal_of(before, n) by {
                        if exists|k: int| 0 <= k < before.len() && #[trigger] before[k].cell_name@ == n {
                            let k = choose|k: int| 0 <= k < before.len() && #[trigger] before[k].cell_name@ == n;
                            lemma_signal_at(before, k);
                            assert(after[k] == before[k]);
                            lemma_signal_at(after, k);
                        } else {
                            assert forall|k: int| 0 <= k < after.len() implies #[trigger] after[k].cell_name@ != n by {
                                if k < n0 {
                                    assert(after[k] == before[k]);
                                }
                            }
                        }
                    }
                }
            },
        }
    }

    /// Every cached signal.
    pub fn all(&self) -> (r: Vec<Signal>)
        ensures
            r@ == self.entries_spec(),
    {
        let mut out: Vec<Signal> = Vec::new();
        let mut i: usize = 0;
        while i < self.entries.len()
            invariant
                i <= self.entries@.len(),
                out@ == self.entries@.take(i as int),
            decreases self.entries@.len() - i,
        {
            out.push(self.entries[i].duplicate());
            i = i + 1;
            proof {
                assert(out@ =~= self.entries@.take(i as int));
            }
        }
        proof {
            assert(self.entries@.take(self.entries@.len() as int) =~= self.entries@);
        }
        out
    }

    /// The cached signals, one per cell.
    pub closed spec fn entries_spec(&self) -> Seq<Signal> {
        self.entries@
    }

    /// Every cached signal is the signal of its cell, and every cell's
    /// signal is among them.
    pub proof fn lemma_entries(&self)
        requires
            self.wf(),
        ensures
            forall|i: int|
                0 <= i < self.entries_spec().len() ==> self.get_spec(
                    #[trigger] self.entries_spec()[i].cell_name@,
                ) == Some(self.entries_spec()[i]),
            forall|n: Seq<char>|
                #[trigger] self.get_spec(n) matches Some(s) ==> self.entries_spec().contains(s),
    {
        assert forall|i: int| 0 <= i < self.entries_spec().len() implies self.get_spec(
            #[trigger] self.entries_spec()[i].cell_name@,
        ) == Some(self.entries_spec()[i]) by {
            lemma_signal_at(self.entries@, i);
        }
        assert forall|n: Seq<char>| #[trigger] self.get_spec(n) is Some implies self.entries_spec().contains(
            self.get_spec(n).unwrap(),
        ) by {
            let k = choose|k: int| 0 <= k < self.entries@.len() && #[trigger] self.entries@[k].cell_name@ == n;
            assert(self.entries@[k] == self.get_spec(n).unwrap());
        }
    }

    /// Drops the signals that are no longer fresh at `now`.
    pub fn prune_stale(&mut self, now: u64, max_age: u64)
        requires
            old(self).wf(),
        ensures
            final(self).wf(),
            forall|n: Seq<char>|
                #[trigger] final(self).get_spec(n) == (match old(self).get_spec(n) {
                    Some(s) => if fresh(s, now, max_age) { Some(s) } else { None },
                    None => None,
                }),
            final(self).size() <= old(self).size(),
    {
        let ghost orig = self.entries@;
        let mut i: usize = 0;
        while i < self.entries.len()
            invariant
                i <= self.entries@.len(),
                self.entries@.len() <= orig.len(),
                names_unique(self.entries@),
                forall|k: int| 0 <= k < i ==> fresh(#[trigger] self.entries@[k], now, max_age),
                forall|n: Seq<char>|
                    #[trigger] signal_of(self.entries@, n) matches Some(s) ==> signal_of(orig, n)
                        == Some(s),
                forall|n: Seq<char>|
                    #[trigger] signal_of(orig, n) matches Some(s) ==> fresh(s, now, max_age)
                        ==> signal_of(self.entries@, n) == Some(s),
            decreases self.entries@.len() - i,
        {
            let ts = self.entries[i].timestamp;
            if now.wrapping_sub(ts) < max_age {
                i = i + 1;
            } else {
                let ghost before = self.entries@;
                let ghost gone = before[i as int].cell_name@;
                proof {
                    lemma_signal_at(before, i as int);
                    assert(!fresh(before[i as int], now, max_age));
                    assert forall|n: Seq<char>| true implies #[trigger] signal_of(before.remove(i as int), n)
                        == (if n == gone { None } else { signal_of(before, n) }) by {
                        lemma_signal_remove(before, i as int, n);
                    }
                    lemma_signal_remove(before, i as int, gone);
                }
                self.entries.remove(i);
                proof {
                    assert forall|k: int| 0 <= k < i implies fresh(#[trigger] self.entries@[k], now, max_age) by {
                        assert(self.entries@[k] == before[k]);
                    }
                    assert forall|n: Seq<char>| #[trigger] signal_of(orig, n) is Some && fresh(
                        signal_of(orig, n).unwrap(),
                        now,
                        max_age,
                    ) implies signal_of(self.entries@, n) == signal_of(orig, n) by {
                        if n == gone {
                            assert(signal_of(before, gone) == Some(before[i as int]));
                        }
                    }
                }
            }
        }
        proof {
            assert forall|n: Seq<char>| #[trigger] signal_of(self.entries@, n) is Some implies fresh(
                signal_of(self.entries@, n).unwrap(),
                now,
                max_age,
            ) by {
                let k = choose|k: int| 0 <= k < self.entries@.len() && #[trigger] self.entries@[k].cell_name@ == n;
                assert(fresh(self.entries@[k], now, max_age));
            }
        }
    }

    fn oldest_index(&self) -> (i: usize)
        requires
            self.entries@.len() > 0,
        ensures
            i < self.entries@.len(),
            forall|k: int|
                0 <= k < self.entries@.len() ==> self.entries@[i as int].timestamp
                    <= #[trigger] self.entries@[k].timestamp,
    {
        let mut best: usize = 0;
        let mut j: usize = 1;
        while j < self.entries.len()
            invariant
                best < j <= self.entries@.len(),
                forall|k: int|
                    0 <= k < j ==> self.entries@[best as int].timestamp
                        <= #[trigger] self.entries@[k].timestamp,
            decreases self.entries@.len() - j,
        {
            if self.entries[j].timestamp < self.entries[best].timestamp {
                best = j;
            }
            j = j + 1;
        }
        best
    }

    /// Drops the `count` oldest signals (all of them when there are fewer):
    /// no dropped signal is newer than a kept one.
    pub fn evict_oldest(&mut self, count: usize)
        requires
            old(self).wf(),
        ensures
            final(self).wf(),
            final(self).size() == old(self).size() - (if count < old(self).size() {
                count as nat
            } else {
                old(self).size()
            }),
            forall|n: Seq<char>|
                #[trigger] final(self).get_spec(n) is Some ==> final(self).get_spec(n) == old(self).get_spec(n),
            forall|gone: Seq<char>, kept: Seq<char>|
                #![trigger old(self).get_spec(gone), final(self).get_spec(kept)]
                old(self).get_spec(gone) is Some && final(self).get_spec(gone) is None
                    && final(self).get_spec(kept) is Some ==> old(self).get_spec(gone).unwrap().timestamp
                    <= final(self).get_spec(kept).unwrap().timestamp,
    {
        let ghost orig = self.entries@;
        let mut removed: usize = 0;
        while removed < count && self.entries.len() > 0
            invariant
                names_unique(self.entries@),
                removed <= count,
                self.entries@.len() + removed == orig.len(),
                forall|n: Seq<char>|
                    #[trigger] signal_of(self.entries@, n) is Some ==> signal_of(self.entries@, n)
                        == signal_of(orig, n),
                forall|gone: Seq<char>, kept: Seq<char>|
                    #![trigger signal_of(orig, gone), signal_of(self.entries@, kept)]
                    signal_of(orig, gone) is Some && signal_of(self.entries@, gone) is None
                        && signal_of(self.entries@, kept) is Some ==> signal_of(orig, gone).unwrap().timestamp
                        <= signal_of(self.entries@, kept).unwrap().timestamp,
            decreases count - removed,
        {
            let i = self.oldest_index();
            let ghost before = self.entries@;
            let ghost victim = before[i as int];
            proof {
                lemma_signal_at(before, i as int);
                assert forall|n: Seq<char>| true implies #[trigger] signal_of(before.remove(i as int), n)
                    == (if n == victim.cell_name@ { None } else { signal_of(before, n) }) by {
                    lemma_signal_remove(before, i as int, n);
                }
                lemma_signal_remove(before, i as int, victim.cell_name@);
            }
            self.entries.remove(i);
            removed = removed + 1;
            proof {
                let after = self.entries@;
                assert forall|gone: Seq<char>, kept: Seq<char>|
                    #![trigger signal_of(orig, gone), signal_of(after, kept)]
                    signal_of(orig, gone) is Some && signal_of(after, gone) is None
                        && signal_of(after, kept) is Some implies signal_of(orig, gone).unwrap().timestamp
                        <= signal_of(after, kept).unwrap().timestamp by {
                    let kk = choose|k: int| 0 <= k < before.len() && #[trigger] before[k].cell_name@ == kept;
                    lemma_signal_at(before, kk);
                    assert(signal_of(before, kept) is Some);
                    if gone == victim.cell_name@ {
                        assert(victim.timestamp <= before[kk].timestamp);
                    } else {
                        assert(signal_of(before, gone) == signal_of(after, gone));
                    }
                }
            }
        }
    }
}

/// The cache of signals heard on the network, bounded by
/// `MAX_CACHE_SIZE`.
pub struct LanDiscovery {
    cache: SignalCache,
}

impl LanDiscovery {
    pub closed spec fn wf(&self) -> bool {
        self.cache.wf() && self.cache.size() <= MAX_CACHE_SIZE
    }

    pub closed spec fn get_spec(&self, name: Seq<char>) -> Option<Signal> {
        self.cache.get_spec(name)
    }

    pub closed spec fn size(&self) -> nat {
        self.cache.size()
    }

    pub fn new() -> (d: Self)
        ensures
            d.wf(),
            d.size() == 0,
            forall|n: Seq<char>| #[trigger] d.get_spec(n) is None,
    {
        LanDiscovery { cache: SignalCache::new() }
    }

    /// Records a signal. A full cache first drops its oldest tenth.
    pub fn update(&mut self, sig: Signal)
        requires
            old(self).wf(),
        ensures
            final(self).wf(),
            final(self).get_spec(sig.cell_name@) == Some(sig),
            old(self).size() < MAX_CACHE_SIZE ==> forall|n: Seq<char>|
                n != sig.cell_name@ ==> #[trigger] final(self).get_spec(n) == old(self).get_spec(n),
            forall|n: Seq<char>|
                n != sig.cell_name@ && #[trigger] final(self).get_spec(n) is Some ==> final(self).get_spec(n) == old(self).get_spec(n),
            old(self).size() >= MAX_CACHE_SIZE ==> final(self).size() <= MAX_CACHE_SIZE - EVICTION_BATCH + 1,
            forall|gone: Seq<char>, kept: Seq<char>|
                #![trigger old(self).get_spec(gone), final(self).get_spec(kept)]
                old(self).get_spec(gone) is Some && final(self).get_spec(gone) is None
                    && final(self).get_spec(kept) is Some && kept != sig.cell_name@
                    ==> old(self).get_spec(gone).unwrap().timestamp <= final(self).get_spec(kept).unwrap().timestamp,
    {
        if self.cache.len() >= MAX_CACHE_SIZE {
            self.cache.evict_oldest(EVICTION_BATCH);
        }
        let ghost mid = self.cache;
        self.cache.insert(sig);
        proof {
            assert forall|gone: Seq<char>, kept: Seq<char>|
                #![trigger old(self).get_spec(gone), self.get_spec(kept)]
                old(self).get_spec(gone) is Some && self.get_spec(gone) is None
                    && self.get_spec(kept) is Some && kept != sig.cell_name@
                    implies old(self).get_spec(gone).unwrap().timestamp <= self.get_spec(kept).unwrap().timestamp by {
                assert(self.cache.get_spec(kept) == mid.get_spec(kept));
                if gone != sig.cell_name@ {
                    assert(self.cache.get_spec(gone) == mid.get_spec(gone));
                }
            }
        }
    }

    pub fn find(&self, name: &String) -> (r: Option<Signal>)
        requires
            self.wf(),
        ensures
            r == self.get_spec(name@),
    {
        self.cache.find(name)
    }

    pub fn all(&self) -> (r: Vec<Signal>)
        requires
            self.wf(),
        ensures
            forall|i: int| 0 <= i < r@.len() ==> self.get_spec(#[trigger] r@[i].cell_name@) == Some(r@[i]),
            forall|n: Seq<char>| #[trigger] self.get_spec(n) is Some ==> r@.contains(self.get_spec(n).unwrap()),
            r@.len() == self.size(),
    {
        proof {
            self.cache.lemma_entries();
        }
        self.cache.all()
    }

    /// Drops the signals older than `max_age_secs` at `now`.
    pub fn prune_stale(&mut self, now: u64, max_age_secs: u64)
        requires
            old(self).wf(),
        ensures
            final(self).wf(),
            forall|n: Seq<char>|
                #[trigger] final(self).get_spec(n) == (match old(self).get_spec(n) {
                    Some(s) => if fresh(s, now, max_age_secs) { Some(s) } else { None },
                    None => None,
                }),
    {
        self.cache.prune_stale(now, max_age_secs);
    }
}

/// The UDP port of the discovery protocol.
pub const DISCOVERY_PORT: u16 = 9099;

/// What a cell does with a signal it heard.
#[derive(Debug, Clone)]
pub enum SignalAction {
    /// Drop it.
    Ignore,
    /// Answer a query with this signal.
    Answer(Signal),
    /// Record an advertisement.
    Record(Signal),
}

/// Whether `a` is the action for `sig`, heard from this very socket when
/// `from_self`, with `local` the cell's own advertisement and `now` the
/// time. A query (port 0) for another cell is answered with the cell's own
/// signal stamped `now`; advertisements are recorded; echoes are dropped.
pub open spec fn signal_action_is(a: SignalAction, sig: Signal, from_self: bool, local: Option<Signal>, now: u64) -> bool {
    if from_self {
        a is Ignore
    } else if sig.port == 0 {
        match local {
            Some(mine) => if mine.cell_name@ != sig.cell_name@ {
                a matches SignalAction::Answer(r) && r == (Signal { timestamp: now, ..mine })
            } else {
                a is Ignore
            },
            None => a is Ignore,
        }
    } else {
        a matches SignalAction::Record(r) && r == sig
    }
}

pub fn on_signal(sig: Signal, from_self: bool, local: &Option<Signal>, now: u64) -> (a: SignalAction)
    ensures
        signal_action_is(a, sig, from_self, *local, now),
{
    if from_self {
        SignalAction::Ignore
    } else if sig.port == 0 {
        match local {
            Some(mine) => if mine.cell_name != sig.cell_name {
                let mut r = mine.duplicate();
                r.timestamp = now;
                SignalAction::Answer(r)
            } else {
                SignalAction::Ignore
            },
            None => SignalAction::Ignore,
        }
    } else {
        SignalAction::Record(sig)
    }
}

/// An IPv4 address, octet by octet.
#[derive(Debug, Clone, Copy, PartialEq, Eq, Structural)]
pub struct Ipv4(pub u8, pub u8, pub u8, pub u8);

/// A cell's discovery state: the latest signal heard from each cell, and
/// the cell's own advertisement once it has one.
pub struct PheromoneSystem {
    cache: SignalCache,
    local: Option<Signal>,
}

impl PheromoneSystem {
    pub closed spec fn wf(&self) -> bool {
        self.cache.wf()
    }

    pub closed spec fn heard(&self, name: Seq<char>) -> Option<Signal> {
        self.cache.get_spec(name)
    }

    pub closed spec fn own_signal(&self) -> Option<Signal> {
        self.local
    }

    pub fn new() -> (p: Self)
        ensures
            p.wf(),
            p.own_signal() is None,
            forall|n: Seq<char>| #[trigger] p.heard(n) is None,
    {
        PheromoneSystem { cache: SignalCache::new(), local: None }
    }

    /// The advertisement of `cell_name` at `ip:port`, stamped `now`; it
    /// becomes the cell's own signal, which answers queries.
    pub fn secrete(&mut self, cell_name: &str, ip: String, port: u16, now: u64) -> (s: Signal)
        requires
            old(self).wf(),
        ensures
            final(self).wf(),
            s.cell_name@ == cell_name@,
            s.ip == ip,
            s.port == port,
            s.timestamp == now,
            final(self).own_signal() == Some(s),
            forall|n: Seq<char>| #[trigger] final(self).heard(n) == old(self).heard(n),
    {
        let s = Signal { cell_name: String::from_str(cell_name), ip, port, timestamp: now };
        self.local = Some(s.duplicate());
        s
    }

    /// The query for `target`: a signal with port 0 from `ip`, stamped `now`.
    pub fn query(target: &str, ip: String, now: u64) -> (s: Signal)
        ensures
            s.cell_name@ == target@,
            s.ip == ip,
            s.port == 0,
            s.timestamp == now,
    {
        Signal { cell_name: String::from_str(target), ip, port: 0, timestamp: now }
    }

    /// Handles a signal heard at `now`: an advertisement is recorded, a
    /// query for another cell is answered with the cell's own signal (the
    /// returned signal to send back), and echoes are dropped.
    pub fn receive(&mut self, sig: Signal, from_self: bool, now: u64) -> (reply: Option<Signal>)
        requires
            old(self).wf(),
        ensures
            final(self).wf(),
            final(self).own_signal() == old(self).own_signal(),
            ({
                let heard_advert = !from_self && sig.port != 0;
                &&& heard_advert ==> final(self).heard(sig.cell_name@) == Some(sig)
                &&& heard_advert ==> forall|n: Seq<char>| n != sig.cell_name@ ==> #[trigger] final(self).heard(n) == old(self).heard(n)
                &&& !heard_advert ==> forall|n: Seq<char>| #[trigger] final(self).heard(n) == old(self).heard(n)
                &&& match reply {
                    Some(r) => signal_action_is(SignalAction::Answer(r), sig, from_self, old(self).own_signal(), now),
                    None => !from_self && sig.port == 0 ==> !(old(self).own_signal() matches Some(m) && m.cell_name@ != sig.cell_name@),
                }
            }),
    {
        match on_signal(sig, from_self, &self.local, now) {
            SignalAction::Ignore => None,
            SignalAction::Answer(r) => Some(r),
            SignalAction::Record(r) => {
                self.cache.insert(r);
                None
            },
        }
    }

    /// The signal last heard from `cell_name`.
    pub fn lookup(&self, cell_name: &String) -> (r: Option<Signal>)
        requires
            self.wf(),
        ensures
            r == self.heard(cell_name@),
    {
        self.cache.find(cell_name)
    }
}

/// A network interface as the discovery code sees it: whether it is the
/// loopback, and for an IPv4 interface its address and broadcast address.
#[derive(Debug, Clone, Copy, PartialEq, Eq, Structural)]
pub struct InterfaceV4 {
    pub loopback: bool,
    pub is_v4: bool,
    pub ip: Ipv4,
    pub broadcast: Option<Ipv4>,
}

/// The broadcast address of each IPv4 interface but the loopback; the
/// global broadcast address where an interface has none.
pub open spec fn broadcast_targets_spec(ifaces: Seq<InterfaceV4>) -> Seq<Ipv4>
    decreases ifaces.len(),
{
    if ifaces.len() == 0 {
        Seq::empty()
    } else {
        let rest = broadcast_targets_spec(ifaces.drop_last());
        let i = ifaces.last();
        if i.loopback || !i.is_v4 {
            rest
        } else {
            rest.push(
                match i.broadcast {
                    Some(b) => b,
                    None => Ipv4(255u8, 255, 255, 255),
                },
            )
        }
    }
}

pub fn broadcast_targets(ifaces: &Vec<InterfaceV4>) -> (r: Vec<Ipv4>)
    ensures
        r@ == broadcast_targets_spec(ifaces@),
{
    let mut out: Vec<Ipv4> = Vec::new();
    let mut i: usize = 0;
    while i < ifaces.len()
        invariant
            i <= ifaces@.len(),
            out@ == broadcast_targets_spec(ifaces@.take(i as int)),
        decreases ifaces@.len() - i,
    {
        let f = ifaces[i];
        proof {
            assert(ifaces@.take(i + 1).drop_last() =~= ifaces@.take(i as int));
        }
        if !f.loopback && f.is_v4 {
            let b = match f.broadcast {
                Some(b) => b,
                None => Ipv4(255u8, 255, 255, 255),
            };
            out.push(b);
        }
        i = i + 1;
    }
    proof {
        assert(ifaces@.take(ifaces@.len() as int) =~= ifaces@);
    }
    out
}

/// The address a cell advertises: the configured one, else the first
/// IPv4 address of an interface other than the loopback that is not a
/// container bridge gateway (172.17.x.1), else the loopback address.
pub open spec fn best_ip_spec(ifaces: Seq<InterfaceV4>) -> Option<Ipv4>
    decreases ifaces.len(),
{
    if ifaces.len() == 0 {
        None
    } else {
        let i = ifaces[0];
        if !i.loopback && i.is_v4 && !(i.ip.0 == 172 && i.ip.1 == 17 && i.ip.3 == 1) {
            Some(i.ip)
        } else {
            best_ip_spec(ifaces.drop_first())
        }
    }
}

pub fn best_ip(ifaces: &Vec<InterfaceV4>) -> (r: Option<Ipv4>)
    ensures
        r == best_ip_spec(ifaces@),
{
    let mut i: usize = 0;
    proof {
        assert(ifaces@.skip(0) =~= ifaces@);
    }
    while i < ifaces.len()
        invariant
            i <= ifaces@.len(),
            best_ip_spec(ifaces@) == best_ip_spec(ifaces@.skip(i as int)),
        decreases ifaces@.len() - i,
    {
        let f = ifaces[i];
        proof {
            assert(ifaces@.skip(i as int)[0] == f);
            assert(ifaces@.skip(i as int).drop_first() =~= ifaces@.skip(i + 1));
        }
        if !f.loopback && f.is_v4 && !(f.ip.0 == 172 && f.ip.1 == 17 && f.ip.3 == 1) {
            return Some(f.ip);
        }
        i = i + 1;
    }
    None
}

/// Dotted decimal text of an IPv4 address.
pub open spec fn ipv4_text(ip: Ipv4) -> Seq<char> {
    crate::text::decimal(ip.0 as nat) + "."@ + crate::text::decimal(ip.1 as nat) + "."@
        + crate::text::decimal(ip.2 as nat) + "."@ + crate::text::decimal(ip.3 as nat)
}

pub fn ipv4_to_string(ip: Ipv4) -> (s: String)
    ensures
        s@ == ipv4_text(ip),
{
    let mut s = crate::text::u64_to_decimal(ip.0 as u64);
    s.append(".");
    let b = crate::text::u64_to_decimal(ip.1 as u64);
    s.append(b.as_str());
    s.append(".");
    let c = crate::text::u64_to_decimal(ip.2 as u64);
    s.append(c.as_str());
    s.append(".");
    let d = crate::text::u64_to_decimal(ip.3 as u64);
    s.append(d.as_str());
    s
}

/// The address a cell advertises, as text.
pub fn resolve_best_ip(configured: Option<String>, ifaces: &Vec<InterfaceV4>) -> (s: String)
    ensures
        s@ == match configured {
            Some(c) => c@,
            None => match best_ip_spec(ifaces@) {
                Some(ip) => ipv4_text(ip),
                None => "127.0.0.1"@,
            },
        },
{
    match configured {
        Some(c) => c,
        None => match best_ip(ifaces) {
            Some(ip) => ipv4_to_string(ip),
            None => String::from_str("127.0.0.1"),
        },
    }
}

/// `ip:port`, the address of a socket.
pub fn socket_address(ip: &str, port: u16) -> (s: String)
    ensures
        s@ == ip@ + ":"@ + crate::text::decimal(port as nat),
{
    let mut s = String::from_str(ip);
    s.append(":");
    let p = crate::text::u64_to_decimal(port as u64);
    s.append(p.as_str());
    s
}

/// What a probe learned of a cell: the round trip through its local socket
/// and through the network, in nanoseconds, and whether either answered.
#[derive(Debug, Clone, Copy, PartialEq, Eq, Structural)]
pub struct CellStatus {
    pub local_latency_ns: Option<u64>,
    pub lan_latency_ns: Option<u64>,
    pub is_alive: bool,
}

/// A cell found by discovery.
#[derive(Debug, Clone)]
pub struct CellNode {
    pub name: String,
    pub lan_address: Option<String>,
    pub local_socket: Option<String>,
    pub status: CellStatus,
}

impl CellNode {
    /// Records the outcome of a probe: each latency is replaced only where
    /// the cell has such an address, and the cell is alive when either
    /// latency is known.
    pub fn record_probe(&mut self, local: Option<u64>, lan: Option<u64>)
        ensures
            final(self).name == old(self).name,
            final(self).lan_address == old(self).lan_address,
            final(self).local_socket == old(self).local_socket,
            final(self).status.local_latency_ns == (if old(self).local_socket is Some {
                local
            } else {
                old(self).status.local_latency_ns
            }),
            final(self).status.lan_latency_ns == (if old(self).lan_address is Some {
                lan
            } else {
                old(self).status.lan_latency_ns
            }),
            final(self).status.is_alive == (final(self).status.local_latency_ns is Some
                || final(self).status.lan_latency_ns is Some),
    {
        if self.local_socket.is_some() {
            self.status.local_latency_ns = local;
        }
        if self.lan_address.is_some() {
            self.status.lan_latency_ns = lan;
        }
        self.status.is_alive = self.status.local_latency_ns.is_some()
            || self.status.lan_latency_ns.is_some();
    }
}

/// Strict lexicographic order of byte strings (the order of `str`).
pub open spec fn byte_lt(a: Seq<u8>, b: Seq<u8>) -> bool
    decreases a.len(),
{
    if a.len() == 0 {
        b.len() > 0
    } else if b.len() == 0 {
        false
    } else if a[0] != b[0] {
        a[0] < b[0]
    } else {
        byte_lt(a.drop_first(), b.drop_first())
    }
}

proof fn lemma_byte_lt_irreflexive(a: Seq<u8>)
    ensures
        !byte_lt(a, a),
    decreases a.len(),
{
    if a.len() > 0 {
        lemma_byte_lt_irreflexive(a.drop_first());
    }
}

proof fn lemma_byte_lt_transitive(a: Seq<u8>, b: Seq<u8>, c: Seq<u8>)
    requires
        byte_lt(a, b),
        byte_lt(b, c),
    ensures
        byte_lt(a, c),
    decreases a.len(),
{
    if a.len() > 0 && b.len() > 0 && c.len() > 0 && a[0] == b[0] && b[0] == c[0] {
        lemma_byte_lt_transitive(a.drop_first(), b.drop_first(), c.drop_first());
    }
}

proof fn lemma_byte_lt_total(a: Seq<u8>, b: Seq<u8>)
    ensures
        a == b || byte_lt(a, b) || byte_lt(b, a),
    decreases a.len(),
{
    if a.len() > 0 && b.len() > 0 && a[0] == b[0] {
        lemma_byte_lt_total(a.drop_first(), b.drop_first());
        if a.drop_first() == b.drop_first() {
            assert(a =~= seq![a[0]] + a.drop_first());
            assert(b =~= seq![b[0]] + b.drop_first());
        }
    } else if a.len() == 0 && b.len() == 0 {
        assert(a =~= b);
    }
}

/// Whether `a` sorts before `b`.
pub fn bytes_less(a: &[u8], b: &[u8]) -> (r: bool)
    ensures
        r == byte_lt(a@, b@),
{
    let mut i: usize = 0;
    proof {
        assert(a@.skip(0) =~= a@);
        assert(b@.skip(0) =~= b@);
    }
    while i < a.len() && i < b.len() && a[i] == b[i]
        invariant
            i <= a@.len(),
            i <= b@.len(),
            byte_lt(a@, b@) == byte_lt(a@.skip(i as int), b@.skip(i as int)),
        decreases a@.len() - i,
    {
        proof {
            assert(a@.skip(i as int).drop_first() =~= a@.skip(i + 1));
            assert(b@.skip(i as int).drop_first() =~= b@.skip(i + 1));
        }
        i = i + 1;
    }
    if i == a.len() {
        i < b.len()
    } else if i == b.len() {
        false
    } else {
        a[i] < b[i]
    }
}

/// The sort key of a name: its UTF-8 bytes.
pub open spec fn key(name: Seq<char>) -> Seq<u8> {
    vstd::utf8::encode_utf8(name)
}

proof fn lemma_key_injective(a: Seq<char>, b: Seq<char>)
    requires
        key(a) == key(b),
    ensures
        a == b,
{
    vstd::utf8::encode_utf8_decode_utf8(a);
    vstd::utf8::encode_utf8_decode_utf8(b);
}

/// The last signal of `name` among `lan`.
pub open spec fn last_signal(lan: Seq<Signal>, name: Seq<char>) -> Option<Signal>
    decreases lan.len(),
{
    if lan.len() == 0 {
        None
    } else if lan.last().cell_name@ == name {
        Some(lan.last())
    } else {
        last_signal(lan.drop_last(), name)
    }
}

/// The last socket path listed for `name` among `local`.
pub open spec fn last_socket(local: Seq<(String, String)>, name: Seq<char>) -> Option<Seq<char>>
    decreases local.len(),
{
    if local.len() == 0 {
        None
    } else if local.last().0@ == name {
        Some(local.last().1@)
    } else {
        last_socket(local.drop_last(), name)
    }
}

/// The address a signal advertises: `ip:port`.
pub open spec fn signal_address(s: Signal) -> Seq<char> {
    s.ip@ + ":"@ + crate::text::decimal(s.port as nat)
}

/// Whether `node` is what discovery reports for its name, from the signals
/// `lan` and the local sockets `local`.
pub open spec fn node_is(node: CellNode, lan: Seq<Signal>, local: Seq<(String, String)>) -> bool {
    &&& match (node.lan_address, last_signal(lan, node.name@)) {
        (Some(a), Some(s)) => a@ == signal_address(s),
        (None, None) => true,
        _ => false,
    }
    &&& match (node.local_socket, last_socket(local, node.name@)) {
        (Some(p), Some(q)) => p@ == q,
        (None, None) => true,
        _ => false,
    }
    &&& node.status == CellStatus { local_latency_ns: None, lan_latency_ns: None, is_alive: false }
}

/// Whether `nodes` is the discovery report for `lan` and `local`: one node
/// per known name, in the order of the names' bytes.
pub open spec fn report_is(nodes: Seq<CellNode>, lan: Seq<Signal>, local: Seq<(String, String)>) -> bool {
    &&& forall|i: int, j: int| 0 <= i < j < nodes.len() ==> byte_lt(
        key(#[trigger] nodes[i].name@),
        key(#[trigger] nodes[j].name@),
    )
    &&& forall|i: int| 0 <= i < nodes.len() ==> node_is(#[trigger] nodes[i], lan, local)
    &&& forall|n: Seq<char>|
        (last_signal(lan, n) is Some || last_socket(local, n) is Some) ==> exists|i: int|
            0 <= i < nodes.len() && (#[trigger] nodes[i].name@) == n
    &&& forall|i: int|
        0 <= i < nodes.len() ==> (last_signal(lan, (#[trigger] nodes[i]).name@) is Some
            || last_socket(local, nodes[i].name@) is Some)
}

/// The merged view of the cells known from the network and from the local
/// socket directory.
pub struct Discovery;

impl Discovery {
    /// The position where `name` belongs among the sorted `nodes`, and
    /// whether a node of that name is already there.
    fn position(nodes: &Vec<CellNode>, name: &String) -> (r: (usize, bool))
        requires
            forall|i: int, j: int| 0 <= i < j < nodes@.len() ==> byte_lt(
                key(#[trigger] nodes@[i].name@),
                key(#[trigger] nodes@[j].name@),
            ),
        ensures
            r.0 <= nodes@.len(),
            forall|i: int| 0 <= i < r.0 ==> byte_lt(key(#[trigger] nodes@[i].name@), key(name@)),
            r.1 ==> r.0 < nodes@.len() && nodes@[r.0 as int].name@ == name@,
            !r.1 ==> forall|i: int| r.0 <= i < nodes@.len() ==> byte_lt(key(name@), key(#[trigger] nodes@[i].name@)),
    {
        let nb = name.as_str().as_bytes();
        let mut i: usize = 0;
        while i < nodes.len()
            invariant
                i <= nodes@.len(),
                nb@ == key(name@),
                forall|a: int, b: int| 0 <= a < b < nodes@.len() ==> byte_lt(
                    key(#[trigger] nodes@[a].name@),
                    key(#[trigger] nodes@[b].name@),
                ),
                forall|k: int| 0 <= k < i ==> byte_lt(key(#[trigger] nodes@[k].name@), key(name@)),
            decreases nodes@.len() - i,
        {
            let kb = nodes[i].name.as_str().as_bytes();
            if !bytes_less(kb, nb) {
                proof {
                    lemma_byte_lt_total(key(nodes@[i as int].name@), key(name@));
                }
                if bytes_less(nb, kb) {
                    proof {
                        assert forall|k: int| i <= k < nodes@.len() implies byte_lt(key(name@), key(#[trigger] nodes@[k].name@)) by {
                            if k > i {
                                lemma_byte_lt_transitive(key(name@), key(nodes@[i as int].name@), key(nodes@[k].name@));
                            }
                        }
                    }
                    return (i, false);
                } else {
                    proof {
                        lemma_key_injective(nodes@[i as int].name@, name@);
                    }
                    return (i, true);
                }
            }
            i = i + 1;
        }
        (i, false)
    }

    proof fn lemma_upsert(
        before: Seq<CellNode>,
        after: Seq<CellNode>,
        pos: int,
        found: bool,
        lan0: Seq<Signal>,
        lan1: Seq<Signal>,
        loc0: Seq<(String, String)>,
        loc1: Seq<(String, String)>,
        name: Seq<char>,
    )
        requires
            report_is(before, lan0, loc0),
            forall|n: Seq<char>|
                n != name ==> #[trigger] last_signal(lan1, n) == last_signal(lan0, n) && last_socket(loc1, n)
                    == last_socket(loc0, n),
            last_signal(lan1, name) is Some || last_socket(loc1, name) is Some,
            0 <= pos <= before.len(),
            forall|i: int| 0 <= i < pos ==> byte_lt(key(#[trigger] before[i].name@), key(name)),
            found ==> pos < before.len() && before[pos].name@ == name,
            !found ==> forall|i: int| pos <= i < before.len() ==> byte_lt(key(name), key(#[trigger] before[i].name@)),
            found ==> after.len() == before.len() && forall|k: int| 0 <= k < before.len() && k != pos ==> #[trigger] after[k] == before[k],
            !found ==> after.len() == before.len() + 1 && (forall|k: int| 0 <= k < pos ==> #[trigger] after[k] == before[k])
                && (forall|k: int| pos < k < after.len() ==> #[trigger] after[k] == before[k - 1]),
            pos < after.len(),
            after[pos].name@ == name,
            node_is(after[pos], lan1, loc1),
        ensures
            report_is(after, lan1, loc1),
    {
        // the index in `before` of the node at `k` in `after`, for k != pos
        let src = |k: int| if found || k < pos { k } else { k - 1 };
        assert forall|k: int| 0 <= k < after.len() && k != pos implies #[trigger] after[k] == before[src(k)]
            && 0 <= src(k) < before.len() && before[src(k)].name@ != name by {
            if found {
                lemma_byte_lt_irreflexive(key(name));
                if k < pos {
                    assert(byte_lt(key(before[k].name@), key(before[pos].name@)));
                } else {
                    assert(byte_lt(key(before[pos].name@), key(before[k].name@)));
                }
                if before[k].name@ == name {
                    lemma_byte_lt_irreflexive(key(name));
                }
            } else {
                if k < pos {
                    assert(byte_lt(key(before[k].name@), key(name)));
                } else {
                    assert(byte_lt(key(name), key(before[k - 1].name@)));
                }
                if before[src(k)].name@ == name {
                    lemma_byte_lt_irreflexive(key(name));
                }
            }
        }
        // sorted
        assert forall|i: int, j: int| 0 <= i < j < after.len() implies byte_lt(
            key(#[trigger] after[i].name@),
            key(#[trigger] after[j].name@),
        ) by {
            if i != pos && j != pos {
                assert(src(i) < src(j));
                assert(after[i] == before[src(i)]);
                assert(after[j] == before[src(j)]);
            } else if i == pos {
                assert(after[j] == before[src(j)]);
                if found {
                    assert(byte_lt(key(before[pos].name@), key(before[j].name@)));
                } else {
                    assert(byte_lt(key(name), key(before[j - 1].name@)));
                }
            } else {
                assert(after[i] == before[src(i)]);
                assert(byte_lt(key(before[i].name@), key(name)));
            }
        }
        // every node is right
        assert forall|k: int| 0 <= k < after.len() implies node_is(#[trigger] after[k], lan1, loc1) by {
            if k != pos {
                assert(after[k] == before[src(k)]);
                assert(node_is(before[src(k)], lan0, loc0));
                let n = after[k].name@;
                assert(last_signal(lan1, n) == last_signal(lan0, n));
            }
        }
        // every known name has a node
        assert forall|n: Seq<char>|
            (last_signal(lan1, n) is Some || last_socket(loc1, n) is Some) implies exists|i: int|
                0 <= i < after.len() && (#[trigger] after[i].name@) == n by {
            if n == name {
                assert(after[pos].name@ == n);
            } else {
                assert(last_signal(lan1, n) == last_signal(lan0, n));
                let i = choose|i: int| 0 <= i < before.len() && (#[trigger] before[i].name@) == n;
                if found {
                    assert(i != pos);
                    assert(after[i] == before[i]);
                    assert(after[i].name@ == n);
                } else if i < pos {
                    assert(after[i] == before[i]);
                    assert(after[i].name@ == n);
                } else {
                    assert(after[i + 1] == before[i]);
                    assert(after[i + 1].name@ == n);
                }
            }
        }
        // every node's name is known
        assert forall|k: int| 0 <= k < after.len() implies (last_signal(lan1, (#[trigger] after[k]).name@) is Some
            || last_socket(loc1, after[k].name@) is Some) by {
            if k != pos {
                assert(after[k] == before[src(k)]);
                let n = after[k].name@;
                assert(last_signal(lan1, n) == last_signal(lan0, n));
            }
        }
    }

    fn add_signal(out: &mut Vec<CellNode>, sig: &Signal, Ghost(lp): Ghost<Seq<Signal>>)
        requires
            report_is(old(out)@, lp, Seq::<(String, String)>::empty()),
        ensures
            report_is(final(out)@, lp.push(*sig), Seq::<(String, String)>::empty()),
    {
        let ghost lp2 = lp.push(*sig);
        let ghost empty = Seq::<(String, String)>::empty();
        proof {
            assert(lp2.drop_last() =~= lp);
            assert forall|n: Seq<char>| n != sig.cell_name@ implies #[trigger] last_signal(lp2, n)
                == last_signal(lp, n) && last_socket(empty, n) == last_socket(empty, n) by {}
            assert(last_signal(lp2, sig.cell_name@) == Some(*sig));
        }
        let addr = socket_address(sig.ip.as_str(), sig.port);
        let ghost before = out@;
        let (pos, found) = Self::position(out, &sig.cell_name);
        if found {
            let mut node = out.remove(pos);
            node.lan_address = Some(addr);
            out.insert(pos, node);
        } else {
            let node = CellNode {
                name: sig.cell_name.clone(),
                lan_address: Some(addr),
                local_socket: None,
                status: CellStatus { local_latency_ns: None, lan_latency_ns: None, is_alive: false },
            };
            out.insert(pos, node);
        }
        proof {
            if found {
                assert(node_is(before[pos as int], lp, empty));
            }
            Self::lemma_upsert(before, out@, pos as int, found, lp, lp2, empty, empty, sig.cell_name@);
        }
    }

    fn add_socket(
        out: &mut Vec<CellNode>,
        entry: &(String, String),
        Ghost(lan): Ghost<Seq<Signal>>,
        Ghost(cp): Ghost<Seq<(String, String)>>,
    )
        requires
            report_is(old(out)@, lan, cp),
        ensures
            report_is(final(out)@, lan, cp.push(*entry)),
    {
        let ghost cp2 = cp.push(*entry);
        proof {
            assert(cp2.drop_last() =~= cp);
            assert forall|n: Seq<char>| n != entry.0@ implies #[trigger] last_signal(lan, n)
                == last_signal(lan, n) && last_socket(cp2, n) == last_socket(cp, n) by {}
            assert(last_socket(cp2, entry.0@) == Some(entry.1@));
        }
        let ghost before = out@;
        let (pos, found) = Self::position(out, &entry.0);
        if found {
            let mut node = out.remove(pos);
            node.local_socket = Some(entry.1.clone());
            out.insert(pos, node);
        } else {
            proof {
                if last_signal(lan, entry.0@) is Some {
                    let i = choose|i: int| 0 <= i < before.len() && (#[trigger] before[i].name@) == entry.0@;
                    if i < pos {
                        assert(byte_lt(key(before[i].name@), key(entry.0@)));
                    } else {
                        assert(byte_lt(key(entry.0@), key(before[i].name@)));
                    }
                    lemma_byte_lt_irreflexive(key(entry.0@));
                }
            }
            let node = CellNode {
                name: entry.0.clone(),
                lan_address: None,
                local_socket: Some(entry.1.clone()),
                status: CellStatus { local_latency_ns: None, lan_latency_ns: None, is_alive: false },
            };
            out.insert(pos, node);
        }
        proof {
            if found {
                assert(node_is(before[pos as int], lan, cp));
            }
            Self::lemma_upsert(before, out@, pos as int, found, lan, lan, cp, cp2, entry.0@);
        }
    }

    /// The cells known from the network (`lan`) and from local sockets
    /// (`local`, each a name and its socket path), one per name, sorted by
    /// name; a later signal or path for a name replaces an earlier one.
    pub fn merge(lan: &Vec<Signal>, local: &Vec<(String, String)>) -> (r: Vec<CellNode>)
        ensures
            report_is(r@, lan@, local@),
    {
        let mut out: Vec<CellNode> = Vec::new();
        let mut i: usize = 0;
        while i < lan.len()
            invariant
                i <= lan@.len(),
                report_is(out@, lan@.take(i as int), Seq::<(String, String)>::empty()),
            decreases lan@.len() - i,
        {
            proof {
                assert(lan@.take(i + 1) =~= lan@.take(i as int).push(lan@[i as int]));
            }
            Self::add_signal(&mut out, &lan[i], Ghost(lan@.take(i as int)));
            i = i + 1;
        }
        proof {
            assert(lan@.take(lan@.len() as int) =~= lan@);
        }
        let mut j: usize = 0;
        while j < local.len()
            invariant
                j <= local@.len(),
                report_is(out@, lan@, local@.take(j as int)),
            decreases local@.len() - j,
        {
            proof {
                assert(local@.take(j + 1) =~= local@.take(j as int).push(local@[j as int]));
            }
            Self::add_socket(&mut out, &local[j], Ghost(lan@), Ghost(local@.take(j as int)));
            j = j + 1;
        }
        proof {
            assert(local@.take(local@.len() as int) =~= local@);
        }
        out
    }
}

} // verus!
