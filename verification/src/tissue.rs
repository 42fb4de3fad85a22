//! A tissue: the instances of one cell, served round robin.

use vstd::prelude::*;

verus! {

/// `s` with its first element moved to the end.
pub open spec fn rotate_once<S>(s: Seq<S>) -> Seq<S> {
    if s.len() == 0 { s } else { s.drop_first().push(s[0]) }
}

/// `s` rotated `k` times.
pub open spec fn rotate_times<S>(s: Seq<S>, k: nat) -> Seq<S>
    decreases k,
{
    if k == 0 { s } else { rotate_once(rotate_times(s, (k - 1) as nat)) }
}

/// The instances of a cell, in the order they will be used.
pub struct Tissue<S> {
    cell_name: String,
    members: Vec<S>,
}

impl<S> Tissue<S> {
    pub closed spec fn name(&self) -> Seq<char> {
        self.cell_name@
    }

    /// The instances, the next one to serve first.
    pub closed spec fn order(&self) -> Seq<S> {
        self.members@
    }

    /// A tissue of the instances found; none found is an error.
    pub fn new(cell_name: &str, members: Vec<S>) -> (r: Result<Self, String>)
        ensures
            members@.len() == 0 ==> (r matches Err(e) && e@ == "No instances of tissue '"@
                + cell_name@ + "' found locally."@),
            members@.len() > 0 ==> (r matches Ok(t) && t.order() == members@ && t.name()
                == cell_name@),
    {
        if members.len() == 0 {
            let mut e = String::from_str("No instances of tissue '");
            e.append(cell_name);
            e.append("' found locally.");
            Err(e)
        } else {
            Ok(Tissue { cell_name: String::from_str(cell_name), members })
        }
    }

    /// The instance to serve the next request.
    pub fn current(&self) -> (r: Result<&S, String>)
        ensures
            self.order().len() == 0 ==> (r matches Err(e) && e@ == "Tissue '"@ + self.name()
                + "' has no active cells"@),
            self.order().len() > 0 ==> r == Ok::<&S, String>(&self.order()[0]),
    {
        if self.members.len() == 0 {
            let mut e = String::from_str("Tissue '");
            e.append(self.cell_name.as_str());
            e.append("' has no active cells");
            Err(e)
        } else {
            Ok(&self.members[0])
        }
    }

    /// Moves on to the next instance: the one just used goes last.
    pub fn rotate(&mut self)
        ensures
            final(self).order() == rotate_once(old(self).order()),
            final(self).name() == old(self).name(),
    {
        if self.members.len() > 0 {
            let first = self.members.remove(0);
            self.members.push(first);
        }
    }

    /// Every instance, in order, for a broadcast.
    pub fn members(&self) -> (r: &Vec<S>)
        ensures
            r@ == self.order(),
    {
        &self.members
    }
}

/// After `k` rotations the instance at the front is the one that stood `k`
/// places back, counting around the circle.
pub proof fn lemma_rotation_front<S>(s: Seq<S>, k: nat)
    requires
        s.len() > 0,
    ensures
        rotate_times(s, k).len() == s.len(),
        forall|i: int|
            0 <= i < s.len() ==> #[trigger] rotate_times(s, k)[i] == s[(i + k) % (s.len() as int)],
    decreases k,
{
    if k > 0 {
        lemma_rotation_front(s, (k - 1) as nat);
        let prev = rotate_times(s, (k - 1) as nat);
        let n = s.len() as int;
        assert forall|i: int| 0 <= i < n implies #[trigger] rotate_times(s, k)[i] == s[(i + k) % n] by {
            if i < n - 1 {
                assert(rotate_times(s, k)[i] == prev[i + 1]);
                assert(prev[i + 1] == s[(i + 1 + (k - 1)) % n]);
            } else {
                assert(rotate_times(s, k)[i] == prev[0]);
                assert(prev[0] == s[(0 + (k - 1)) % n]);
                assert((i + k) % n == (k - 1) % n) by {
                    vstd::arithmetic::div_mod::lemma_mod_add_multiples_vanish((k - 1) as int, n);
                }
            }
        }
    } else {
        let n = s.len() as int;
        assert forall|i: int| 0 <= i < n implies #[trigger] rotate_times(s, k)[i] == s[(i + k) % n] by {
            vstd::arithmetic::div_mod::lemma_small_mod(i as nat, n as nat);
        }
    }
}

/// A full round of rotations brings a tissue back to its first order, so
/// each instance serves once per round.
pub proof fn lemma_round_robin_cycle<S>(s: Seq<S>)
    ensures
        rotate_times(s, s.len()) == s,
{
    if s.len() > 0 {
        lemma_rotation_front(s, s.len());
        let n = s.len() as int;
        assert forall|i: int| 0 <= i < n implies #[trigger] rotate_times(s, s.len())[i] == s[i] by {
            vstd::arithmetic::div_mod::lemma_mod_add_multiples_vanish(i, n);
            vstd::arithmetic::div_mod::lemma_small_mod(i as nat, n as nat);
        }
        assert(rotate_times(s, s.len()) =~= s);
    } else {
        lemma_rotate_empty(s, 0);
    }
}

proof fn lemma_rotate_empty<S>(s: Seq<S>, k: nat)
    requires
        s.len() == 0,
    ensures
        rotate_times(s, k) == s,
    decreases k,
{
    if k > 0 {
        lemma_rotate_empty(s, (k - 1) as nat);
    }
}

} // verus!
