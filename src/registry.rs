//! The registry of identifiers claimed during one generation pass.
use vstd::prelude::*;
use crate::text::same_chars;

verus! {

/// Each identifier claimed so far, with the number of times it was claimed.
pub struct NameRegistry {
    names: Vec<Vec<char>>,
    counts: Vec<usize>,
    claims: usize,
}

impl NameRegistry {
    /// The identifiers, in the order of their first claim.
    pub closed spec fn names(&self) -> Seq<Seq<char>> {
        self.names@.map_values(|v: Vec<char>| v@)
    }

    /// How many times each identifier of `names` was claimed.
    pub closed spec fn counts(&self) -> Seq<nat> {
        self.counts@.map_values(|n: usize| n as nat)
    }

    /// All claims so far, accepted or not.
    pub closed spec fn claims(&self) -> nat {
        self.claims as nat
    }

    pub closed spec fn wf(&self) -> bool {
        &&& self.names@.len() == self.counts@.len()
        &&& self.names().no_duplicates()
        &&& forall|k: int| 0 <= k < self.counts@.len() ==> 1 <= #[trigger] self.counts@[k] <= self.claims
    }

    /// An empty registry.
    pub fn new() -> (r: NameRegistry)
        ensures
            r.wf(),
            r.names() == Seq::<Seq<char>>::empty(),
            r.counts() == Seq::<nat>::empty(),
            r.claims() == 0,
    {
        let r = NameRegistry { names: Vec::new(), counts: Vec::new(), claims: 0 };
        assert(r.names() =~= Seq::<Seq<char>>::empty());
        assert(r.counts() =~= Seq::<nat>::empty());
        r
    }

    /// Where `name` stands among the claimed identifiers.
    pub fn position(&self, name: &[char]) -> (r: Option<usize>)
        requires
            self.wf(),
        ensures
            match r {
                Some(k) => k < self.names().len() && self.names()[k as int] == name@,
                None => !self.names().contains(name@),
            },
    {
        let mut k: usize = 0;
        while k < self.names.len()
            invariant
                k <= self.names@.len(),
                forall|j: int| 0 <= j < k ==> self.names()[j] != name@,
            decreases self.names.len() - k,
        {
            if same_chars(self.names[k].as_slice(), name) {
                return Some(k);
            }
            k = k + 1;
        }
        None
    }

    /// How many times `name` was claimed; 0 where it never was.
    pub fn times_claimed(&self, name: &[char]) -> (r: usize)
        requires
            self.wf(),
        ensures
            !self.names().contains(name@) ==> r == 0,
            forall|k: int|
                0 <= k < self.names().len() && self.names()[k] == name@ ==> r == self.counts()[k],
    {
        match self.position(name) {
            Some(k) => {
                proof {
                    assert forall|j: int|
                        0 <= j < self.names().len() && self.names()[j] == name@ implies j == k by {
                        if j != k {
                            assert(self.names()[j] != self.names()[k as int]);
                        }
                    }
                }
                self.counts[k]
            },
            None => 0,
        }
    }

    /// Claims `name`. The first claim of an identifier is accepted and
    /// returns `true`; a later one only raises its count and returns `false`.
    pub fn claim(&mut self, name: &Vec<char>) -> (r: bool)
        requires
            old(self).wf(),
            old(self).claims() < usize::MAX,
        ensures
            final(self).wf(),
            final(self).claims() == old(self).claims() + 1,
            r == !old(self).names().contains(name@),
            r ==> final(self).names() == old(self).names().push(name@) && final(self).counts()
                == old(self).counts().push(1),
            !r ==> final(self).names() == old(self).names(),
            !r ==> exists|k: int|
                0 <= k < old(self).names().len() && old(self).names()[k] == name@
                    && final(self).counts() == old(self).counts().update(k, old(self).counts()[k] + 1),
    {
        let found = self.position(name.as_slice());
        self.claims = self.claims + 1;
        match found {
            Some(k) => {
                let n = self.counts[k];
                self.counts.set(k, n + 1);
                assert(self.counts() =~= old(self).counts().update(k as int, old(self).counts()[k as int] + 1));
                assert(self.names() == old(self).names());
                false
            },
            None => {
                self.names.push(name.clone());
                self.counts.push(1);
                assert(self.names() =~= old(self).names().push(name@));
                assert(self.counts() =~= old(self).counts().push(1));
                proof {
                    assert forall|i: int, j: int|
                        0 <= i < j < self.names().len() implies self.names()[i] != self.names()[j] by {
                        if j == self.names().len() - 1 {
                            assert(old(self).names()[i] == self.names()[i]);
                        } else {
                            assert(old(self).names()[i] == self.names()[i]);
                            assert(old(self).names()[j] == self.names()[j]);
                        }
                    }
                }
                true
            },
        }
    }
}

} // verus!
