//! The deduplication record: a monotonically growing set of message
//! fingerprints, one instance per direction. A fingerprint once inserted
//! is never removed; check-then-insert is a single call.
use vstd::prelude::*;
use vstd::string::StringExecFns;

use crate::payload::pair_views;
use crate::payload::seq_views;
use crate::text::str_eq;

verus! {

/// A set of previously observed message fingerprints.
pub struct DedupSet {
    items: Vec<String>,
}

impl DedupSet {
    /// The fingerprints observed so far, in order of first observation.
    pub closed spec fn fingerprints(&self) -> Seq<Seq<char>> {
        seq_views(self.items@)
    }

    /// Whether `m` was observed before.
    pub open spec fn sees(&self, m: Seq<char>) -> bool {
        self.fingerprints().contains(m)
    }

    pub fn new() -> (s: Self)
        ensures
            s.fingerprints() == Seq::<Seq<char>>::empty(),
    {
        let s = DedupSet { items: Vec::new() };
        proof {
            assert(s.fingerprints() =~= Seq::<Seq<char>>::empty());
        }
        s
    }

    /// Records `m` if it is new; the result says whether it was new.
    /// The record only ever grows, by exactly the new fingerprint.
    pub fn observe(&mut self, m: &str) -> (fresh: bool)
        ensures
            fresh == !old(self).sees(m@),
            fresh ==> final(self).fingerprints() == old(self).fingerprints().push(m@),
            !fresh ==> final(self).fingerprints() == old(self).fingerprints(),
    {
        let k: usize = self.items.len();
        let mut i: usize = 0;
        while i < k
            invariant
                k == self.items@.len(),
                i <= k,
                forall|j: int| 0 <= j < i ==> self.items@[j]@ != m@,
            decreases k - i,
        {
            if str_eq(self.items[i].as_str(), m) {
                proof {
                    assert(self.fingerprints()[i as int] == m@);
                    assert(self.sees(m@));
                }
                return false;
            }
            i = i + 1;
        }
        proof {
            assert(!old(self).sees(m@)) by {
                if old(self).sees(m@) {
                    let j = choose|j: int|
                        0 <= j < old(self).fingerprints().len() && old(self).fingerprints()[j]
                            == m@;
                    assert(old(self).items@[j]@ == m@);
                }
            }
        }
        let ghost prior = self.items@;
        self.items.push(String::from_str(m));
        proof {
            assert(self.fingerprints() =~= seq_views(prior).push(m@));
        }
        true
    }
}

/// A set of previously observed `(sender, text)` fingerprints, for the
/// protocol side, whose fingerprint is a pair.
pub struct PairDedupSet {
    items: Vec<(String, String)>,
}

impl PairDedupSet {
    /// The pairs observed so far, in order of first observation.
    pub closed spec fn fingerprints(&self) -> Seq<(Seq<char>, Seq<char>)> {
        pair_views(self.items@)
    }

    /// Whether the pair `(a, b)` was observed before.
    pub open spec fn sees(&self, a: Seq<char>, b: Seq<char>) -> bool {
        self.fingerprints().contains((a, b))
    }

    pub fn new() -> (s: Self)
        ensures
            s.fingerprints() == Seq::<(Seq<char>, Seq<char>)>::empty(),
    {
        let s = PairDedupSet { items: Vec::new() };
        proof {
            assert(s.fingerprints() =~= Seq::<(Seq<char>, Seq<char>)>::empty());
        }
        s
    }

    /// Records the pair `(a, b)` if it is new; the result says whether it
    /// was new. The record only ever grows, by exactly the new pair.
    pub fn observe(&mut self, a: &str, b: &str) -> (fresh: bool)
        ensures
            fresh == !old(self).sees(a@, b@),
            fresh ==> final(self).fingerprints() == old(self).fingerprints().push((a@, b@)),
            !fresh ==> final(self).fingerprints() == old(self).fingerprints(),
    {
        let k: usize = self.items.len();
        let mut i: usize = 0;
        while i < k
            invariant
                k == self.items@.len(),
                i <= k,
                forall|j: int|
                    0 <= j < i ==> !(self.items@[j].0@ == a@ && self.items@[j].1@ == b@),
            decreases k - i,
        {
            if str_eq(self.items[i].0.as_str(), a) && str_eq(self.items[i].1.as_str(), b) {
                proof {
                    assert(self.fingerprints()[i as int] == (a@, b@));
                    assert(self.sees(a@, b@));
                }
                return false;
            }
            i = i + 1;
        }
        proof {
            assert(!old(self).sees(a@, b@)) by {
                if old(self).sees(a@, b@) {
                    let j = choose|j: int|
                        0 <= j < old(self).fingerprints().len() && old(self).fingerprints()[j]
                            == (a@, b@);
                    assert(old(self).items@[j].0@ == a@ && old(self).items@[j].1@ == b@);
                }
            }
        }
        let ghost prior = self.items@;
        self.items.push((String::from_str(a), String::from_str(b)));
        proof {
            assert(self.fingerprints() =~= pair_views(prior).push((a@, b@)));
        }
        true
    }
}

} // verus!
