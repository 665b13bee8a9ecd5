//! Inputted Coriolis resonances: a map from an unordered pair of mode
//! indices to the rotational axes (1 = A, 2 = B, 3 = C) along which the
//! coupling acts.  The map is kept as an association list in insertion
//! order, with each key held once.

use vstd::prelude::*;

verus! {

/// Inputted coriolis resonances: a map of mode pairs to axes.
#[derive(Clone, Debug, PartialEq)]
pub struct Coriol {
    pub data: Vec<((usize, usize), Vec<usize>)>,
}

impl View for Coriol {
    type V = Seq<((usize, usize), Seq<usize>)>;

    open spec fn view(&self) -> Seq<((usize, usize), Seq<usize>)> {
        Seq::new(self.data@.len(), |i: int| (self.data@[i].0, self.data@[i].1@))
    }
}

/// Index of `key` in the association list, or its length if absent.
pub open spec fn find_key(s: Seq<((usize, usize), Seq<usize>)>, key: (usize, usize)) -> int
    decreases s.len(),
{
    if s.len() == 0 {
        0
    } else if s[0].0 == key {
        0
    } else {
        1 + find_key(s.drop_first(), key)
    }
}

pub proof fn lemma_find_key(s: Seq<((usize, usize), Seq<usize>)>, key: (usize, usize))
    ensures
        0 <= find_key(s, key) <= s.len(),
        forall|j: int| 0 <= j < find_key(s, key) ==> s[j].0 != key,
        find_key(s, key) < s.len() ==> s[find_key(s, key)].0 == key,
    decreases s.len(),
{
    if s.len() > 0 && s[0].0 != key {
        lemma_find_key(s.drop_first(), key);
        assert forall|j: int| 0 <= j < find_key(s, key) implies s[j].0 != key by {
            if j > 0 {
                assert(s.drop_first()[j - 1] == s[j]);
            }
        }
        if find_key(s, key) < s.len() {
            assert(s.drop_first()[find_key(s, key) - 1] == s[find_key(s, key)]);
        }
    }
}

/// The list after appending `axis` under `key`: the existing entry grows,
/// or a new entry is added at the end.
pub open spec fn spec_coriol_insert(
    s: Seq<((usize, usize), Seq<usize>)>,
    key: (usize, usize),
    axis: usize,
) -> Seq<((usize, usize), Seq<usize>)> {
    let i = find_key(s, key);
    if i < s.len() {
        s.update(i, (key, s[i].1.push(axis)))
    } else {
        s.push((key, seq![axis]))
    }
}

impl Coriol {
    pub fn empty() -> (r: Coriol)
        ensures
            r@ == Seq::<((usize, usize), Seq<usize>)>::empty(),
    {
        let r = Coriol { data: Vec::new() };
        proof {
            assert(r@ =~= Seq::<((usize, usize), Seq<usize>)>::empty());
        }
        r
    }

    /// Append `axis` to the list of axes coupling the mode pair `key`.
    pub fn insert(&mut self, key: (usize, usize), axis: usize)
        ensures
            final(self)@ == spec_coriol_insert(old(self)@, key, axis),
    {
        proof {
            lemma_find_key(old(self)@, key);
        }
        let n = self.data.len();
        let mut i: usize = 0;
        while i < n
            invariant
                n == self.data@.len(),
                0 <= i <= n,
                *self == *old(self),
                forall|j: int| 0 <= j < i ==> self@[j].0 != key,
            decreases n - i,
        {
            let (a, b) = self.data[i].0;
            if a == key.0 && b == key.1 {
                proof {
                    assert(self@[i as int].0 == key);
                    assert(find_key(old(self)@, key) == i) by {
                        lemma_find_key(old(self)@, key);
                        if find_key(old(self)@, key) < i {
                            assert(self@[find_key(old(self)@, key)].0 != key);
                        }
                        if find_key(old(self)@, key) > i {
                            assert(self@[i as int].0 != key);
                        }
                    }
                }
                let mut entry = self.data.remove(i);
                entry.1.push(axis);
                self.data.insert(i, entry);
                proof {
                    assert(self@ =~~= spec_coriol_insert(old(self)@, key, axis));
                }
                return ;
            }
            i += 1;
        }
        proof {
            assert(find_key(old(self)@, key) == old(self)@.len()) by {
                lemma_find_key(old(self)@, key);
                if find_key(old(self)@, key) < old(self)@.len() {
                    assert(self@[find_key(old(self)@, key)].0 != key);
                }
            }
        }
        let mut axes: Vec<usize> = Vec::new();
        axes.push(axis);
        self.data.push((key, axes));
        proof {
            assert(self@ =~~= spec_coriol_insert(old(self)@, key, axis));
        }
    }
}

} // verus!
