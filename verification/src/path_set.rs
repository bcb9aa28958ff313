//! The set of distinct request paths seen for one client.
//!
//! Backed by a vector of pairwise-distinct strings; its view is the
//! set of their character sequences.  Hitting one endpoint repeatedly
//! leaves the set unchanged, so only genuinely diverse traffic grows
//! it.

use vstd::prelude::*;

verus! {

/// A set of request paths, with no path stored twice.
pub struct PathSet {
    paths: Vec<String>,
}

impl View for PathSet {
    type V = Set<Seq<char>>;

    closed spec fn view(&self) -> Set<Seq<char>> {
        self.paths@.map_values(|p: String| p@).to_set()
    }
}

impl PathSet {
    #[verifier::type_invariant]
    spec fn inv(self) -> bool {
        forall|i: int, j: int|
            0 <= i < j < self.paths@.len() ==> self.paths@[i]@ != self.paths@[j]@
    }

    /// An empty path set.
    pub fn new() -> (r: Self)
        ensures
            r@ == Set::<Seq<char>>::empty(),
            r@.len() == 0,
            r@.finite(),
    {
        let r = PathSet { paths: Vec::new() };
        proof {
            broadcast use vstd::seq_lib::seq_to_set_is_finite;

            assert(r.paths@.map_values(|p: String| p@).to_set() =~= Set::<Seq<char>>::empty());
        }
        r
    }

    /// Whether `p` is already in the set.
    pub fn contains(&self, p: &String) -> (r: bool)
        ensures
            r == self@.contains(p@),
    {
        let ghost mapped = self.paths@.map_values(|q: String| q@);
        let n = self.paths.len();
        let mut i: usize = 0;
        while i < n
            invariant
                mapped == self.paths@.map_values(|q: String| q@),
                n == self.paths@.len(),
                0 <= i <= n,
                forall|j: int| 0 <= j < i ==> self.paths@[j]@ != p@,
            decreases n - i,
        {
            if self.paths[i] == *p {
                proof {
                    assert(mapped[i as int] == p@);
                }
                return true;
            }
            i = i + 1;
        }
        proof {
            assert forall|j: int| 0 <= j < mapped.len() implies mapped[j] != p@ by {
                assert(mapped[j] == self.paths@[j]@);
            }
        }
        false
    }

    /// Add `p`; adding a path already present changes nothing.
    pub fn insert(&mut self, p: String)
        ensures
            final(self)@ == old(self)@.insert(p@),
            final(self)@.finite(),
    {
        proof {
            use_type_invariant(&*self);
            broadcast use vstd::seq_lib::seq_to_set_is_finite;

        }
        let ghost mapped0 = self.paths@.map_values(|q: String| q@);
        if self.contains(&p) {
            proof {
                assert(old(self)@.insert(p@) =~= old(self)@);
            }
        } else {
            let mut paths: Vec<String> = Vec::new();
            core::mem::swap(&mut paths, &mut self.paths);
            paths.push(p);
            proof {
                let mapped1 = paths@.map_values(|q: String| q@);
                assert forall|i: int, j: int|
                    0 <= i < j < paths@.len() implies paths@[i]@ != paths@[j]@ by {
                    if j < paths@.len() - 1 {
                    } else {
                        assert(mapped0[i] == paths@[i]@);
                    }
                }
                assert forall|q: Seq<char>| #[trigger] mapped1.contains(q) implies mapped0.contains(
                    q,
                ) || q == paths@.last()@ by {
                    let i = choose|i: int| 0 <= i < mapped1.len() && mapped1[i] == q;
                    if i < mapped1.len() - 1 {
                        assert(mapped0[i] == q);
                    }
                }
                assert forall|q: Seq<char>| #[trigger] mapped0.contains(q) implies mapped1.contains(
                    q,
                ) by {
                    let i = choose|i: int| 0 <= i < mapped0.len() && mapped0[i] == q;
                    assert(mapped1[i] == q);
                }
                assert(mapped1.contains(mapped1[mapped1.len() - 1]));
                assert(mapped1.to_set() =~= mapped0.to_set().insert(paths@.last()@));
            }
            self.paths = paths;
        }
    }

    /// How many distinct paths the set holds.
    pub fn len(&self) -> (r: usize)
        ensures
            r == self@.len(),
            self@.finite(),
    {
        proof {
            use_type_invariant(&*self);
            broadcast use vstd::seq_lib::seq_to_set_is_finite;

            let mapped = self.paths@.map_values(|q: String| q@);
            assert(mapped.no_duplicates());
            mapped.unique_seq_to_set();
        }
        self.paths.len()
    }
}

} // verus!
