//! Positions on the grid, and sets of them.

use std::collections::HashSet;
use vstd::prelude::*;
use vstd::relations::injective_on;
use vstd::set_lib::lemma_map_size;
use vstd::std_specs::hash::group_hash_axioms;

verus! {

/// A cell of the grid: the column first, then the row.
pub type Position = (usize, usize);

/// The integer a position is stored under: the column in the upper 64 bits,
/// the row in the lower 64.
spec fn key_of(p: Position) -> u128 {
    (p.0 * 0x1_0000_0000_0000_0000 + p.1) as u128
}

/// The position whose key is `k`, where there is one.
spec fn position_of(k: u128) -> Position {
    ((k / 0x1_0000_0000_0000_0000) as usize, (k % 0x1_0000_0000_0000_0000) as usize)
}

/// Every position is found again from its key, so no two positions share one.
proof fn lemma_key_round_trip(p: Position)
    ensures
        position_of(key_of(p)) == p,
{
    let k = p.0 * 0x1_0000_0000_0000_0000 + p.1;
    assert(0 <= k <= u128::MAX);
}

/// A finite set of positions, stored as a hash set of their keys.
pub struct PositionSet {
    keys: HashSet<u128>,
}

impl View for PositionSet {
    type V = Set<Position>;

    closed spec fn view(&self) -> Set<Position> {
        Set::new(|p: Position| self.keys@.contains(key_of(p)))
    }
}

impl PositionSet {
    /// The table is finite, and every key in it is the key of a position.
    pub closed spec fn wf(&self) -> bool {
        &&& self.keys@.finite()
        &&& forall|k: u128| #[trigger] self.keys@.contains(k) ==> key_of(position_of(k)) == k
    }

    /// A well-formed set is finite, and as large as the table of keys behind it.
    proof fn lemma_same_size(&self)
        requires
            self.wf(),
        ensures
            self@.finite(),
            self@.len() == self.keys@.len(),
    {
        broadcast use group_hash_axioms;

        let decode = |k: u128| position_of(k);
        assert(self.keys@.map(decode) =~= self@) by {
            assert forall|p: Position| self@.contains(p) implies self.keys@.map(decode).contains(
                p,
            ) by {
                lemma_key_round_trip(p);
                assert(self.keys@.contains(key_of(p)) && decode(key_of(p)) == p);
            }
        }
        assert(injective_on(decode, self.keys@));
        lemma_map_size(self.keys@, self@, decode);
    }

    /// The empty set.
    pub fn new() -> (s: PositionSet)
        ensures
            s.wf(),
            s@ == Set::<Position>::empty(),
    {
        let s = PositionSet { keys: HashSet::new() };
        assert(s@ =~= Set::<Position>::empty());
        s
    }

    fn key(p: Position) -> (k: u128)
        ensures
            k == key_of(p),
    {
        p.0 as u128 * 0x1_0000_0000_0000_0000 + p.1 as u128
    }

    /// The number of positions in the set.
    pub fn len(&self) -> (n: usize)
        requires
            self.wf(),
        ensures
            self@.finite(),
            n == self@.len(),
    {
        proof {
            broadcast use group_hash_axioms;
            self.lemma_same_size();
        }
        self.keys.len()
    }

    /// Whether `p` is in the set.
    pub fn contains(&self, p: Position) -> (found: bool)
        ensures
            found == self@.contains(p),
    {
        broadcast use group_hash_axioms;

        let k = Self::key(p);
        self.keys.contains(&k)
    }

    /// Puts `p` into the set and says whether it was new.
    pub fn insert(&mut self, p: Position) -> (fresh: bool)
        requires
            old(self).wf(),
        ensures
            final(self).wf(),
            final(self)@ == old(self)@.insert(p),
            fresh == !old(self)@.contains(p),
    {
        broadcast use group_hash_axioms;

        let k = Self::key(p);
        let fresh = self.keys.insert(k);
        proof {
            lemma_key_round_trip(p);
            assert forall|q: Position| key_of(q) == k implies q == p by {
                lemma_key_round_trip(q);
            }
            assert(self@ =~= old(self)@.insert(p));
        }
        fresh
    }
}

} // verus!
