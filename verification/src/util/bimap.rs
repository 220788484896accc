use vstd::prelude::*;
use crate::parser::syntax::Ident;
use crate::renamer::plain::UnresolvedIdent;

verus! {

/// What a table holds: pairs of a number and a name, oldest first.
pub type Pairs = Seq<(u32, Seq<char>)>;

/// The position of the first pair at or after `from` whose number is `k`.
pub open spec fn index_of_left(pairs: Pairs, k: u32, from: nat) -> Option<nat>
    decreases pairs.len() - from,
{
    if from >= pairs.len() {
        None
    } else if pairs[from as int].0 == k {
        Some(from)
    } else {
        index_of_left(pairs, k, from + 1)
    }
}

/// The position of the first pair at or after `from` whose name is `v`.
pub open spec fn index_of_right(pairs: Pairs, v: Seq<char>, from: nat) -> Option<nat>
    decreases pairs.len() - from,
{
    if from >= pairs.len() {
        None
    } else if pairs[from as int].1 == v {
        Some(from)
    } else {
        index_of_right(pairs, v, from + 1)
    }
}

/// The name that goes with the number `k`, if the table has one.
pub open spec fn name_of(pairs: Pairs, k: u32) -> Option<Seq<char>> {
    match index_of_left(pairs, k, 0) {
        Some(i) => Some(pairs[i as int].1),
        None => None,
    }
}

/// The number that goes with the name `v`, if the table has one.
pub open spec fn number_of(pairs: Pairs, v: Seq<char>) -> Option<u32> {
    match index_of_right(pairs, v, 0) {
        Some(i) => Some(pairs[i as int].0),
        None => None,
    }
}

/// The first `n` pairs without those that hold the number `k` or the name `v`.
pub open spec fn without(pairs: Pairs, k: u32, v: Seq<char>, n: nat) -> Pairs
    decreases n,
{
    if n == 0 || n > pairs.len() {
        Seq::empty()
    } else if pairs[n - 1].0 == k || pairs[n - 1].1 == v {
        without(pairs, k, v, (n - 1) as nat)
    } else {
        without(pairs, k, v, (n - 1) as nat).push(pairs[n - 1])
    }
}

/// The table after `(k, v)` was inserted: pairs that held `k` or `v` leave, `(k, v)` comes last.
pub open spec fn inserted(pairs: Pairs, k: u32, v: Seq<char>) -> Pairs {
    without(pairs, k, v, pairs.len()).push((k, v))
}

/// No number and no name stands in two pairs.
pub open spec fn one_to_one(pairs: Pairs) -> bool {
    forall|i: int, j: int|
        0 <= i < j < pairs.len() ==> pairs[i].0 != pairs[j].0 && pairs[i].1 != pairs[j].1
}

/// A table that maps numbers to names and names to numbers, one to one. Both
/// directions are kept in step by `insert`, the only way to change it.
#[derive(Debug, PartialEq, Eq)]
pub struct Bimap {
    pairs: Vec<(UnresolvedIdent, Ident)>,
}

impl View for Bimap {
    type V = Pairs;

    closed spec fn view(&self) -> Pairs {
        Seq::new(self.pairs@.len(), |i: int| (self.pairs@[i].0.id, self.pairs@[i].1@))
    }
}

impl Bimap {
    #[verifier::type_invariant]
    spec fn well_formed(&self) -> bool {
        one_to_one(self@)
    }

    /// The empty table.
    pub fn new() -> (r: Self)
        ensures
            r@ == Pairs::empty(),
    {
        let r = Bimap { pairs: Vec::new() };
        assert(r@ =~= Pairs::empty());
        r
    }

    /// The number of pairs.
    pub fn len(&self) -> (n: usize)
        ensures
            n == self@.len(),
            one_to_one(self@),
    {
        proof {
            use_type_invariant(self);
        }
        self.pairs.len()
    }

    /// Puts `(k, v)` into the table; a pair that held `k` or `v` leaves it.
    pub fn insert(&mut self, k: UnresolvedIdent, v: Ident)
        ensures
            final(self)@ == inserted(old(self)@, k.id, v@),
    {
        proof {
            use_type_invariant(&*self);
        }
        let mut kept: Vec<(UnresolvedIdent, Ident)> = Vec::new();
        let mut i: usize = 0;
        let ghost old_view = self@;
        while i < self.pairs.len()
            invariant
                i <= self.pairs.len(),
                self@ == old_view,
                one_to_one(old_view),
                Seq::new(kept@.len(), |j: int| (kept@[j].0.id, kept@[j].1@)) == without(
                    old_view,
                    k.id,
                    v@,
                    i as nat,
                ),
                forall|j: int|
                    0 <= j < kept@.len() ==> (#[trigger] kept@[j]).0.id != k.id && kept@[j].1@
                        != v@,
                forall|j: int|
                    0 <= j < kept@.len() ==> exists|m: int|
                        0 <= m < i && old_view[m] == ((#[trigger] kept@[j]).0.id, kept@[j].1@),
                forall|a: int, b: int|
                    0 <= a < b < kept@.len() ==> (#[trigger] kept@[a]).0.id != (
                    #[trigger] kept@[b]).0.id && kept@[a].1@ != kept@[b].1@,
            decreases self.pairs.len() - i,
        {
            let ghost before = Seq::new(kept@.len(), |j: int| (kept@[j].0.id, kept@[j].1@));
            assert(old_view[i as int] == (self.pairs@[i as int].0.id, self.pairs@[i as int].1@));
            if self.pairs[i].0.id != k.id && !self.pairs[i].1.same(&v) {
                let ghost kept_before = kept@;
                kept.push((self.pairs[i].0, self.pairs[i].1.duplicate()));
                assert(Seq::new(kept@.len(), |j: int| (kept@[j].0.id, kept@[j].1@)) =~= before.push(
                    old_view[i as int],
                ));
                assert forall|a: int, b: int| 0 <= a < b < kept@.len() implies (
                #[trigger] kept@[a]).0.id != (#[trigger] kept@[b]).0.id && kept@[a].1@
                    != kept@[b].1@ by {
                    if b == kept@.len() - 1 {
                        assert(kept@[a] == kept_before[a]);
                        let m = choose|m: int|
                            0 <= m < i && old_view[m] == (kept_before[a].0.id, kept_before[a].1@);
                        assert(old_view[m].0 != old_view[i as int].0);
                    } else {
                        assert(kept@[a] == kept_before[a]);
                        assert(kept@[b] == kept_before[b]);
                    }
                }
                assert forall|j: int| 0 <= j < kept@.len() implies exists|m: int|
                    0 <= m < i + 1 && old_view[m] == ((#[trigger] kept@[j]).0.id, kept@[j].1@) by {
                    if j == kept@.len() - 1 {
                        assert(old_view[i as int] == (kept@[j].0.id, kept@[j].1@));
                    } else {
                        assert(kept@[j] == kept_before[j]);
                        let m = choose|m: int|
                            0 <= m < i && old_view[m] == (kept_before[j].0.id, kept_before[j].1@);
                        assert(old_view[m] == (kept@[j].0.id, kept@[j].1@));
                    }
                }
            }
            i += 1;
        }
        let ghost before = Seq::new(kept@.len(), |j: int| (kept@[j].0.id, kept@[j].1@));
        kept.push((k, v));
        assert(Seq::new(kept@.len(), |j: int| (kept@[j].0.id, kept@[j].1@)) =~= before.push(
            (k.id, v@),
        ));
        let r = Bimap { pairs: kept };
        assert(r@ == inserted(old_view, k.id, v@));
        assert(one_to_one(r@)) by {
            assert forall|a: int, b: int| 0 <= a < b < r@.len() implies r@[a].0 != r@[b].0
                && r@[a].1 != r@[b].1 by {
                assert(r@[a] == (kept@[a].0.id, kept@[a].1@));
                assert(r@[b] == (kept@[b].0.id, kept@[b].1@));
            }
        }
        *self = r;
    }

    /// The name that goes with the number `k`.
    pub fn get_by_left(&self, k: &UnresolvedIdent) -> (r: Option<&Ident>)
        ensures
            match r {
                Some(v) => name_of(self@, k.id) == Some(v@),
                None => name_of(self@, k.id).is_none(),
            },
    {
        let mut i: usize = 0;
        while i < self.pairs.len()
            invariant
                i <= self.pairs.len(),
                index_of_left(self@, k.id, 0) == index_of_left(self@, k.id, i as nat),
            decreases self.pairs.len() - i,
        {
            assert(self@[i as int] == (self.pairs@[i as int].0.id, self.pairs@[i as int].1@));
            if self.pairs[i].0.id == k.id {
                return Some(&self.pairs[i].1);
            }
            i += 1;
        }
        None
    }

    /// The number that goes with the name `v`.
    pub fn get_by_right(&self, v: &Ident) -> (r: Option<&UnresolvedIdent>)
        ensures
            match r {
                Some(k) => number_of(self@, v@) == Some(k.id),
                None => number_of(self@, v@).is_none(),
            },
    {
        let mut i: usize = 0;
        while i < self.pairs.len()
            invariant
                i <= self.pairs.len(),
                index_of_right(self@, v@, 0) == index_of_right(self@, v@, i as nat),
            decreases self.pairs.len() - i,
        {
            assert(self@[i as int] == (self.pairs@[i as int].0.id, self.pairs@[i as int].1@));
            if self.pairs[i].1.same(v) {
                return Some(&self.pairs[i].0);
            }
            i += 1;
        }
        None
    }

    /// The pairs of the table, oldest first.
    pub fn iter(&self) -> (r: Vec<(UnresolvedIdent, Ident)>)
        ensures
            r@.len() == self@.len(),
            forall|i: int| 0 <= i < r@.len() ==> self@[i] == ((#[trigger] r@[i]).0.id, r@[i].1@),
    {
        let mut out: Vec<(UnresolvedIdent, Ident)> = Vec::new();
        let mut i: usize = 0;
        while i < self.pairs.len()
            invariant
                i <= self.pairs.len(),
                out@.len() == i,
                forall|j: int|
                    0 <= j < i ==> self@[j] == ((#[trigger] out@[j]).0.id, out@[j].1@),
            decreases self.pairs.len() - i,
        {
            assert(self@[i as int] == (self.pairs@[i as int].0.id, self.pairs@[i as int].1@));
            out.push((self.pairs[i].0, self.pairs[i].1.duplicate()));
            i += 1;
        }
        out
    }

    /// A copy of the table.
    pub fn duplicate(&self) -> (r: Bimap)
        ensures
            r@ == self@,
    {
        proof {
            use_type_invariant(self);
        }
        let pairs = self.iter();
        let r = Bimap { pairs };
        assert(r@ =~= self@);
        r
    }
}

impl Clone for Bimap {
    fn clone(&self) -> (r: Self)
        ensures
            r@ == self@,
    {
        self.duplicate()
    }
}

} // verus!
