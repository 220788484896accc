use vstd::prelude::*;
use crate::simplifier::optimizations::passes::optimized_body;
use crate::simplifier::optimizations::prune_single_use::{merged, prunable, pruned, pruned_from};
use crate::simplifier::optimizations::remove_nops::{without_nops, without_nops_from};
use crate::simplifier::simple::FunStmtView;

verus! {

/// No statement of `s` is a `Nop`.
pub open spec fn no_nops(s: Seq<FunStmtView>) -> bool {
    forall|i: int| 0 <= i < s.len() ==> !(#[trigger] s[i] is Nop)
}

/// No two neighbours of `s` are a prunable pair.
pub open spec fn settled(s: Seq<FunStmtView>) -> bool {
    forall|i: int| 0 <= i < s.len() - 1 ==> !prunable(#[trigger] s[i], s[i + 1])
}

proof fn lemma_without_nops_push(s: Seq<FunStmtView>, x: FunStmtView, k: nat, acc: Seq<FunStmtView>)
    requires
        k <= s.len(),
    ensures
        without_nops_from(s.push(x), k, acc) == if x is Nop {
            without_nops_from(s, k, acc)
        } else {
            without_nops_from(s, k, acc).push(x)
        },
    decreases s.len() - k,
{
    if k < s.len() {
        assert(s.push(x)[k as int] == s[k as int]);
        if s[k as int] is Nop {
            lemma_without_nops_push(s, x, k + 1, acc);
        } else {
            lemma_without_nops_push(s, x, k + 1, acc.push(s[k as int]));
        }
    } else {
        assert(s.push(x)[k as int] == x);
        assert(without_nops_from(s.push(x), k + 1, acc) == acc);
        assert(without_nops_from(s.push(x), k + 1, acc.push(x)) == acc.push(x));
    }
}

proof fn lemma_without_nops_has_none(s: Seq<FunStmtView>, k: nat, acc: Seq<FunStmtView>)
    requires
        no_nops(acc),
    ensures
        no_nops(without_nops_from(s, k, acc)),
    decreases s.len() - k,
{
    if k < s.len() {
        if s[k as int] is Nop {
            lemma_without_nops_has_none(s, k + 1, acc);
        } else {
            lemma_without_nops_has_none(s, k + 1, acc.push(s[k as int]));
        }
    }
}

proof fn lemma_without_nops_keeps(t: Seq<FunStmtView>, k: nat)
    requires
        no_nops(t),
        k <= t.len(),
    ensures
        without_nops_from(t, k, t.take(k as int)) == t,
    decreases t.len() - k,
{
    if k < t.len() {
        assert(t.take(k as int).push(t[k as int]) =~= t.take((k + 1) as int));
        lemma_without_nops_keeps(t, k + 1);
    } else {
        assert(t.take(k as int) =~= t);
    }
}

proof fn lemma_pruned_keeps(t: Seq<FunStmtView>, k: nat)
    requires
        settled(t),
        1 <= k <= t.len(),
    ensures
        pruned_from(t, k, t.take(k - 1), t[k - 1]) == t,
    decreases t.len() - k,
{
    if k < t.len() {
        assert(!prunable(t[k - 1], t[k as int]));
        assert(t.take(k - 1).push(t[k - 1]) =~= t.take(k as int));
        lemma_pruned_keeps(t, k + 1);
    } else {
        assert(t.take(k - 1).push(t[k - 1]) =~= t);
    }
}

proof fn lemma_pruned_settles(s: Seq<FunStmtView>, k: nat, out: Seq<FunStmtView>, carry: FunStmtView)
    requires
        no_nops(s),
        k <= s.len(),
        !(carry is Nop),
        settled(without_nops(out)),
        without_nops(out).len() > 0 ==> !prunable(without_nops(out).last(), carry),
    ensures
        settled(without_nops(pruned_from(s, k, out, carry))),
    decreases s.len() - k,
{
    let kept = without_nops(out);
    if k >= s.len() {
        lemma_without_nops_push(out, carry, 0, Seq::empty());
        let r = kept.push(carry);
        assert forall|i: int| 0 <= i < r.len() - 1 implies !prunable(#[trigger] r[i], r[i + 1]) by {
            if i < kept.len() - 1 {
                assert(!prunable(kept[i], kept[i + 1]));
            }
        }
    } else {
        let x = s[k as int];
        assert(!(x is Nop));
        if prunable(carry, x) {
            lemma_without_nops_push(out, FunStmtView::Nop, 0, Seq::empty());
            lemma_pruned_settles(s, k + 1, out.push(FunStmtView::Nop), merged(carry, x));
        } else {
            lemma_without_nops_push(out, carry, 0, Seq::empty());
            let r = kept.push(carry);
            assert forall|i: int| 0 <= i < r.len() - 1 implies !prunable(#[trigger] r[i], r[i + 1]) by {
                if i < kept.len() - 1 {
                    assert(!prunable(kept[i], kept[i + 1]));
                }
            }
            lemma_pruned_settles(s, k + 1, out.push(carry), x);
        }
    }
}

/// The peephole pass leaves nothing for a second pass: a body without `Nop`s
/// comes out of the pass without `Nop`s and without a prunable pair.
pub proof fn lemma_optimized_is_settled(s: Seq<FunStmtView>)
    requires
        no_nops(s),
    ensures
        no_nops(optimized_body(s)),
        settled(optimized_body(s)),
{
    lemma_without_nops_has_none(pruned(s), 0, Seq::empty());
    if s.len() > 0 {
        assert(without_nops(Seq::<FunStmtView>::empty()) =~= Seq::empty());
        lemma_pruned_settles(s, 1, Seq::empty(), s[0]);
    } else {
        assert(without_nops(s) =~= s);
    }
}

/// On a body without `Nop`s and without a prunable pair the peephole pass changes nothing.
pub proof fn lemma_settled_is_fixed(t: Seq<FunStmtView>)
    requires
        no_nops(t),
        settled(t),
    ensures
        optimized_body(t) == t,
{
    if t.len() > 0 {
        assert(t.take(0) =~= Seq::empty());
        lemma_pruned_keeps(t, 1);
    }
    assert(t.take(0) =~= Seq::empty());
    lemma_without_nops_keeps(t, 0);
}

/// Running the peephole pass twice gives what running it once gives, on every
/// body that holds no `Nop` before the first run.
pub proof fn lemma_peephole_idempotent(s: Seq<FunStmtView>)
    requires
        no_nops(s),
    ensures
        optimized_body(optimized_body(s)) == optimized_body(s),
{
    lemma_optimized_is_settled(s);
    lemma_settled_is_fixed(optimized_body(s));
}

} // verus!
