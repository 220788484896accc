use vstd::prelude::*;
use crate::simplifier::simple;
use crate::simplifier::simple::{lemma_stmts_view_push, stmts_view, FunStmtView};
use crate::util::vecs::reversed;

verus! {

/// The statements of `stmts` from position `k` on that are no `Nop`, added to `out`.
pub open spec fn without_nops_from(stmts: Seq<FunStmtView>, k: nat, out: Seq<FunStmtView>) -> Seq<
    FunStmtView,
>
    decreases stmts.len() - k,
{
    if k >= stmts.len() {
        out
    } else if stmts[k as int] is Nop {
        without_nops_from(stmts, k + 1, out)
    } else {
        without_nops_from(stmts, k + 1, out.push(stmts[k as int]))
    }
}

/// `stmts` without its `Nop`s, the rest in order.
pub open spec fn without_nops(stmts: Seq<FunStmtView>) -> Seq<FunStmtView> {
    without_nops_from(stmts, 0, Seq::empty())
}

/// Removes every `Nop` from the body of `impl_`.
pub fn run(impl_: &mut simple::FunImpl)
    ensures
        final(impl_)@.parameters == old(impl_)@.parameters,
        final(impl_)@.body.a == old(impl_)@.body.a,
        final(impl_)@.body.v == without_nops(old(impl_)@.body.v),
{
    let ghost orig = impl_.body.v@;
    let ghost views = stmts_view(orig);
    let mut body: Vec<simple::FunStmt> = Vec::new();
    std::mem::swap(&mut body, &mut impl_.body.v);
    let mut rest = reversed(body);
    let mut out: Vec<simple::FunStmt> = Vec::new();
    assert(stmts_view(out@) =~= Seq::empty());
    while rest.len() > 0
        invariant
            rest@.len() <= orig.len(),
            views == stmts_view(orig),
            forall|i: int| 0 <= i < rest@.len() ==> rest@[i] == orig[orig.len() - 1 - i],
            without_nops_from(views, 0, Seq::empty()) == without_nops_from(
                views,
                (orig.len() - rest@.len()) as nat,
                stmts_view(out@),
            ),
        decreases rest.len(),
    {
        let ghost k = orig.len() - rest@.len();
        let next = rest.pop().unwrap();
        assert(next == orig[k]);
        assert(views[k] == next@);
        match next {
            simple::FunStmt::Nop => {},
            other => {
                proof {
                    lemma_stmts_view_push(out@, other);
                }
                out.push(other);
            },
        }
    }
    impl_.body.v = out;
}

} // verus!
