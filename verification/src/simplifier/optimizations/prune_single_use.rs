use vstd::prelude::*;
use crate::simplifier::simple;
use crate::simplifier::simple::{lemma_stmts_view_push, stmts_view, FunStmtView};
use crate::util::ax::Ax;
use crate::util::vecs::reversed;

verus! {

/// The temporary that `a` assigns to, if it assigns to one.
pub open spec fn target_temp(a: simple::AssignmentView) -> Option<simple::SingleUseIdent> {
    match a.target {
        simple::Ident::SingleUse(sid) => Some(sid.v),
        _ => None,
    }
}

/// The temporary that `a` reads, if its right-hand side is just that.
pub open spec fn value_temp(a: simple::AssignmentView) -> Option<simple::SingleUseIdent> {
    match a.value {
        simple::AssignmentValueView::Ident(simple::Ident::SingleUse(sid)) => Some(sid.v),
        _ => None,
    }
}

/// `cur` assigns to a temporary and `next` does nothing but read it.
pub open spec fn prunable(cur: FunStmtView, next: FunStmtView) -> bool {
    match (cur, next) {
        (FunStmtView::Assignment(a), FunStmtView::Assignment(b)) => target_temp(a.v).is_some()
            && target_temp(a.v) == value_temp(b.v),
        _ => false,
    }
}

/// `next` with the right-hand side of `cur` in place of its own.
pub open spec fn merged(cur: FunStmtView, next: FunStmtView) -> FunStmtView {
    match (cur, next) {
        (FunStmtView::Assignment(a), FunStmtView::Assignment(b)) => FunStmtView::Assignment(
            Ax { a: b.a, v: simple::AssignmentView { target: b.v.target, value: a.v.value } },
        ),
        _ => next,
    }
}

/// One scan from left to right over `stmts` from position `k` on. `carry` is
/// the statement before position `k`, as earlier steps left it; `out` holds
/// what stands before it. A prunable pair leaves a `Nop` and hands the merged
/// statement on.
pub open spec fn pruned_from(stmts: Seq<FunStmtView>, k: nat, out: Seq<FunStmtView>, carry: FunStmtView) -> Seq<
    FunStmtView,
>
    decreases stmts.len() - k,
{
    if k >= stmts.len() {
        out.push(carry)
    } else if prunable(carry, stmts[k as int]) {
        pruned_from(stmts, k + 1, out.push(FunStmtView::Nop), merged(carry, stmts[k as int]))
    } else {
        pruned_from(stmts, k + 1, out.push(carry), stmts[k as int])
    }
}

/// `stmts` after every adjacent pair, taken from left to right, was pruned:
/// where a statement assigns to a temporary and the next one only reads that
/// temporary, the next one takes over its right-hand side and it becomes a `Nop`.
pub open spec fn pruned(stmts: Seq<FunStmtView>) -> Seq<FunStmtView> {
    if stmts.len() == 0 {
        stmts
    } else {
        pruned_from(stmts, 1, Seq::empty(), stmts[0])
    }
}

/// Prunes the temporaries of the body of `impl_` that are read in the very next statement.
pub fn run(impl_: &mut simple::FunImpl)
    ensures
        final(impl_)@.parameters == old(impl_)@.parameters,
        final(impl_)@.body.a == old(impl_)@.body.a,
        final(impl_)@.body.v == pruned(old(impl_)@.body.v),
{
    let ghost orig = impl_.body.v@;
    let ghost views = stmts_view(orig);
    let mut body: Vec<simple::FunStmt> = Vec::new();
    std::mem::swap(&mut body, &mut impl_.body.v);
    let mut rest = reversed(body);
    let mut out: Vec<simple::FunStmt> = Vec::new();
    assert(stmts_view(out@) =~= Seq::empty());
    let mut carry = match rest.pop() {
        None => {
            assert(stmts_view(impl_.body.v@) =~= views);
            return ;
        },
        Some(first) => first,
    };
    while rest.len() > 0
        invariant
            rest@.len() < orig.len(),
            views == stmts_view(orig),
            forall|i: int| 0 <= i < rest@.len() ==> rest@[i] == orig[orig.len() - 1 - i],
            pruned_from(views, 1, Seq::empty(), views[0]) == pruned_from(
                views,
                (orig.len() - rest@.len()) as nat,
                stmts_view(out@),
                carry@,
            ),
        decreases rest.len(),
    {
        let ghost k = orig.len() - rest@.len();
        let next = rest.pop().unwrap();
        assert(next == orig[k]);
        assert(views[k] == next@);
        let (done, handed) = prune_pair(carry, next);
        proof {
            lemma_stmts_view_push(out@, done);
        }
        out.push(done);
        carry = handed;
    }
    proof {
        lemma_stmts_view_push(out@, carry);
    }
    out.push(carry);
    impl_.body.v = out;
}

fn prune_pair(cur: simple::FunStmt, next: simple::FunStmt) -> (r: (simple::FunStmt, simple::FunStmt))
    ensures
        prunable(cur@, next@) ==> r.0@ == FunStmtView::Nop && r.1@ == merged(cur@, next@),
        !prunable(cur@, next@) ==> r.0@ == cur@ && r.1@ == next@,
{
    match (cur, next) {
        (simple::FunStmt::Assignment(a), simple::FunStmt::Assignment(b)) => {
            let sui_curr = assignment_target_single_use_identifier(&a.v);
            let sui_next = assignment_value_single_use_identifier(&b.v);
            let same = match (sui_curr, sui_next) {
                (Some(x), Some(y)) => x.id == y.id,
                _ => false,
            };
            if same {
                (
                    simple::FunStmt::Nop,
                    simple::FunStmt::Assignment(
                        Ax {
                            a: b.a,
                            v: simple::Assignment { target: b.v.target, value: a.v.value },
                        },
                    ),
                )
            } else {
                (simple::FunStmt::Assignment(a), simple::FunStmt::Assignment(b))
            }
        },
        (c, n) => (c, n),
    }
}

fn assignment_target_single_use_identifier(assignment: &simple::Assignment) -> (r: Option<
    simple::SingleUseIdent,
>)
    ensures
        r == target_temp(assignment@),
{
    match assignment.target {
        simple::Ident::SingleUse(sid) => Some(sid.v),
        _ => None,
    }
}

fn assignment_value_single_use_identifier(assignment: &simple::Assignment) -> (r: Option<
    simple::SingleUseIdent,
>)
    ensures
        r == value_temp(assignment@),
{
    match assignment.value {
        simple::AssignmentValue::Ident(simple::Ident::SingleUse(sid)) => Some(sid.v),
        _ => None,
    }
}

} // verus!
