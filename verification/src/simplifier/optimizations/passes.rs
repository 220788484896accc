use vstd::prelude::*;
use crate::simplifier::optimizations::prune_single_use;
use crate::simplifier::optimizations::prune_single_use::pruned;
use crate::simplifier::optimizations::remove_nops;
use crate::simplifier::optimizations::remove_nops::without_nops;
use crate::simplifier::simple;
use crate::simplifier::simple::{top_level_views, FunStmtView};
use crate::util::ax::Ax;
use crate::util::vecs::reversed;

verus! {

/// A body after the peephole pass: pruned, then freed of its `Nop`s.
pub open spec fn optimized_body(stmts: Seq<FunStmtView>) -> Seq<FunStmtView> {
    without_nops(pruned(stmts))
}

/// A top-level statement after the peephole pass: only the body of the function changes.
pub open spec fn optimized_top_level(s: simple::TopLevelStmtView) -> simple::TopLevelStmtView {
    match s {
        simple::TopLevelStmtView::FunDecl(f) => simple::TopLevelStmtView::FunDecl(
            Ax {
                a: f.a,
                v: simple::FunDeclView {
                    name: f.v.name,
                    implementation: simple::FunImplView {
                        parameters: f.v.implementation.parameters,
                        body: Ax {
                            a: f.v.implementation.body.a,
                            v: optimized_body(f.v.implementation.body.v),
                        },
                    },
                    tag_map: f.v.tag_map,
                    refs: f.v.refs,
                },
            },
        ),
    }
}

/// A program after the peephole pass ran on the body of each of its functions.
pub open spec fn optimized_module(m: simple::ModuleView) -> simple::ModuleView {
    simple::ModuleView {
        statements: Seq::new(m.statements.len(), |i: int| optimized_top_level(m.statements[i])),
    }
}

/// Runs the peephole pass on every function of `fun`.
pub fn run(fun: &mut simple::Module)
    ensures
        final(fun)@ == optimized_module(old(fun)@),
{
    let ghost orig = fun.statements@;
    let mut statements: Vec<simple::TopLevelStmt> = Vec::new();
    std::mem::swap(&mut statements, &mut fun.statements);
    let mut rest = reversed(statements);
    let mut out: Vec<simple::TopLevelStmt> = Vec::new();
    while rest.len() > 0
        invariant
            rest@.len() + out@.len() == orig.len(),
            forall|i: int| 0 <= i < rest@.len() ==> rest@[i] == orig[orig.len() - 1 - i],
            forall|i: int| 0 <= i < out@.len() ==> out@[i]@ == optimized_top_level(orig[i]@),
        decreases rest.len(),
    {
        let stmt = rest.pop().unwrap();
        match stmt {
            simple::TopLevelStmt::FunDecl(f) => {
                let Ax { a, v } = f;
                let mut decl = v;
                prune_single_use::run(&mut decl.implementation);
                remove_nops::run(&mut decl.implementation);
                out.push(simple::TopLevelStmt::FunDecl(Ax { a, v: decl }));
            },
        }
    }
    fun.statements = out;
    assert(fun@.statements =~= optimized_module(simple::ModuleView { statements: top_level_views(orig) }).statements);
}

} // verus!
