use vstd::prelude::*;
use crate::codegen::fragment;
use crate::codegen::types::Instruction;
use crate::linker::error::{Error, ErrorView};
use crate::linker::linked;
use crate::linker::prims::{primitives, prims};
use crate::parser::syntax;
use crate::parser::syntax::duplicate_lident;
use crate::util::ax::Ax;
use crate::util::bimap::name_of;
use crate::util::loc::SrcLoc;
use crate::util::vecs::reversed;

verus! {

/// The fragments of a program in the order of their indices.
pub type Fragments = Seq<fragment::TopLevelStmtView>;

/// The function that a top-level statement declares.
pub open spec fn decl_of(s: fragment::TopLevelStmtView) -> fragment::FunDeclView {
    match s {
        fragment::TopLevelStmtView::FunDecl(f) => f.v,
    }
}

/// Where a top-level statement stands.
pub open spec fn place_of(s: fragment::TopLevelStmtView) -> SrcLoc {
    match s {
        fragment::TopLevelStmtView::FunDecl(f) => f.a,
    }
}

/// The index of the first function at or after `from` that is called `name`.
pub open spec fn index_of_name(frags: Fragments, name: Seq<char>, from: nat) -> Option<nat>
    decreases frags.len() - from,
{
    if from >= frags.len() {
        None
    } else if decl_of(frags[from as int]).name.v == name {
        Some(from)
    } else {
        index_of_name(frags, name, from + 1)
    }
}

/// Whether a name stands twice, looked for from position `k` on: the first
/// function whose name an earlier one has is the error.
pub open spec fn checked_names(frags: Fragments, k: nat) -> Result<(), ErrorView>
    decreases frags.len() - k,
{
    if k >= frags.len() {
        Ok(())
    } else {
        match index_of_name(frags, decl_of(frags[k as int]).name.v, 0) {
            Some(j) if j < k => Err(ErrorView::DuplicateName(decl_of(frags[k as int]).name)),
            _ => checked_names(frags, k + 1),
        }
    }
}

/// What the linker knows of each function: whether its linking has started,
/// and its linked form once that is done.
pub struct LinkState {
    pub started: Seq<bool>,
    pub funs: Seq<Option<linked::FunDeclView>>,
}

/// The state before anything is linked.
pub open spec fn initial_state(n: nat) -> LinkState {
    LinkState { started: Seq::new(n, |i: int| false), funs: Seq::new(n, |i: int| None) }
}

/// The number of functions whose linking has not started.
pub open spec fn unstarted(started: Seq<bool>) -> nat
    decreases started.len(),
{
    if started.len() == 0 {
        0
    } else {
        unstarted(started.drop_last()) + if started.last() {
            0nat
        } else {
            1nat
        }
    }
}

/// The index of the function called `name`. Its linking starts now if it has
/// not started before: resolution is driven by demand, and no function is
/// linked twice. `fuel` bounds how deep linking may nest; the number of
/// fragments is always enough, since each nesting starts one more function.
pub open spec fn resolved_name(frags: Fragments, st: LinkState, name: Seq<char>, fuel: nat) -> Result<
    (LinkState, u32),
    ErrorView,
>
    decreases fuel, 1nat, 0nat,
{
    match index_of_name(frags, name, 0) {
        None => Err(ErrorView::UnresolvedName(name)),
        Some(j) => if j >= st.started.len() || st.started[j as int] || fuel == 0 {
            Ok((st, j as u32))
        } else {
            match linked_function(frags, st, j, (fuel - 1) as nat) {
                Err(e) => Err(e),
                Ok(st2) => Ok((st2, j as u32)),
            }
        },
    }
}

/// The callee of the open call `c` in function `i`: the name comes from the
/// function's references table, the index from the program.
pub open spec fn linked_call(frags: Fragments, st: LinkState, i: nat, c: fragment::Call, fuel: nat) -> Result<
    (LinkState, u32),
    ErrorView,
>
    decreases fuel, 2nat, 0nat,
{
    match name_of(decl_of(frags[i as int]).refs, c.fun.id) {
        None => Err(
            ErrorView::MissingReference { function: decl_of(frags[i as int]).name, reference: c.fun },
        ),
        Some(name) => resolved_name(frags, st, name, fuel),
    }
}

/// The instructions of function `i` from position `k` on, linked in order and
/// added to `acc`: an open call becomes a call by index.
pub open spec fn linked_instrs(
    frags: Fragments,
    st: LinkState,
    i: nat,
    k: nat,
    acc: Seq<linked::Instr>,
    fuel: nat,
) -> Result<(LinkState, Seq<linked::Instr>), ErrorView>
    decreases fuel, 3nat, decl_of(frags[i as int]).implementation.body.len() - k,
{
    let body = decl_of(frags[i as int]).implementation.body;
    if k >= body.len() {
        Ok((st, acc))
    } else {
        match body[k as int] {
            fragment::Instr::Raw(r) => linked_instrs(
                frags,
                st,
                i,
                k + 1,
                acc.push(linked::Instr { instr: r }),
                fuel,
            ),
            fragment::Instr::Call(c) => match linked_call(frags, st, i, c, fuel) {
                Err(e) => Err(e),
                Ok((st2, j)) => linked_instrs(
                    frags,
                    st2,
                    i,
                    k + 1,
                    acc.push(linked::Instr { instr: Instruction::Call(j) }),
                    fuel,
                ),
            },
        }
    }
}

/// Function `i` linked: it counts as started before its calls are resolved,
/// so that a call back to it, direct or through others, finds its index.
pub open spec fn linked_function(frags: Fragments, st: LinkState, i: nat, fuel: nat) -> Result<
    LinkState,
    ErrorView,
>
    decreases fuel, 4nat, 0nat,
{
    let f = decl_of(frags[i as int]);
    let st1 = LinkState { started: st.started.update(i as int, true), funs: st.funs };
    match linked_instrs(frags, st1, i, 0, Seq::empty(), fuel) {
        Err(e) => Err(e),
        Ok((st2, body)) => Ok(
            LinkState {
                started: st2.started,
                funs: st2.funs.update(
                    i as int,
                    Some(
                        linked::FunDeclView {
                            name: f.name,
                            export: f.export,
                            implementation: linked::FunImplView {
                                params: f.implementation.params,
                                slots: f.implementation.slots,
                                body,
                            },
                        },
                    ),
                ),
            },
        ),
    }
}

/// The functions from index `i` on, each linked unless an earlier call has
/// started it.
pub open spec fn linked_all(frags: Fragments, st: LinkState, i: nat, fuel: nat) -> Result<
    LinkState,
    ErrorView,
>
    decreases frags.len() - i,
{
    if i >= frags.len() {
        Ok(st)
    } else if i < st.started.len() && st.started[i as int] {
        linked_all(frags, st, i + 1, fuel)
    } else {
        match linked_function(frags, st, i, fuel) {
            Err(e) => Err(e),
            Ok(st2) => linked_all(frags, st2, i + 1, fuel),
        }
    }
}

/// The fragments linked into one module. The index of a function is its
/// position among the fragments. A name that stands twice is an error; so is
/// a call of a name that no fragment has.
pub open spec fn linked_fragments(frags: Fragments) -> Result<linked::ModuleView, ErrorView> {
    if frags.len() > u32::MAX {
        Err(ErrorView::TooManyFunctions)
    } else {
        match checked_names(frags, 0) {
            Err(e) => Err(e),
            Ok(()) => match linked_all(frags, initial_state(frags.len()), 0, frags.len()) {
                Err(e) => Err(e),
                Ok(st) => Ok(
                    linked::ModuleView {
                        statements: Seq::new(
                            frags.len(),
                            |i: int|
                                linked::TopLevelStmtView::FunDecl(
                                    Ax { a: place_of(frags[i]), v: st.funs[i]->Some_0 },
                                ),
                        ),
                    },
                ),
            },
        }
    }
}

/// The program that `link` links: the primitives first, the prelude if there
/// is one, the user's functions last.
pub open spec fn program(
    user: fragment::ModuleView,
    primitives: fragment::ModuleView,
    prelude: Option<fragment::ModuleView>,
) -> Fragments {
    match prelude {
        Some(p) => primitives.statements + p.statements + user.statements,
        None => primitives.statements + user.statements,
    }
}

/// Links the user's fragments with the primitives.
pub fn run(input: &fragment::Module) -> (r: Result<linked::Module, Error>)
    ensures
        match r {
            Ok(m) => linked_fragments(program(input@, primitives(), None)) == Ok::<
                linked::ModuleView,
                ErrorView,
            >(m@),
            Err(e) => linked_fragments(program(input@, primitives(), None)) == Err::<
                linked::ModuleView,
                ErrorView,
            >(e@),
        },
{
    let p = prims();
    link(input, &p, None)
}

/// Links the primitives, the prelude if there is one, and the user's
/// fragments into one module. Each function's index is its position in that
/// order; every open call becomes a call by index.
pub fn link(
    user: &fragment::Module,
    primitives: &fragment::Module,
    prelude: Option<&fragment::Module>,
) -> (r: Result<linked::Module, Error>)
    ensures
        match r {
            Ok(m) => linked_fragments(
                program(
                    user@,
                    primitives@,
                    match prelude {
                        Some(p) => Some(p@),
                        None => None,
                    },
                ),
            ) == Ok::<linked::ModuleView, ErrorView>(m@),
            Err(e) => linked_fragments(
                program(
                    user@,
                    primitives@,
                    match prelude {
                        Some(p) => Some(p@),
                        None => None,
                    },
                ),
            ) == Err::<linked::ModuleView, ErrorView>(e@),
        },
{
    let all = match prelude {
        Some(p) => primitives.add(p).add(user),
        None => primitives.add(user),
    };
    link_fragments(&all.statements)
}

fn link_fragments(frags: &Vec<fragment::TopLevelStmt>) -> (r: Result<linked::Module, Error>)
    ensures
        match r {
            Ok(m) => linked_fragments(fragment::top_level_views(frags@)) == Ok::<
                linked::ModuleView,
                ErrorView,
            >(m@),
            Err(e) => linked_fragments(fragment::top_level_views(frags@)) == Err::<
                linked::ModuleView,
                ErrorView,
            >(e@),
        },
{
    let ghost views = fragment::top_level_views(frags@);
    if frags.len() > 0xffff_ffff {
        return Err(Error::TooManyFunctions);
    }
    match check_names(frags) {
        Err(e) => {
            return Err(e);
        },
        Ok(()) => {},
    }
    let mut env = LinkerEnv::new(frags.len());
    let mut i: usize = 0;
    proof {
        lemma_unstarted_bound(env@.started);
    }
    while i < frags.len()
        invariant
            i <= frags.len(),
            views == fragment::top_level_views(frags@),
            views.len() <= u32::MAX,
            env.wf(views.len()),
            checked_names(views, 0) == Ok::<(), ErrorView>(()),
            unstarted(env@.started) <= views.len(),
            forall|j: int| 0 <= j < i ==> env@.started[j],
            forall|j: int| 0 <= j < views.len() && env@.started[j] ==> env@.funs[j].is_some(),
            linked_all(views, initial_state(views.len()), 0, views.len()) == linked_all(
                views,
                env@,
                i as nat,
                views.len(),
            ),
        decreases frags.len() - i,
    {
        if !env.is_started(i) {
            match link_function(&mut env, frags, i, Ghost(views.len())) {
                Err(e) => {
                    return Err(e);
                },
                Ok(()) => {},
            }
        }
        i += 1;
    }
    let ghost st = env@;
    let ghost all = env.funs@;
    let mut rest = reversed(env.funs);
    let mut statements: Vec<linked::TopLevelStmt> = Vec::new();
    assert forall|j: int| 0 <= j < rest@.len() implies (#[trigger] rest@[j]).is_some() && Some(
        rest@[j]->Some_0@,
    ) == st.funs[views.len() - 1 - j] by {
        let m = views.len() - 1 - j;
        assert(st.started[m]);
        assert(st.funs[m].is_some());
        assert(rest@[j] == all[m]);
    }
    while rest.len() > 0
        invariant
            views == fragment::top_level_views(frags@),
            rest@.len() + statements@.len() == views.len(),
            forall|j: int|
                0 <= j < rest@.len() ==> (#[trigger] rest@[j]).is_some() && Some(
                    rest@[j]->Some_0@,
                ) == st.funs[views.len() - 1 - j],
            forall|j: int|
                0 <= j < statements@.len() ==> (#[trigger] statements@[j])@
                    == linked::TopLevelStmtView::FunDecl(
                    Ax { a: place_of(views[j]), v: st.funs[j]->Some_0 },
                ),
        decreases rest.len(),
    {
        let n = statements.len();
        let f = rest.pop().unwrap();
        assert(views[n as int] == frags@[n as int]@);
        let loc = match &frags[n] {
            fragment::TopLevelStmt::FunDecl(d) => d.a,
        };
        statements.push(linked::TopLevelStmt::FunDecl(Ax { a: loc, v: f.unwrap() }));
    }
    let m = linked::Module { statements };
    assert(m@.statements =~= Seq::new(
        views.len(),
        |i: int| linked::TopLevelStmtView::FunDecl(Ax { a: place_of(views[i]), v: st.funs[i]->Some_0 }),
    ));
    Ok(m)
}

fn name_of_fragment(s: &fragment::TopLevelStmt) -> (r: &syntax::Ident)
    ensures
        r@ == decl_of(s@).name.v,
{
    match s {
        fragment::TopLevelStmt::FunDecl(f) => &f.v.name.v,
    }
}

fn find_fragment(frags: &Vec<fragment::TopLevelStmt>, name: &syntax::Ident) -> (r: Option<usize>)
    ensures
        match r {
            Some(j) => index_of_name(fragment::top_level_views(frags@), name@, 0) == Some(j as nat)
                && j < frags@.len(),
            None => index_of_name(fragment::top_level_views(frags@), name@, 0).is_none(),
        },
{
    let ghost views = fragment::top_level_views(frags@);
    let mut j: usize = 0;
    while j < frags.len()
        invariant
            j <= frags.len(),
            views == fragment::top_level_views(frags@),
            index_of_name(views, name@, 0) == index_of_name(views, name@, j as nat),
        decreases frags.len() - j,
    {
        assert(views[j as int] == frags@[j as int]@);
        if name_of_fragment(&frags[j]).same(name) {
            return Some(j);
        }
        j += 1;
    }
    None
}

fn check_names(frags: &Vec<fragment::TopLevelStmt>) -> (r: Result<(), Error>)
    ensures
        match r {
            Ok(()) => checked_names(fragment::top_level_views(frags@), 0) == Ok::<(), ErrorView>(()),
            Err(e) => checked_names(fragment::top_level_views(frags@), 0) == Err::<(), ErrorView>(
                e@,
            ),
        },
{
    let ghost views = fragment::top_level_views(frags@);
    let mut k: usize = 0;
    while k < frags.len()
        invariant
            k <= frags.len(),
            views == fragment::top_level_views(frags@),
            checked_names(views, 0) == checked_names(views, k as nat),
        decreases frags.len() - k,
    {
        assert(views[k as int] == frags@[k as int]@);
        match find_fragment(frags, name_of_fragment(&frags[k])) {
            Some(j) => {
                if j < k {
                    match &frags[k] {
                        fragment::TopLevelStmt::FunDecl(f) => {
                            return Err(Error::DuplicateName(duplicate_lident(&f.v.name)));
                        },
                    }
                }
            },
            None => {},
        }
        k += 1;
    }
    Ok(())
}

/// The linked form of function `i` with the body `body`.
fn linked_decl(f: &fragment::FunDecl, body: Vec<linked::Instr>) -> (r: linked::FunDecl)
    ensures
        r@ == (linked::FunDeclView {
            name: f@.name,
            export: f@.export,
            implementation: linked::FunImplView {
                params: f@.implementation.params,
                slots: f@.implementation.slots,
                body: body@,
            },
        }),
{
    linked::FunDecl {
        name: duplicate_lident(&f.name),
        export: f.export,
        implementation: linked::FunImpl {
            params: fragment::duplicate_vec(&f.implementation.params),
            slots: f.implementation.slots,
            body,
        },
    }
}

fn link_function(
    env: &mut LinkerEnv,
    frags: &Vec<fragment::TopLevelStmt>,
    i: usize,
    Ghost(fuel): Ghost<nat>,
) -> (r: Result<(), Error>)
    requires
        frags@.len() <= u32::MAX,
        old(env).wf(frags@.len()),
        i < frags@.len(),
        !old(env)@.started[i as int],
        unstarted(old(env)@.started) <= fuel + 1,
    ensures
        final(env).wf(frags@.len()),
        unstarted(final(env)@.started) < unstarted(old(env)@.started),
        match r {
            Ok(()) => {
                &&& linked_function(fragment::top_level_views(frags@), old(env)@, i as nat, fuel)
                    == Ok::<LinkState, ErrorView>(final(env)@)
                &&& final(env)@.started[i as int]
                &&& forall|j: int|
                    0 <= j < frags@.len() && old(env)@.started[j] ==> final(env)@.started[j]
                        && final(env)@.funs[j] == old(env)@.funs[j]
                &&& forall|j: int|
                    0 <= j < frags@.len() && !old(env)@.started[j] && final(env)@.started[j]
                        ==> final(env)@.funs[j].is_some()
            },
            Err(e) => linked_function(fragment::top_level_views(frags@), old(env)@, i as nat, fuel)
                == Err::<LinkState, ErrorView>(e@),
        },
    decreases fuel, 1nat,
{
    let ghost views = fragment::top_level_views(frags@);
    let ghost st0 = env@;
    proof {
        lemma_unstarted_update(st0.started, i as int);
    }
    env.start(i);
    let ghost st1 = env@;
    assert(st1 == (LinkState { started: st0.started.update(i as int, true), funs: st0.funs }));
    assert(views[i as int] == frags@[i as int]@);
    let fun = match &frags[i] {
        fragment::TopLevelStmt::FunDecl(f) => &f.v,
    };
    let mut out_instrs: Vec<linked::Instr> = Vec::new();
    let mut k: usize = 0;
    while k < fun.implementation.body.len()
        invariant
            k <= fun.implementation.body.len(),
            frags@.len() <= u32::MAX,
            i < frags@.len(),
            views == fragment::top_level_views(frags@),
            fun@ == decl_of(views[i as int]),
            env.wf(frags@.len()),
            unstarted(env@.started) <= fuel,
            unstarted(env@.started) < unstarted(st0.started),
            st1 == (LinkState { started: st0.started.update(i as int, true), funs: st0.funs }),
            st0 == old(env)@,
            st0.started.len() == frags@.len(),
            st0.funs.len() == frags@.len(),
            fun.implementation.body@ == decl_of(views[i as int]).implementation.body,
            !st0.started[i as int],
            env@.funs[i as int] == st0.funs[i as int],
            env@.started[i as int],
            forall|j: int|
                0 <= j < frags@.len() && st0.started[j] ==> env@.started[j] && env@.funs[j]
                    == st0.funs[j],
            forall|j: int|
                0 <= j < frags@.len() && j != i && !st0.started[j] && env@.started[j]
                    ==> env@.funs[j].is_some(),
            linked_instrs(views, st1, i as nat, 0, Seq::empty(), fuel) == linked_instrs(
                views,
                env@,
                i as nat,
                k as nat,
                out_instrs@,
                fuel,
            ),
        decreases fun.implementation.body.len() - k,
    {
        let ghost here = env@;
        assert(linked_function(views, st0, i as nat, fuel) == match linked_instrs(
            views,
            st1,
            i as nat,
            0,
            Seq::empty(),
            fuel,
        ) {
            Err(e) => Err::<LinkState, ErrorView>(e),
            Ok((st2, body)) => Ok(
                LinkState {
                    started: st2.started,
                    funs: st2.funs.update(
                        i as int,
                        Some(
                            linked::FunDeclView {
                                name: fun@.name,
                                export: fun@.export,
                                implementation: linked::FunImplView {
                                    params: fun@.implementation.params,
                                    slots: fun@.implementation.slots,
                                    body,
                                },
                            },
                        ),
                    ),
                },
            ),
        });
        assert(decl_of(views[i as int]).implementation.body[k as int]
            == fun.implementation.body@[k as int]);
        match &fun.implementation.body[k] {
            fragment::Instr::Call(c) => {
                let syn = match fun.refs.get_by_left(&c.fun) {
                    None => {
                        assert(linked_call(views, here, i as nat, *c, fuel) is Err);
                        return Err(
                            Error::MissingReference {
                                function: duplicate_lident(&fun.name),
                                reference: c.fun,
                            },
                        );
                    },
                    Some(n) => n,
                };
                assert(linked_call(views, here, i as nat, *c, fuel) == resolved_name(
                    views,
                    here,
                    syn@,
                    fuel,
                ));
                let id = match resolve(env, frags, syn, Ghost(fuel)) {
                    Err(e) => {
                        return Err(e);
                    },
                    Ok(id) => id,
                };
                out_instrs.push(linked::Instr { instr: Instruction::Call(id) });
            },
            fragment::Instr::Raw(r) => {
                out_instrs.push(linked::Instr { instr: *r });
            },
        }
        k += 1;
    }
    let linked = linked_decl(fun, out_instrs);
    env.finish(i, linked);
    Ok(())
}

fn resolve(
    env: &mut LinkerEnv,
    frags: &Vec<fragment::TopLevelStmt>,
    name: &syntax::Ident,
    Ghost(fuel): Ghost<nat>,
) -> (r: Result<u32, Error>)
    requires
        frags@.len() <= u32::MAX,
        old(env).wf(frags@.len()),
        unstarted(old(env)@.started) <= fuel,
    ensures
        final(env).wf(frags@.len()),
        unstarted(final(env)@.started) <= unstarted(old(env)@.started),
        match r {
            Ok(ix) => {
                &&& resolved_name(fragment::top_level_views(frags@), old(env)@, name@, fuel) == Ok::<
                    (LinkState, u32),
                    ErrorView,
                >((final(env)@, ix))
                &&& forall|j: int|
                    0 <= j < frags@.len() && old(env)@.started[j] ==> final(env)@.started[j]
                        && final(env)@.funs[j] == old(env)@.funs[j]
                &&& forall|j: int|
                    0 <= j < frags@.len() && !old(env)@.started[j] && final(env)@.started[j]
                        ==> final(env)@.funs[j].is_some()
            },
            Err(e) => resolved_name(fragment::top_level_views(frags@), old(env)@, name@, fuel)
                == Err::<(LinkState, u32), ErrorView>(e@),
        },
    decreases fuel, 0nat,
{
    match find_fragment(frags, name) {
        None => Err(Error::UnresolvedName(name.duplicate())),
        Some(j) => {
            if !env.is_started(j) {
                proof {
                    lemma_unstarted_positive(env@.started, j as int);
                }
                match link_function(env, frags, j, Ghost((fuel - 1) as nat)) {
                    Err(e) => {
                        return Err(e);
                    },
                    Ok(()) => {},
                }
            }
            Ok(j as u32)
        },
    }
}

/// What the linker knows of each function while it links.
struct LinkerEnv {
    started: Vec<bool>,
    funs: Vec<Option<linked::FunDecl>>,
}

impl View for LinkerEnv {
    type V = LinkState;

    closed spec fn view(&self) -> LinkState {
        LinkState {
            started: self.started@,
            funs: Seq::new(
                self.funs@.len(),
                |i: int|
                    match self.funs@[i] {
                        Some(f) => Some(f@),
                        None => None,
                    },
            ),
        }
    }
}

impl LinkerEnv {
    closed spec fn wf(&self, n: nat) -> bool {
        self.started@.len() == n && self.funs@.len() == n
    }

    fn new(n: usize) -> (r: Self)
        ensures
            r.wf(n as nat),
            r@ == initial_state(n as nat),
    {
        let mut started: Vec<bool> = Vec::new();
        let mut funs: Vec<Option<linked::FunDecl>> = Vec::new();
        let mut i: usize = 0;
        while i < n
            invariant
                i <= n,
                started@.len() == i,
                funs@.len() == i,
                forall|j: int| 0 <= j < i ==> !started@[j],
                forall|j: int| 0 <= j < i ==> funs@[j].is_none(),
            decreases n - i,
        {
            started.push(false);
            funs.push(None);
            i += 1;
        }
        let r = LinkerEnv { started, funs };
        assert(r@.started =~= initial_state(n as nat).started);
        assert(r@.funs =~= initial_state(n as nat).funs);
        r
    }

    fn is_started(&self, i: usize) -> (b: bool)
        requires
            i < self@.started.len(),
        ensures
            b == self@.started[i as int],
    {
        self.started[i]
    }

    fn start(&mut self, i: usize)
        requires
            i < old(self)@.started.len(),
        ensures
            final(self)@ == (LinkState {
                started: old(self)@.started.update(i as int, true),
                funs: old(self)@.funs,
            }),
            forall|n: nat| old(self).wf(n) ==> final(self).wf(n),
    {
        self.started.set(i, true);
        assert(self@.funs =~= old(self)@.funs);
    }

    fn finish(&mut self, i: usize, f: linked::FunDecl)
        requires
            i < old(self)@.funs.len(),
        ensures
            final(self)@ == (LinkState {
                started: old(self)@.started,
                funs: old(self)@.funs.update(i as int, Some(f@)),
            }),
            forall|n: nat| old(self).wf(n) ==> final(self).wf(n),
    {
        self.funs.set(i, Some(f));
        assert(self@.funs =~= old(self)@.funs.update(i as int, Some(f@)));
    }
}

/// Starting a function that has not started leaves one function less to start.
pub proof fn lemma_unstarted_update(started: Seq<bool>, i: int)
    requires
        0 <= i < started.len(),
        !started[i],
    ensures
        unstarted(started.update(i, true)) + 1 == unstarted(started),
    decreases started.len(),
{
    if i == started.len() - 1 {
        assert(started.update(i, true).drop_last() =~= started.drop_last());
    } else {
        assert(started.update(i, true).drop_last() =~= started.drop_last().update(i, true));
        lemma_unstarted_update(started.drop_last(), i);
    }
}

/// At most as many functions are unstarted as there are functions.
pub proof fn lemma_unstarted_bound(started: Seq<bool>)
    ensures
        unstarted(started) <= started.len(),
    decreases started.len(),
{
    if started.len() > 0 {
        lemma_unstarted_bound(started.drop_last());
    }
}

/// Where a function has not started, at least one is unstarted.
pub proof fn lemma_unstarted_positive(started: Seq<bool>, i: int)
    requires
        0 <= i < started.len(),
        !started[i],
    ensures
        unstarted(started) >= 1,
    decreases started.len(),
{
    if i < started.len() - 1 {
        lemma_unstarted_positive(started.drop_last(), i);
    }
}

} // verus!
