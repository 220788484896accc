use vstd::prelude::*;
use crate::codegen;
use crate::codegen::codegen::generated_module;
use crate::codegen::fragment;
use crate::codegen::types::WasmBytes;
use crate::error::{Error, ErrorView};
use crate::linker;
use crate::linker::encoder::module_encoding;
use crate::linker::linked;
use crate::linker::linker::{linked_fragments, program};
use crate::linker::mk_wasm::{fits, module_plan};
use crate::linker::prims::primitives;
use crate::parser::syntax;
use crate::renamer;
use crate::renamer::plain;
use crate::renamer::renamer::renamed_module;
use crate::simplifier;
use crate::simplifier::simple;
use crate::simplifier::simplifier::simplified_module;
use crate::util::ax::Ax;
use crate::util::vecs::reversed;

verus! {

/// A compiled program with the form it had after each stage.
#[derive(Debug)]
pub struct CompileResult {
    pub syntax: syntax::Module,
    pub plain: plain::Module,
    pub simple: simple::Module,
    pub fragment: fragment::Module,
    pub linked: linked::Module,
    pub wasm: WasmBytes,
}

/// The view of [`CompileResult`]: sequences stand for vectors and strings.
pub struct CompileResultView {
    pub syntax: syntax::ModuleView,
    pub plain: plain::ModuleView,
    pub simple: simple::ModuleView,
    pub fragment: fragment::ModuleView,
    pub linked: linked::ModuleView,
    pub wasm: Seq<u8>,
}

impl View for CompileResult {
    type V = CompileResultView;

    open spec fn view(&self) -> CompileResultView {
        CompileResultView {
            syntax: self.syntax@,
            plain: self.plain@,
            simple: self.simple@,
            fragment: self.fragment@,
            linked: self.linked@,
            wasm: self.wasm.bytes@,
        }
    }
}

/// The forms of a program up to its fragments.
pub struct Stages {
    pub plain: plain::ModuleView,
    pub simple: simple::ModuleView,
    pub fragment: fragment::ModuleView,
}

/// A program renamed, brought into the flat form, and turned into fragments.
pub open spec fn fragments_of(m: syntax::ModuleView) -> Result<Stages, ErrorView> {
    match renamed_module(m) {
        Err(e) => Err(ErrorView::Renamer(e)),
        Ok(plain) => match simplified_module(plain) {
            Err(e) => Err(ErrorView::Simplifier(e)),
            Ok(simple) => match generated_module(simple) {
                Err(e) => Err(ErrorView::Codegen(e)),
                Ok(fragment) => Ok(Stages { plain, simple, fragment }),
            },
        },
    }
}

/// A fragment that is not exported.
pub open spec fn hidden(s: fragment::TopLevelStmtView) -> fragment::TopLevelStmtView {
    match s {
        fragment::TopLevelStmtView::FunDecl(f) => fragment::TopLevelStmtView::FunDecl(
            Ax {
                a: f.a,
                v: fragment::FunDeclView {
                    name: f.v.name,
                    export: false,
                    implementation: f.v.implementation,
                    refs: f.v.refs,
                },
            },
        ),
    }
}

/// The fragments of `m`, none of them exported.
pub open spec fn without_exports(m: fragment::ModuleView) -> fragment::ModuleView {
    fragment::ModuleView { statements: Seq::new(m.statements.len(), |i: int| hidden(m.statements[i])) }
}

/// The fragments of the prelude: compiled like a program, and not exported.
pub open spec fn prelude_fragments(prelude: syntax::ModuleView) -> Result<
    fragment::ModuleView,
    ErrorView,
> {
    match fragments_of(prelude) {
        Err(e) => Err(e),
        Ok(s) => Ok(without_exports(s.fragment)),
    }
}

/// The binary module of a linked module.
pub open spec fn encoded(m: linked::ModuleView) -> Result<Seq<u8>, ErrorView> {
    if fits(m) {
        Ok(
            module_encoding(
                module_plan(m).types,
                module_plan(m).functions,
                module_plan(m).exports,
                module_plan(m).codes,
            ),
        )
    } else {
        Err(ErrorView::Linker(linker::error::ErrorView::ModuleTooLarge))
    }
}

/// A program compiled with the prelude: both go through the same stages, the
/// primitives, the prelude and the program are linked in this order, and the
/// linked module is encoded.
pub open spec fn compiled(user: syntax::ModuleView, prelude: syntax::ModuleView) -> Result<
    CompileResultView,
    ErrorView,
> {
    match prelude_fragments(prelude) {
        Err(e) => Err(e),
        Ok(std_) => match fragments_of(user) {
            Err(e) => Err(e),
            Ok(s) => match linked_fragments(program(s.fragment, primitives(), Some(std_))) {
                Err(e) => Err(ErrorView::Linker(e)),
                Ok(linked) => match encoded(linked) {
                    Err(e) => Err(e),
                    Ok(wasm) => Ok(
                        CompileResultView {
                            syntax: user,
                            plain: s.plain,
                            simple: s.simple,
                            fragment: s.fragment,
                            linked,
                            wasm,
                        },
                    ),
                },
            },
        },
    }
}

/// Compiling is a function of the program and the prelude: the same trees
/// give the same result, stage for stage and byte for byte.
pub proof fn lemma_compilation_is_deterministic(
    a: syntax::Module,
    b: syntax::Module,
    prelude_a: syntax::Module,
    prelude_b: syntax::Module,
)
    requires
        a@ == b@,
        prelude_a@ == prelude_b@,
    ensures
        compiled(a@, prelude_a@) == compiled(b@, prelude_b@),
{
}

fn compile_fragments(m: &syntax::Module) -> (r: Result<
    (plain::Module, simple::Module, fragment::Module),
    Error,
>)
    ensures
        match r {
            Ok((plain, simple, fragment)) => fragments_of(m@) == Ok::<Stages, ErrorView>(
                Stages { plain: plain@, simple: simple@, fragment: fragment@ },
            ),
            Err(e) => fragments_of(m@) == Err::<Stages, ErrorView>(e@),
        },
{
    let plain = match renamer::rename(m) {
        Err(e) => {
            return Err(Error::Renamer(e));
        },
        Ok(p) => p,
    };
    let simple = match simplifier::run(&plain) {
        Err(e) => {
            return Err(Error::Simplifier(e));
        },
        Ok(s) => s,
    };
    let fragment = match codegen::run(&simple) {
        Err(e) => {
            return Err(Error::Codegen(e));
        },
        Ok(f) => f,
    };
    Ok((plain, simple, fragment))
}

/// Compiles `syntax` together with `prelude` into a binary module, and keeps
/// the form of the program after each stage.
pub fn runner(syntax: syntax::Module, prelude: &syntax::Module) -> (r: Result<CompileResult, Error>)
    ensures
        match r {
            Ok(c) => compiled(syntax@, prelude@) == Ok::<CompileResultView, ErrorView>(c@),
            Err(e) => compiled(syntax@, prelude@) == Err::<CompileResultView, ErrorView>(e@),
        },
{
    let std_ = match stdlib(prelude) {
        Err(e) => {
            return Err(e);
        },
        Ok(s) => s,
    };
    let (plain, simple, fragment) = match compile_fragments(&syntax) {
        Err(e) => {
            return Err(e);
        },
        Ok(s) => s,
    };
    let primitives = linker::prims();
    let linked = match linker::link(&fragment, &primitives, Some(&std_)) {
        Err(e) => {
            return Err(Error::Linker(e));
        },
        Ok(l) => l,
    };
    let wasm = match linker::mk_wasm(&linked) {
        Err(e) => {
            return Err(Error::Linker(e));
        },
        Ok(w) => w,
    };
    Ok(CompileResult { syntax, plain, simple, fragment, linked, wasm })
}

/// The fragments of the prelude: compiled like a program, with no function exported.
pub fn stdlib(prelude: &syntax::Module) -> (r: Result<fragment::Module, Error>)
    ensures
        match r {
            Ok(f) => prelude_fragments(prelude@) == Ok::<fragment::ModuleView, ErrorView>(f@),
            Err(e) => prelude_fragments(prelude@) == Err::<fragment::ModuleView, ErrorView>(e@),
        },
{
    let (_, _, fragment) = match compile_fragments(prelude) {
        Err(e) => {
            return Err(e);
        },
        Ok(s) => s,
    };
    let ghost orig = fragment@;
    let mut rest = reversed(fragment.statements);
    let mut out: Vec<fragment::TopLevelStmt> = Vec::new();
    while rest.len() > 0
        invariant
            rest@.len() + out@.len() == orig.statements.len(),
            forall|i: int|
                0 <= i < rest@.len() ==> (#[trigger] rest@[i])@ == orig.statements[
                    orig.statements.len() - 1 - i],
            forall|i: int| 0 <= i < out@.len() ==> (#[trigger] out@[i])@ == hidden(orig.statements[i]),
        decreases rest.len(),
    {
        let stmt = rest.pop().unwrap();
        match stmt {
            fragment::TopLevelStmt::FunDecl(f) => {
                let Ax { a, v } = f;
                let mut fun = v;
                fun.export = false;
                out.push(fragment::TopLevelStmt::FunDecl(Ax { a, v: fun }));
            },
        }
    }
    let r = fragment::Module { statements: out };
    assert(r@.statements =~= without_exports(orig).statements);
    Ok(r)
}

} // verus!
