use kedi_lang::codegen;
use kedi_lang::codegen::fragment;
use kedi_lang::codegen::types::{BlockType, Instruction, ValType};
use kedi_lang::error::Error;
use kedi_lang::linker;
use kedi_lang::linker::linked;
use kedi_lang::parser::syntax::{
    Assignment, Expr, FunCall, FunDef, FunStmt, Ident, If, Infix, Inv, LetDecl, LitNum, LitStr,
    Module, Return, TopLevelStmt, While,
};
use kedi_lang::renamer;
use kedi_lang::renamer::plain;
use kedi_lang::runner::{runner, stdlib};
use kedi_lang::simplifier;
use kedi_lang::simplifier::simple;
use kedi_lang::util::bimap::Bimap;
use kedi_lang::util::loc::{Offset, Span, SrcLoc, Tag, WithLoc};

// Builders for syntax trees.

fn at<T>(start: usize, length: usize, v: T) -> WithLoc<T> {
    WithLoc::known(v, Span { start: Offset(start), length })
}

fn nowhere<T>(v: T) -> WithLoc<T> {
    WithLoc::unknown(v)
}

fn name(s: &str) -> Ident {
    Ident(s.to_string())
}

fn num(n: i32) -> Expr {
    Expr::LitNum(nowhere(LitNum(n)))
}

fn var(s: &str) -> Expr {
    Expr::Ident(nowhere(name(s)))
}

fn call(f: &str, args: Vec<Expr>) -> Expr {
    Expr::FunCall(FunCall { name: nowhere(name(f)), args: nowhere(args) })
}

fn ret(e: Expr) -> FunStmt {
    FunStmt::Return(nowhere(Return(e)))
}

fn let_(n: &str, e: Expr) -> FunStmt {
    FunStmt::LetDecl(nowhere(LetDecl { name: nowhere(name(n)), value: e }))
}

fn set(n: &str, e: Expr) -> FunStmt {
    FunStmt::Assignment(nowhere(Assignment { name: nowhere(name(n)), value: e }))
}

fn while_(c: Expr, body: Vec<FunStmt>) -> FunStmt {
    FunStmt::While(nowhere(While { condition: c, body: nowhere(body) }))
}

fn if_(c: Expr, then_: Vec<FunStmt>, else_: Option<Vec<FunStmt>>) -> FunStmt {
    FunStmt::If(nowhere(If { condition: c, then_: nowhere(then_), else_: else_.map(nowhere) }))
}

fn fun(n: &str, params: Vec<&str>, body: Vec<FunStmt>) -> TopLevelStmt {
    TopLevelStmt::FunDef(nowhere(FunDef {
        name: nowhere(name(n)),
        params: nowhere(params.into_iter().map(|p| nowhere(name(p))).collect()),
        preds: nowhere(vec![]),
        body: nowhere(body),
    }))
}

fn module(funs: Vec<TopLevelStmt>) -> Module {
    Module { statements: nowhere(funs) }
}

/// A prelude that puts a plain name on each primitive.
fn prelude() -> Module {
    let binop = |n: &str| {
        fun(n, vec!["a", "b"], vec![ret(call(&format!("__prim_{}", n), vec![var("a"), var("b")]))])
    };
    module(vec![binop("gt?"), binop("gte?"), binop("lt?"), binop("lte?"), binop("eq?"), binop("add")])
}

/// fun f() { let x = 0; while lt?(x, 3) { x = add(x, 1) }; return x }
fn counting_loop() -> Module {
    module(vec![fun(
        "f",
        vec![],
        vec![
            let_("x", num(0)),
            while_(call("lt?", vec![var("x"), num(3)]), vec![set("x", call("add", vec![var("x"), num(1)]))]),
            ret(var("x")),
        ],
    )])
}

// A small machine that runs a linked module.

fn raw(body: &[linked::Instr]) -> Vec<Instruction> {
    body.iter().map(|i| i.instr).collect()
}

fn fun_at(m: &linked::Module, ix: usize) -> &linked::FunDecl {
    match &m.statements[ix] {
        linked::TopLevelStmt::FunDecl(f) => &f.v,
    }
}

/// The position behind the `End` (or, if `stop_at_else`, the `Else`) that closes the block opened before `from`.
fn skip(code: &[Instruction], from: usize, stop_at_else: bool) -> usize {
    let mut depth = 0usize;
    let mut pc = from;
    loop {
        match code[pc] {
            Instruction::Block(_) | Instruction::Loop(_) | Instruction::If(_) => depth += 1,
            Instruction::Else if depth == 0 && stop_at_else => return pc + 1,
            Instruction::End => {
                if depth == 0 {
                    return pc + 1;
                }
                depth -= 1;
            }
            _ => {}
        }
        pc += 1;
    }
}

fn execute(m: &linked::Module, ix: usize, args: &[i32], fuel: &mut u64) -> Option<i32> {
    let f = fun_at(m, ix);
    let code = raw(&f.implementation.body);
    let mut locals = vec![0i32; f.implementation.slots as usize];
    locals[..args.len()].copy_from_slice(args);
    let mut stack: Vec<i32> = vec![];
    // For each open block: where a branch to it continues, and whether it is a loop.
    let mut labels: Vec<(usize, bool)> = vec![];
    let mut pc = 0usize;
    while pc < code.len() {
        if *fuel == 0 {
            return None;
        }
        *fuel -= 1;
        match code[pc] {
            Instruction::I32Const(v) => stack.push(v),
            Instruction::LocalGet(i) => stack.push(locals[i as usize]),
            Instruction::LocalSet(i) => locals[i as usize] = stack.pop().unwrap(),
            Instruction::Return => return stack.pop(),
            Instruction::Block(BlockType::Empty) => labels.push((skip(&code, pc + 1, false), false)),
            Instruction::Loop(BlockType::Empty) => labels.push((pc + 1, true)),
            Instruction::If(BlockType::Empty) => {
                let end = skip(&code, pc + 1, false);
                labels.push((end, false));
                if stack.pop().unwrap() == 0 {
                    let other = skip(&code, pc + 1, true);
                    if other == end {
                        labels.pop();
                    }
                    pc = other;
                    continue;
                }
            }
            Instruction::Else => {
                pc = labels.pop().unwrap().0;
                continue;
            }
            Instruction::End => {
                labels.pop();
            }
            Instruction::Br(d) => {
                let keep = labels.len() - 1 - d as usize;
                let (target, is_loop) = labels[keep];
                labels.truncate(if is_loop { keep + 1 } else { keep });
                pc = target;
                continue;
            }
            Instruction::Call(callee) => {
                let arity = fun_at(m, callee as usize).implementation.params.len();
                let args = stack.split_off(stack.len() - arity);
                stack.push(execute(m, callee as usize, &args, fuel)?);
            }
            Instruction::I32GtU => binop(&mut stack, |a, b| ((a as u32) > (b as u32)) as i32),
            Instruction::I32GeU => binop(&mut stack, |a, b| ((a as u32) >= (b as u32)) as i32),
            Instruction::I32LtU => binop(&mut stack, |a, b| ((a as u32) < (b as u32)) as i32),
            Instruction::I32LeU => binop(&mut stack, |a, b| ((a as u32) <= (b as u32)) as i32),
            Instruction::I32Eq => binop(&mut stack, |a, b| (a == b) as i32),
            Instruction::I32Add => binop(&mut stack, |a, b| a.wrapping_add(b)),
        }
        pc += 1;
    }
    stack.pop()
}

fn binop(stack: &mut Vec<i32>, f: fn(i32, i32) -> i32) {
    let b = stack.pop().unwrap();
    let a = stack.pop().unwrap();
    stack.push(f(a, b));
}

fn run_export(m: &linked::Module, export: &str, args: &[i32]) -> Option<i32> {
    let ix = m
        .statements
        .iter()
        .position(|s| match s {
            linked::TopLevelStmt::FunDecl(f) => f.v.export && f.v.name.v.0 == export,
        })
        .unwrap();
    let mut fuel = 100_000u64;
    execute(m, ix, args, &mut fuel)
}

fn validate(bytes: &[u8]) {
    wasmparser::validate(bytes).expect("the module is valid");
}

fn only_fun(m: &simple::Module) -> &simple::FunDecl {
    match &m.statements[0] {
        simple::TopLevelStmt::FunDecl(f) => &f.v,
    }
}

fn only_fragment(m: &fragment::Module) -> &fragment::FunDecl {
    match &m.statements[0] {
        fragment::TopLevelStmt::FunDecl(f) => &f.v,
    }
}

// Renaming

#[test]
fn test_rename() {
    let input = Module {
        statements: nowhere(vec![TopLevelStmt::FunDef(nowhere(FunDef {
            name: nowhere(Ident("foo".to_string())),
            params: nowhere(vec![]),
            preds: nowhere(vec![]),
            body: nowhere(vec![FunStmt::Return(nowhere(Return(Expr::LitNum(nowhere(LitNum(
                42,
            ))))))]),
        }))]),
    };
    let expected = plain::Module {
        statements: vec![plain::TopLevelStmt::FunDef(nowhere(plain::FunDef {
            name: nowhere(Ident("foo".to_string())),
            implementation: plain::FunImpl {
                params: nowhere(vec![]),
                preds: nowhere(vec![]),
                body: nowhere(vec![plain::FunStmt::Return(nowhere(plain::Return(
                    plain::Expr::LitNum(nowhere(LitNum(42))),
                )))]),
            },
            refs: Bimap::new(),
        }))],
    };

    let output = renamer::rename(&input).unwrap();
    assert_eq!(output, expected);
}

#[test]
fn duplicate_parameter_is_rejected() {
    // fun f(a, a) { return a }
    let input = module(vec![TopLevelStmt::FunDef(nowhere(FunDef {
        name: nowhere(name("f")),
        params: nowhere(vec![at(6, 1, name("a")), at(9, 1, name("a"))]),
        preds: nowhere(vec![]),
        body: nowhere(vec![ret(var("a"))]),
    }))]);
    match renamer::rename(&input) {
        Err(renamer::Error::DuplicateIdentifier(e)) => {
            assert_eq!(e.error, at(9, 1, name("a")));
            assert_eq!(e.original_loc, SrcLoc::Known(Span { start: Offset(6), length: 1 }));
        }
        other => panic!("expected a duplicate identifier, got {:?}", other),
    }
}

#[test]
fn duplicate_let_is_rejected() {
    let input = module(vec![fun("f", vec!["a"], vec![let_("b", num(1)), let_("a", num(2))])]);
    assert!(matches!(renamer::rename(&input), Err(renamer::Error::DuplicateIdentifier(_))));
}

#[test]
fn same_name_in_two_functions_is_accepted() {
    let input = module(vec![
        fun("f", vec!["a"], vec![ret(var("a"))]),
        fun("g", vec!["a"], vec![ret(var("a"))]),
    ]);
    assert!(renamer::rename(&input).is_ok());
}

#[test]
fn assignment_to_unbound_name_is_rejected() {
    let input = module(vec![fun("f", vec![], vec![FunStmt::Assignment(nowhere(Assignment {
        name: at(10, 1, name("x")),
        value: num(1),
    }))])]);
    match renamer::rename(&input) {
        Err(renamer::Error::IdentifierNotFound(e)) => {
            assert_eq!(e.identifier, at(10, 1, name("x")));
        }
        other => panic!("expected an unbound identifier, got {:?}", other),
    }
}

#[test]
fn let_binds_before_its_value_is_renamed() {
    // let x = x: the value reads the new local.
    let input = module(vec![fun("f", vec![], vec![let_("x", var("x"))])]);
    let out = renamer::rename(&input).unwrap();
    let plain::TopLevelStmt::FunDef(f) = &out.statements[0];
    match &f.v.implementation.body.v[0] {
        plain::FunStmt::LetDecl(d) => {
            assert_eq!(d.v.name.v, plain::LocalIdent { id: 0 });
            assert_eq!(
                d.v.value,
                plain::Expr::Ident(plain::Ident::Local(nowhere(plain::LocalIdent { id: 0 })))
            );
        }
        other => panic!("unexpected {:?}", other),
    }
}

#[test]
fn reads_of_one_open_name_share_one_reference() {
    let input = module(vec![fun(
        "f",
        vec!["a"],
        vec![ret(call("g", vec![call("h", vec![var("a")]), call("g", vec![var("y"), var("y")])]))],
    )]);
    let out = renamer::rename(&input).unwrap();
    let plain::TopLevelStmt::FunDef(f) = &out.statements[0];
    let refs = f.v.refs.iter();
    let names: Vec<(u32, String)> = refs.into_iter().map(|(k, v)| (k.id, v.0)).collect();
    assert_eq!(
        names,
        vec![(0, "g".to_string()), (1, "h".to_string()), (2, "y".to_string())]
    );
    assert_eq!(f.v.refs.get_by_right(&name("y")), Some(&plain::UnresolvedIdent { id: 2 }));
    assert_eq!(f.v.refs.get_by_left(&plain::UnresolvedIdent { id: 1 }), Some(&name("h")));
}

#[test]
fn infix_operator_becomes_a_call() {
    // return a + 1
    let sum = Expr::Infix(Infix {
        op: at(9, 1, name("+")),
        operands: at(7, 5, vec![var("a"), num(1)]),
    });
    let input = module(vec![fun("f", vec!["a"], vec![ret(sum)])]);
    let out = renamer::rename(&input).unwrap();
    let plain::TopLevelStmt::FunDef(f) = &out.statements[0];
    match &f.v.implementation.body.v[0] {
        plain::FunStmt::Return(r) => {
            assert_eq!(
                r.v.0,
                plain::Expr::FunCall(plain::FunCall {
                    name: at(9, 1, plain::UnresolvedIdent { id: 0 }),
                    args: at(
                        7,
                        5,
                        vec![
                            plain::Expr::Ident(plain::Ident::Local(nowhere(plain::LocalIdent {
                                id: 0
                            }))),
                            plain::Expr::LitNum(nowhere(LitNum(1))),
                        ]
                    ),
                })
            );
        }
        other => panic!("unexpected {:?}", other),
    }
    assert_eq!(f.v.refs.get_by_left(&plain::UnresolvedIdent { id: 0 }), Some(&name("+")));
}

#[test]
fn let_inside_while_is_visible_after_the_loop() {
    // fun f(c) { while c { let y = 1 }; y = 2; return y }
    let input = module(vec![fun(
        "f",
        vec!["c"],
        vec![while_(var("c"), vec![let_("y", num(1))]), set("y", num(2)), ret(var("y"))],
    )]);
    let out = renamer::rename(&input).unwrap();
    let plain::TopLevelStmt::FunDef(f) = &out.statements[0];
    match &f.v.implementation.body.v[1] {
        plain::FunStmt::Assignment(a) => assert_eq!(a.v.id.v, plain::LocalIdent { id: 1 }),
        other => panic!("unexpected {:?}", other),
    }
    match &f.v.implementation.body.v[2] {
        plain::FunStmt::Return(r) => assert_eq!(
            r.v.0,
            plain::Expr::Ident(plain::Ident::Local(nowhere(plain::LocalIdent { id: 1 })))
        ),
        other => panic!("unexpected {:?}", other),
    }
    assert_eq!(f.v.refs.len(), 0);
}

#[test]
fn let_inside_while_cannot_be_bound_again_after_the_loop() {
    let input = module(vec![fun(
        "f",
        vec!["c"],
        vec![while_(var("c"), vec![let_("y", num(1))]), let_("y", num(2))],
    )]);
    assert!(matches!(renamer::rename(&input), Err(renamer::Error::DuplicateIdentifier(_))));
}

#[test]
fn let_inside_if_is_visible_in_the_other_branch() {
    let input = module(vec![fun(
        "f",
        vec!["c"],
        vec![if_(var("c"), vec![let_("y", num(1))], Some(vec![set("y", num(2))]))],
    )]);
    assert!(renamer::rename(&input).is_ok());
}

// Lowering

fn idents(stmts: &[simple::FunStmt]) -> Vec<String> {
    fn id(i: &simple::Ident) -> String {
        match i {
            simple::Ident::Local(l) => format!("l{}", l.v.id),
            simple::Ident::SingleUse(s) => format!("${}", s.v.id),
        }
    }
    stmts
        .iter()
        .map(|s| match s {
            simple::FunStmt::Assignment(a) => {
                let value = match &a.v.value {
                    simple::AssignmentValue::LitNum(n) => format!("{}", n.v.0),
                    simple::AssignmentValue::Ident(i) => id(i),
                    simple::AssignmentValue::Call(c) => format!(
                        "g{}({})",
                        c.v.fun_name.v.id,
                        c.v.arguments.v.iter().map(id).collect::<Vec<_>>().join(",")
                    ),
                };
                format!("{} = {}", id(&a.v.target), value)
            }
            simple::FunStmt::Return(i) => format!("return {}", id(i)),
            simple::FunStmt::Break() => "break".to_string(),
            simple::FunStmt::Nop => "nop".to_string(),
            simple::FunStmt::If(i) => format!(
                "if {} {{{}}} else {{{}}}",
                id(&i.condition),
                idents(&i.then_.v).join("; "),
                match &i.else_ {
                    Some(e) => idents(&e.v).join("; "),
                    None => "-".to_string(),
                }
            ),
            simple::FunStmt::Loop(l) => format!("loop {{{}}}", idents(&l.v.body.v).join("; ")),
        })
        .collect()
}

#[test]
fn while_becomes_a_loop_with_a_test_at_the_top() {
    // The peephole pass works on the statements of the function body, not on
    // those of a nested block: `$5` stays.
    let plain = renamer::rename(&counting_loop()).unwrap();
    let simple = simplifier::run(&plain).unwrap();
    let body = idents(&only_fun(&simple).implementation.body.v);
    assert_eq!(
        body,
        vec![
            "l0 = 0".to_string(),
            "loop {$2 = 3; $3 = g0(l0,$2); if $3 {} else {break}; $4 = 1; $5 = g1(l0,$4); l0 = $5}"
                .to_string(),
            "return l0".to_string(),
        ]
    );
}

#[test]
fn without_the_peephole_pass_every_value_goes_through_a_temporary() {
    let plain = renamer::rename(&counting_loop()).unwrap();
    let plain::TopLevelStmt::FunDef(f) = &plain.statements[0];
    let (lowered, tags) = simplifier::simply_fun_impl(&f.v.implementation).unwrap();
    let body = idents(&lowered.body.v);
    assert_eq!(body[0], "$1 = 0");
    assert_eq!(body[1], "l0 = $1");
    assert_eq!(body.len(), 4);
    // Every node stood at the unknown location, which is interned once.
    assert_eq!(tags.len(), 1);
    assert_eq!(tags.resolve_tag(Tag { value: 0 }), SrcLoc::Unknown);
    assert_eq!(tags.resolve_tag(Tag { value: 7 }), SrcLoc::Unknown);
}

#[test]
fn tags_resolve_to_the_source() {
    let input = module(vec![TopLevelStmt::FunDef(at(0, 30, FunDef {
        name: at(4, 1, name("f")),
        params: at(5, 3, vec![at(6, 1, name("a"))]),
        preds: nowhere(vec![]),
        body: at(9, 21, vec![FunStmt::Return(at(11, 8, Return(Expr::Ident(at(18, 1, name("a"))))))]),
    }))]);
    let plain = renamer::rename(&input).unwrap();
    let simple = simplifier::run(&plain).unwrap();
    let f = only_fun(&simple);
    match &f.implementation.body.v[0] {
        simple::FunStmt::Return(simple::Ident::Local(l)) => {
            assert_eq!(
                f.tag_map.resolve_tag(l.a),
                SrcLoc::Known(Span { start: Offset(18), length: 1 })
            );
        }
        other => panic!("unexpected {:?}", other),
    }
    assert_eq!(
        f.tag_map.resolve_tag(f.implementation.parameters.v[0].a),
        SrcLoc::Known(Span { start: Offset(6), length: 1 })
    );
    assert_eq!(
        f.tag_map.resolve_tag(f.implementation.body.a),
        SrcLoc::Known(Span { start: Offset(9), length: 21 })
    );
}

#[test]
fn read_of_an_open_name_has_no_flat_form() {
    let input = module(vec![fun("f", vec![], vec![ret(Expr::Ident(at(3, 1, name("y"))))])]);
    let plain = renamer::rename(&input).unwrap();
    assert_eq!(
        simplifier::run(&plain),
        Err(simplifier::Error::GlobalRead(at(3, 1, plain::UnresolvedIdent { id: 0 })))
    );
}

#[test]
fn string_literal_has_no_flat_form() {
    let input = module(vec![fun(
        "f",
        vec![],
        vec![ret(Expr::LitStr(at(3, 4, LitStr("hi".to_string()))))],
    )]);
    let plain = renamer::rename(&input).unwrap();
    assert_eq!(
        simplifier::run(&plain),
        Err(simplifier::Error::StringLiteral(SrcLoc::Known(Span { start: Offset(3), length: 4 })))
    );
}

#[test]
fn invariant_has_no_flat_form() {
    let input = module(vec![fun(
        "f",
        vec![],
        vec![FunStmt::Inv(at(2, 9, Inv { value: nowhere(num(1)) }))],
    )]);
    let plain = renamer::rename(&input).unwrap();
    assert_eq!(
        simplifier::run(&plain),
        Err(simplifier::Error::Invariant(SrcLoc::Known(Span { start: Offset(2), length: 9 })))
    );
}

// Code generation

#[test]
fn loop_and_break_use_the_right_depths() {
    let plain = renamer::rename(&counting_loop()).unwrap();
    let simple = simplifier::run(&plain).unwrap();
    let fragments = codegen::run(&simple).unwrap();
    let f = only_fragment(&fragments);
    let raw = |i: Instruction| fragment::Instr::Raw(i);
    let open = |id: u32, arity: usize| {
        fragment::Instr::Call(fragment::Call { fun: plain::UnresolvedIdent { id }, arity })
    };
    assert_eq!(
        f.implementation.body,
        vec![
            raw(Instruction::I32Const(0)),
            raw(Instruction::LocalSet(0)),
            raw(Instruction::Block(BlockType::Empty)),
            raw(Instruction::Loop(BlockType::Empty)),
            raw(Instruction::I32Const(3)),
            raw(Instruction::LocalSet(1)),
            raw(Instruction::LocalGet(0)),
            raw(Instruction::LocalGet(1)),
            open(0, 2),
            raw(Instruction::LocalSet(2)),
            raw(Instruction::LocalGet(2)),
            raw(Instruction::If(BlockType::Empty)),
            raw(Instruction::Else),
            raw(Instruction::Br(2)),
            raw(Instruction::End),
            raw(Instruction::I32Const(1)),
            raw(Instruction::LocalSet(3)),
            raw(Instruction::LocalGet(0)),
            raw(Instruction::LocalGet(3)),
            open(1, 2),
            raw(Instruction::LocalSet(4)),
            raw(Instruction::LocalGet(4)),
            raw(Instruction::LocalSet(0)),
            raw(Instruction::Br(0)),
            raw(Instruction::End),
            raw(Instruction::End),
            raw(Instruction::LocalGet(0)),
            raw(Instruction::Return),
        ]
    );
    assert_eq!(f.implementation.slots, 5);
    assert_eq!(f.implementation.params, Vec::<ValType>::new());
    assert!(f.export);
}

#[test]
fn parameters_take_the_first_slots() {
    // fun f(a, b) { let c = b; return a }
    let input =
        module(vec![fun("f", vec!["a", "b"], vec![let_("c", var("b")), ret(var("a"))])]);
    let plain = renamer::rename(&input).unwrap();
    let simple = simplifier::run(&plain).unwrap();
    let fragments = codegen::run(&simple).unwrap();
    let f = only_fragment(&fragments);
    let raw = |i: Instruction| fragment::Instr::Raw(i);
    assert_eq!(
        f.implementation.body,
        vec![
            raw(Instruction::LocalGet(1)),
            raw(Instruction::LocalSet(2)),
            raw(Instruction::LocalGet(0)),
            raw(Instruction::Return),
        ]
    );
    assert_eq!(f.implementation.params, vec![ValType::I32, ValType::I32]);
    assert_eq!(f.implementation.slots, 3);
}

#[test]
fn slots_are_distinct_and_without_gaps() {
    let plain = renamer::rename(&counting_loop()).unwrap();
    let simple = simplifier::run(&plain).unwrap();
    let fragments = codegen::run(&simple).unwrap();
    let f = only_fragment(&fragments);
    let mut used: Vec<u32> = f
        .implementation
        .body
        .iter()
        .filter_map(|i| match i {
            fragment::Instr::Raw(Instruction::LocalGet(s)) => Some(*s),
            fragment::Instr::Raw(Instruction::LocalSet(s)) => Some(*s),
            _ => None,
        })
        .collect();
    used.sort();
    used.dedup();
    assert_eq!(used, vec![0, 1, 2, 3, 4]);
    assert_eq!(f.implementation.slots as usize, used.len());
}

fn stmt_fun(body: Vec<simple::FunStmt>) -> simple::Module {
    let tag = Tag { value: 0 };
    simple::Module {
        statements: vec![simple::TopLevelStmt::FunDecl(nowhere(simple::FunDecl {
            name: nowhere(name("f")),
            implementation: simple::FunImpl {
                parameters: tag.attach(vec![]),
                body: tag.attach(body),
            },
            tag_map: Default::default(),
            refs: Bimap::new(),
        }))],
    }
}

#[test]
fn break_outside_a_loop_is_rejected() {
    let m = stmt_fun(vec![simple::FunStmt::Break()]);
    assert_eq!(codegen::run(&m), Err(codegen::Error::BreakOutsideLoop));
}

#[test]
fn break_inside_a_conditional_outside_a_loop_is_rejected() {
    let tag = Tag { value: 0 };
    let c = simple::Ident::Local(tag.attach(plain::LocalIdent { id: 0 }));
    let m = stmt_fun(vec![simple::FunStmt::If(simple::If {
        condition: c,
        then_: tag.attach(vec![simple::FunStmt::Break()]),
        else_: None,
    })]);
    assert_eq!(codegen::run(&m), Err(codegen::Error::BreakOutsideLoop));
}

#[test]
fn duplicate_parameter_has_no_code() {
    let tag = Tag { value: 0 };
    let p = tag.attach(plain::LocalIdent { id: 5 });
    let m = simple::Module {
        statements: vec![simple::TopLevelStmt::FunDecl(nowhere(simple::FunDecl {
            name: nowhere(name("f")),
            implementation: simple::FunImpl {
                parameters: tag.attach(vec![p, p]),
                body: tag.attach(vec![]),
            },
            tag_map: Default::default(),
            refs: Bimap::new(),
        }))],
    };
    assert_eq!(
        codegen::run(&m),
        Err(codegen::Error::DuplicateParameter(plain::LocalIdent { id: 5 }))
    );
}

// Linking

fn fragments_of(m: &Module) -> fragment::Module {
    let plain = renamer::rename(m).unwrap();
    let simple = simplifier::run(&plain).unwrap();
    codegen::run(&simple).unwrap()
}

#[test]
fn undefined_callee_fails_at_link_time_only() {
    // fun f() { return g() }
    let input = module(vec![fun("f", vec![], vec![ret(call("g", vec![]))])]);
    let plain = renamer::rename(&input).unwrap();
    let simple = simplifier::run(&plain).unwrap();
    let fragments = codegen::run(&simple).unwrap();
    assert_eq!(linker::run(&fragments), Err(linker::Error::UnresolvedName(name("g"))));
}

#[test]
fn duplicate_top_level_name_is_reported() {
    let input = fragments_of(&module(vec![
        fun("f", vec![], vec![ret(num(1))]),
        TopLevelStmt::FunDef(nowhere(FunDef {
            name: at(40, 1, name("f")),
            params: nowhere(vec![]),
            preds: nowhere(vec![]),
            body: nowhere(vec![ret(num(2))]),
        })),
    ]));
    assert_eq!(linker::run(&input), Err(linker::Error::DuplicateName(at(40, 1, name("f")))));
}

#[test]
fn name_of_a_primitive_cannot_be_taken() {
    let input = fragments_of(&module(vec![fun("__prim_add", vec![], vec![ret(num(1))])]));
    assert_eq!(
        linker::run(&input),
        Err(linker::Error::DuplicateName(nowhere(name("__prim_add"))))
    );
}

#[test]
fn missing_reference_is_reported() {
    let mut input = fragments_of(&module(vec![fun("f", vec![], vec![ret(call("f", vec![]))])]));
    let fragment::TopLevelStmt::FunDecl(f) = &mut input.statements[0];
    f.v.refs = Bimap::new();
    assert_eq!(
        linker::run(&input),
        Err(linker::Error::MissingReference {
            function: nowhere(name("f")),
            reference: plain::UnresolvedIdent { id: 0 },
        })
    );
}

#[test]
fn indices_follow_the_order_primitives_prelude_user() {
    let user = fragments_of(&module(vec![
        fun("f", vec![], vec![ret(call("g", vec![]))]),
        fun("g", vec![], vec![ret(call("add", vec![num(1), num(2)]))]),
    ]));
    let std_ = stdlib(&prelude()).unwrap();
    let linked = linker::link(&user, &linker::prims(), Some(&std_)).unwrap();
    let names: Vec<&str> = linked
        .statements
        .iter()
        .map(|s| match s {
            linked::TopLevelStmt::FunDecl(f) => f.v.name.v.0.as_str(),
        })
        .collect();
    assert_eq!(
        names,
        vec![
            "__prim_gt?",
            "__prim_gte?",
            "__prim_lt?",
            "__prim_lte?",
            "__prim_eq?",
            "__prim_add",
            "gt?",
            "gte?",
            "lt?",
            "lte?",
            "eq?",
            "add",
            "f",
            "g"
        ]
    );
    // f calls g, which is declared after it; g calls add of the prelude;
    // add calls the primitive.
    assert!(raw(&fun_at(&linked, 12).implementation.body).contains(&Instruction::Call(13)));
    assert!(raw(&fun_at(&linked, 13).implementation.body).contains(&Instruction::Call(11)));
    assert!(raw(&fun_at(&linked, 11).implementation.body).contains(&Instruction::Call(5)));
    let exported: Vec<bool> = linked
        .statements
        .iter()
        .map(|s| match s {
            linked::TopLevelStmt::FunDecl(f) => f.v.export,
        })
        .collect();
    assert_eq!(exported[..12], [false; 12]);
    assert_eq!(exported[12..], [true, true]);
}

#[test]
fn mutual_recursion_links() {
    // fun even(n) { if eq?(n, 0) { return 1 }; return odd(dec(n)) }, and so on
    let user = fragments_of(&module(vec![
        fun("a", vec!["n"], vec![ret(call("b", vec![var("n")]))]),
        fun("b", vec!["n"], vec![ret(call("a", vec![var("n")]))]),
    ]));
    let linked = linker::run(&user).unwrap();
    assert!(raw(&fun_at(&linked, 6).implementation.body).contains(&Instruction::Call(7)));
    assert!(raw(&fun_at(&linked, 7).implementation.body).contains(&Instruction::Call(6)));
}

#[test]
fn first_error_is_found_where_linking_goes_first() {
    // f calls h before it calls the undefined g; h, declared later, calls the
    // undefined k. Linking f starts linking h at the first call.
    let user = fragments_of(&module(vec![
        fun("f", vec![], vec![ret(call("h", vec![call("g", vec![])]))]),
        fun("h", vec!["x"], vec![ret(call("k", vec![]))]),
    ]));
    // The argument g() is lowered before the call of h, so g is met first.
    assert_eq!(linker::run(&user), Err(linker::Error::UnresolvedName(name("g"))));
    let user = fragments_of(&module(vec![
        fun("f", vec![], vec![let_("a", call("h", vec![num(1)])), ret(call("g", vec![]))]),
        fun("h", vec!["x"], vec![ret(call("k", vec![]))]),
    ]));
    assert_eq!(linker::run(&user), Err(linker::Error::UnresolvedName(name("k"))));
}

// The whole pipeline

#[test]
fn counting_loop_evaluates_to_three() {
    let out = runner(counting_loop(), &prelude()).unwrap();
    assert_eq!(run_export(&out.linked, "f", &[]), Some(3));
    validate(&out.wasm.bytes);
}

#[test]
fn conditional_selects_a_branch() {
    // fun is_greater_than_five(n) { if gt?(n, 5) { return 1 } else { return 0 } }
    let program = || {
        module(vec![fun(
            "is_greater_than_five",
            vec!["n"],
            vec![
                if_(call("gt?", vec![var("n"), num(5)]), vec![ret(num(1))], Some(vec![ret(num(0))])),
                ret(num(0)),
            ],
        )])
    };
    let out = runner(program(), &prelude()).unwrap();
    assert_eq!(run_export(&out.linked, "is_greater_than_five", &[6]), Some(1));
    assert_eq!(run_export(&out.linked, "is_greater_than_five", &[5]), Some(0));
    validate(&out.wasm.bytes);
}

fn fibonacci() -> Module {
    // fun fibonacci(n) {
    //   let a = 0; let b = 1; let i = 0;
    //   while lt?(i, n) { let t = add(a, b); a = b; b = t; i = add(i, 1) };
    //   return a
    // }
    module(vec![fun(
        "fibonacci",
        vec!["n"],
        vec![
            let_("a", num(0)),
            let_("b", num(1)),
            let_("i", num(0)),
            while_(
                call("lt?", vec![var("i"), var("n")]),
                vec![
                    let_("t", call("add", vec![var("a"), var("b")])),
                    set("a", var("b")),
                    set("b", var("t")),
                    set("i", call("add", vec![var("i"), num(1)])),
                ],
            ),
            ret(var("a")),
        ],
    )])
}

#[test]
fn fibonacci_runs() {
    let out = runner(fibonacci(), &prelude()).unwrap();
    let expected = [0, 1, 1, 2, 3, 5, 8, 13];
    for (n, want) in expected.iter().enumerate() {
        assert_eq!(run_export(&out.linked, "fibonacci", &[n as i32]), Some(*want));
    }
    validate(&out.wasm.bytes);
}

#[test]
fn id_and_assignment_examples_run() {
    let id = module(vec![fun("id", vec!["x"], vec![ret(var("x"))])]);
    let out = runner(id, &prelude()).unwrap();
    assert_eq!(run_export(&out.linked, "id", &[42]), Some(42));
    validate(&out.wasm.bytes);
    let assignment = module(vec![fun(
        "assignment",
        vec![],
        vec![let_("x", num(1)), set("x", num(2)), ret(var("x"))],
    )]);
    let out = runner(assignment, &prelude()).unwrap();
    assert_eq!(run_export(&out.linked, "assignment", &[]), Some(2));
    validate(&out.wasm.bytes);
}

#[test]
fn break_in_a_nested_conditional_leaves_the_loop() {
    // A loop whose test sits in a conditional of a conditional.
    let program = module(vec![fun(
        "f",
        vec![],
        vec![
            let_("x", num(0)),
            while_(
                num(1),
                vec![
                    set("x", call("add", vec![var("x"), num(1)])),
                    if_(
                        call("gt?", vec![var("x"), num(4)]),
                        vec![if_(num(1), vec![ret(var("x"))], None)],
                        None,
                    ),
                ],
            ),
            ret(num(0)),
        ],
    )]);
    let out = runner(program, &prelude()).unwrap();
    assert_eq!(run_export(&out.linked, "f", &[]), Some(5));
    validate(&out.wasm.bytes);
}

#[test]
fn compiling_twice_gives_the_same_bytes() {
    let a = runner(fibonacci(), &prelude()).unwrap();
    let b = runner(fibonacci(), &prelude()).unwrap();
    assert_eq!(a.wasm.bytes, b.wasm.bytes);
    assert_eq!(a.plain, b.plain);
    assert_eq!(a.simple, b.simple);
    assert_eq!(a.fragment, b.fragment);
    assert_eq!(a.linked, b.linked);
}

#[test]
fn errors_keep_the_stage_that_found_them() {
    let dup = module(vec![fun("f", vec!["a", "a"], vec![ret(var("a"))])]);
    assert!(matches!(
        runner(dup, &prelude()),
        Err(Error::Renamer(renamer::Error::DuplicateIdentifier(_)))
    ));
    let open = module(vec![fun("f", vec![], vec![ret(var("y"))])]);
    assert!(matches!(
        runner(open, &prelude()),
        Err(Error::Simplifier(simplifier::Error::GlobalRead(_)))
    ));
    let undefined = module(vec![fun("f", vec![], vec![ret(call("g", vec![]))])]);
    assert_eq!(
        runner(undefined, &prelude()).err(),
        Some(Error::Linker(linker::Error::UnresolvedName(name("g"))))
    );
    let bad_prelude = module(vec![fun("p", vec!["a", "a"], vec![])]);
    assert!(matches!(
        runner(module(vec![]), &bad_prelude),
        Err(Error::Renamer(renamer::Error::DuplicateIdentifier(_)))
    ));
}

#[test]
fn empty_module_encodes_only_the_primitives() {
    let linked = linker::run(&fragment::Module { statements: vec![] }).unwrap();
    assert_eq!(linked.statements.len(), 6);
    let wasm = linker::mk_wasm(&linked).unwrap();
    validate(&wasm.bytes);
    // Header, then the type section: one type, (i32, i32) -> i32.
    assert_eq!(
        wasm.bytes[..17],
        [0x00, 0x61, 0x73, 0x6d, 0x01, 0x00, 0x00, 0x00, 0x01, 0x07, 0x01, 0x60, 0x02, 0x7f, 0x7f, 0x01, 0x7f]
    );
    // The function section: six functions of type 0.
    assert_eq!(wasm.bytes[17..26], [0x03, 0x07, 0x06, 0, 0, 0, 0, 0, 0]);
    // No export: the section is empty.
    assert_eq!(wasm.bytes[26..29], [0x07, 0x01, 0x00]);
}

#[test]
fn module_bytes_match_the_binary_format() {
    // One function: fun one() { return 1 }, linked without primitives.
    let user = fragments_of(&module(vec![fun("one", vec![], vec![ret(num(1))])]));
    let linked = linker::link(&user, &fragment::Module { statements: vec![] }, None).unwrap();
    let wasm = linker::mk_wasm(&linked).unwrap();
    validate(&wasm.bytes);
    assert_eq!(
        wasm.bytes,
        vec![
            0x00, 0x61, 0x73, 0x6d, 0x01, 0x00, 0x00, 0x00, // header
            0x01, 0x05, 0x01, 0x60, 0x00, 0x01, 0x7f, // types: () -> i32
            0x03, 0x02, 0x01, 0x00, // functions: type 0
            0x07, 0x07, 0x01, 0x03, b'o', b'n', b'e', 0x00, 0x00, // exports: "one" = func 0
            0x0a, 0x0d, 0x01, // code: one body
            0x0b, 0x01, 0x01, 0x7f, // eleven bytes; one run of one i32 local
            0x41, 0x01, 0x21, 0x00, 0x20, 0x00, 0x0f, 0x0b, // const 1; set 0; get 0; return; end
        ]
    );
}

#[test]
fn signatures_are_held_once() {
    let user = fragments_of(&module(vec![
        fun("a", vec!["x"], vec![ret(var("x"))]),
        fun("b", vec!["x", "y"], vec![ret(var("x"))]),
        fun("c", vec!["z"], vec![ret(var("z"))]),
    ]));
    let linked = linker::run(&user).unwrap();
    let wasm = linker::mk_wasm(&linked).unwrap();
    validate(&wasm.bytes);
    // Two types: (i32, i32) -> i32 from the primitives and b, (i32) -> i32 from a and c.
    assert_eq!(wasm.bytes[8..11], [0x01, 0x0c, 0x02]);
    let types: Vec<u8> = vec![0x60, 0x02, 0x7f, 0x7f, 0x01, 0x7f, 0x60, 0x01, 0x7f, 0x01, 0x7f];
    assert_eq!(wasm.bytes[11..22].to_vec(), types);
    // Nine functions with the type indices 0 x 6, 1, 0, 1.
    assert_eq!(wasm.bytes[22..34], [0x03, 0x0a, 0x09, 0, 0, 0, 0, 0, 0, 1, 0, 1]);
}
