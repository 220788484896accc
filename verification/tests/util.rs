use kedi_lang::codegen::fragment;
use kedi_lang::codegen::types::{Instruction, ValType};
use kedi_lang::linker;
use kedi_lang::linker::linked;
use kedi_lang::linker::mk_wasm::check_size;
use kedi_lang::parser::syntax::{Ident, LitNum};
use kedi_lang::renamer::plain::{LocalIdent, UnresolvedIdent};
use kedi_lang::simplifier::optimizations;
use kedi_lang::simplifier::optimizations::{prune_single_use, remove_nops};
use kedi_lang::simplifier::simple;
use kedi_lang::util::ax::{ax, ax0, Ax};
use kedi_lang::util::bimap::Bimap;
use kedi_lang::util::loc::{LocLike, Located, Offset, Span, SrcLoc, Tag, TagMap, Tagged, WithLoc};
use kedi_lang::util::pp;
use kedi_lang::util::pp::{SExpr, SExprTerm};

fn span(start: usize, length: usize) -> Span {
    Span { start: Offset(start), length }
}

// Attachments

#[test]
fn ax_keeps_both_parts() {
    assert_eq!(ax(1, "v"), Ax { a: 1, v: "v" });
    assert_eq!(ax0(7), Ax { a: (), v: 7 });
    assert_eq!(Ax::new('a', 2), Ax { a: 'a', v: 2 });
}

#[test]
fn ax_maps_one_part() {
    assert_eq!(ax(1, 2).map(|v| v * 10), ax(1, 20));
    assert_eq!(ax(1, 2).map_a(|a| a + 5), ax(6, 2));
    let x = ax(1, String::from("s"));
    let r = x.as_ref();
    assert_eq!((*r.a, r.v.as_str()), (1, "s"));
    assert_eq!(r.clone_a(), Ax { a: 1, v: &String::from("s") });
}

#[test]
fn ax_transposes() {
    let ok: Ax<u8, Result<i32, String>> = ax(1, Ok(2));
    assert_eq!(ok.transpose(), Ok(ax(1, 2)));
    let err: Ax<u8, Result<i32, String>> = ax(1, Err("e".to_string()));
    assert_eq!(err.transpose(), Err("e".to_string()));
    assert_eq!(ax(1, Some(2)).transpose(), Some(ax(1, 2)));
    assert_eq!(ax(1, None::<i32>).transpose(), None);
}

// Locations

#[test]
fn enclosing_span_reaches_from_the_lesser_start_to_the_greater_end() {
    assert_eq!(Span::enclosing(&span(5, 3), &span(2, 2)), span(2, 6));
    assert_eq!(Span::enclosing(&span(2, 10), &span(4, 1)), span(2, 10));
    assert_eq!(Span::enclosing(&span(0, 0), &span(0, 0)), span(0, 0));
    assert_eq!(Span::enclosing(&span(1, 2), &span(7, 1)), span(1, 7));
}

#[test]
fn enclosing_span_stops_at_the_largest_offset() {
    let r = Span::enclosing(&span(10, usize::MAX), &span(3, 1));
    assert_eq!(r, span(3, usize::MAX - 3));
}

#[test]
fn spans_from_offsets() {
    assert_eq!(Span::from_offsets(Offset(3), Offset(8)), span(3, 5));
    assert_eq!(Span::from_offset_bytes(3, 3), span(3, 0));
    assert_eq!(Span::from_offset_len(4, 9), span(4, 9));
}

#[test]
fn enclosing_location_ignores_the_unknown() {
    let a = SrcLoc::Known(span(1, 2));
    let b = SrcLoc::Known(span(10, 5));
    assert_eq!(SrcLoc::enclosing(&a, &b), SrcLoc::Known(span(1, 14)));
    assert_eq!(SrcLoc::enclosing(&a, &SrcLoc::Unknown), a);
    assert_eq!(SrcLoc::enclosing(&SrcLoc::Unknown, &b), b);
    assert_eq!(SrcLoc::enclosing(&SrcLoc::Unknown, &SrcLoc::Unknown), SrcLoc::Unknown);
    assert_eq!(<SrcLoc as LocLike>::enclosing(&a, &b), SrcLoc::Known(span(1, 14)));
    assert_eq!(<() as LocLike>::enclosing(&(), &()), ());
}

#[test]
fn all_enclosing_folds_from_the_left() {
    assert_eq!(SrcLoc::all_enclosing(&[]), SrcLoc::Unknown);
    let locs = [SrcLoc::Known(span(4, 1)), SrcLoc::Unknown, SrcLoc::Known(span(0, 2))];
    assert_eq!(SrcLoc::all_enclosing(&locs), SrcLoc::Known(span(0, 5)));
}

#[test]
fn locations_attach() {
    assert_eq!(WithLoc::known(1, span(2, 3)), Ax { a: SrcLoc::Known(span(2, 3)), v: 1 });
    assert_eq!(WithLoc::unknown(1), Ax { a: SrcLoc::Unknown, v: 1 });
    let loc = SrcLoc::Known(span(2, 3));
    assert_eq!(loc.attach("x"), Ax { a: loc, v: "x" });
    assert_eq!(loc.attach("x").location(), loc);
    assert_eq!(Tag { value: 3 }.attach(1).tag(), Tag { value: 3 });
}

// Tags

#[test]
fn tag_table_interns_each_location_once() {
    let mut tags = TagMap::new();
    let a = SrcLoc::Known(span(1, 2));
    let b = SrcLoc::Known(span(3, 4));
    assert!(tags.can_intern());
    assert_eq!(tags.get_tag(a), Tag { value: 0 });
    assert_eq!(tags.get_tag(b), Tag { value: 1 });
    assert_eq!(tags.get_tag(a), Tag { value: 0 });
    assert_eq!(b.to_tag(&mut tags), Tag { value: 1 });
    assert_eq!(tags.get_tag(SrcLoc::Unknown), Tag { value: 2 });
    assert_eq!(tags.len(), 3);
    assert_eq!(WithLoc::known("v", span(3, 4)).to_tagged(&mut tags), Ax { a: Tag { value: 1 }, v: "v" });
    assert_eq!(tags.len(), 3);
}

#[test]
fn tag_table_resolves_what_it_holds() {
    let mut tags = TagMap::default();
    let a = SrcLoc::Known(span(1, 2));
    let t = tags.get_tag(a);
    assert_eq!(tags.resolve_tag(t), a);
    assert_eq!(tags.resolve_tag(Tag { value: 1 }), SrcLoc::Unknown);
}

// The two-way table

fn id(n: u32) -> UnresolvedIdent {
    UnresolvedIdent { id: n }
}

fn name(s: &str) -> Ident {
    Ident(s.to_string())
}

#[test]
fn bimap_looks_up_both_ways() {
    let mut m = Bimap::new();
    assert_eq!(m.len(), 0);
    m.insert(id(0), name("f"));
    m.insert(id(1), name("g"));
    assert_eq!(m.get_by_left(&id(1)), Some(&name("g")));
    assert_eq!(m.get_by_right(&name("f")), Some(&id(0)));
    assert_eq!(m.get_by_left(&id(2)), None);
    assert_eq!(m.get_by_right(&name("h")), None);
    assert_eq!(m.iter(), vec![(id(0), name("f")), (id(1), name("g"))]);
    assert_eq!(m.clone(), m);
}

#[test]
fn bimap_insert_removes_what_is_in_the_way() {
    let mut m = Bimap::new();
    m.insert(id(0), name("f"));
    m.insert(id(1), name("g"));
    m.insert(id(2), name("h"));
    // The number 0 and the name h both move to the new pair.
    m.insert(id(0), name("h"));
    assert_eq!(m.iter(), vec![(id(1), name("g")), (id(0), name("h"))]);
    assert_eq!(m.get_by_right(&name("f")), None);
    assert_eq!(m.get_by_left(&id(2)), None);
    // The same pair again changes nothing but the order.
    m.insert(id(1), name("g"));
    assert_eq!(m.iter(), vec![(id(0), name("h")), (id(1), name("g"))]);
}

// Terms

#[test]
fn terms_are_built() {
    assert_eq!(SExprTerm::symbol("a"), SExprTerm::Symbol("a".to_string()));
    assert_eq!(SExprTerm::string("a"), SExprTerm::String("a".to_string()));
    assert_eq!(SExprTerm::number(-3), SExprTerm::Number(-3));
    assert_eq!(
        SExprTerm::call("f", vec![SExprTerm::number(1), SExprTerm::symbol("x")]),
        SExprTerm::List(vec![
            SExprTerm::Symbol("f".to_string()),
            SExprTerm::Number(1),
            SExprTerm::Symbol("x".to_string())
        ])
    );
    assert_eq!(SExprTerm::call("f", vec![]), SExprTerm::List(vec![SExprTerm::Symbol("f".to_string())]));
    assert_eq!(SExprTerm::list(vec![]), SExprTerm::List(vec![]));
    assert_eq!(pp::symbol("a"), SExprTerm::symbol("a"));
    assert_eq!(pp::string("a"), SExprTerm::string("a"));
    assert_eq!(pp::number(4), SExprTerm::number(4));
    assert_eq!(pp::call("f", vec![pp::number(4)]), SExprTerm::call("f", vec![pp::number(4)]));
    assert_eq!(pp::list(vec![pp::number(4)]), SExprTerm::List(vec![SExprTerm::Number(4)]));
    assert_eq!(pp::Options::default().width, 80);
}

#[test]
fn plain_values_show_themselves() {
    assert_eq!(true.to_sexpr(), SExprTerm::symbol("true"));
    assert_eq!(false.to_sexpr(), SExprTerm::symbol("false"));
    assert_eq!(().to_sexpr(), SExprTerm::List(vec![]));
    assert_eq!(7i32.to_sexpr(), SExprTerm::Number(7));
    assert_eq!(7u32.to_sexpr(), SExprTerm::Number(7));
    assert_eq!("s".to_string().to_sexpr(), SExprTerm::String("s".to_string()));
    let nested = SExprTerm::call("f", vec![SExprTerm::list(vec![SExprTerm::string("x")])]);
    assert_eq!(nested.to_sexpr(), nested);
}

// The peephole pass

fn tag() -> Tag {
    Tag { value: 0 }
}

fn temp(n: u32) -> simple::Ident {
    simple::Ident::SingleUse(tag().attach(simple::SingleUseIdent { id: n }))
}

fn local(n: u32) -> simple::Ident {
    simple::Ident::Local(tag().attach(LocalIdent { id: n }))
}

fn assign(target: simple::Ident, value: simple::AssignmentValue) -> simple::FunStmt {
    simple::FunStmt::Assignment(tag().attach(simple::Assignment { target, value }))
}

fn lit(n: i32) -> simple::AssignmentValue {
    simple::AssignmentValue::LitNum(tag().attach(LitNum(n)))
}

fn read(i: simple::Ident) -> simple::AssignmentValue {
    simple::AssignmentValue::Ident(i)
}

fn body(stmts: Vec<simple::FunStmt>) -> simple::FunImpl {
    simple::FunImpl { parameters: tag().attach(vec![]), body: tag().attach(stmts) }
}

#[test]
fn prune_hands_the_value_on_and_leaves_a_nop() {
    let mut f = body(vec![assign(temp(1), lit(5)), assign(local(0), read(temp(1)))]);
    prune_single_use::run(&mut f);
    assert_eq!(f.body.v, vec![simple::FunStmt::Nop, assign(local(0), lit(5))]);
}

#[test]
fn prune_goes_on_with_the_merged_statement() {
    let mut f = body(vec![
        assign(temp(1), lit(5)),
        assign(temp(2), read(temp(1))),
        assign(local(0), read(temp(2))),
        simple::FunStmt::Return(local(0)),
    ]);
    prune_single_use::run(&mut f);
    assert_eq!(
        f.body.v,
        vec![
            simple::FunStmt::Nop,
            simple::FunStmt::Nop,
            assign(local(0), lit(5)),
            simple::FunStmt::Return(local(0))
        ]
    );
}

#[test]
fn prune_leaves_other_pairs_alone() {
    let stmts = || {
        vec![
            assign(local(0), lit(5)),
            assign(local(1), read(local(0))),
            assign(temp(1), lit(1)),
            assign(local(2), read(temp(2))),
            assign(temp(3), lit(1)),
            simple::FunStmt::Return(temp(3)),
        ]
    };
    let mut f = body(stmts());
    prune_single_use::run(&mut f);
    assert_eq!(f.body.v, stmts());
    let mut empty = body(vec![]);
    prune_single_use::run(&mut empty);
    assert_eq!(empty.body.v, vec![]);
}

#[test]
fn remove_nops_keeps_the_rest_in_order() {
    let mut f = body(vec![
        simple::FunStmt::Nop,
        assign(local(0), lit(5)),
        simple::FunStmt::Nop,
        simple::FunStmt::Break(),
        simple::FunStmt::Nop,
    ]);
    remove_nops::run(&mut f);
    assert_eq!(f.body.v, vec![assign(local(0), lit(5)), simple::FunStmt::Break()]);
}

fn module_of(stmts: Vec<simple::FunStmt>) -> simple::Module {
    simple::Module {
        statements: vec![simple::TopLevelStmt::FunDecl(WithLoc::unknown(simple::FunDecl {
            name: WithLoc::unknown(name("f")),
            implementation: body(stmts),
            tag_map: TagMap::new(),
            refs: Bimap::new(),
        }))],
    }
}

fn body_of(m: &simple::Module) -> &Vec<simple::FunStmt> {
    match &m.statements[0] {
        simple::TopLevelStmt::FunDecl(f) => &f.v.implementation.body.v,
    }
}

#[test]
fn peephole_pass_twice_is_the_pass_once() {
    let mut m = module_of(vec![
        assign(temp(1), lit(5)),
        assign(temp(2), read(temp(1))),
        assign(local(0), read(temp(2))),
        assign(temp(3), lit(7)),
        simple::FunStmt::Return(temp(3)),
    ]);
    optimizations::run(&mut m);
    let once = vec![
        assign(local(0), lit(5)),
        assign(temp(3), lit(7)),
        simple::FunStmt::Return(temp(3)),
    ];
    assert_eq!(body_of(&m), &once);
    optimizations::run(&mut m);
    assert_eq!(body_of(&m), &once);
    optimizations::run(&mut m);
    assert_eq!(body_of(&m), &once);
}

#[test]
fn a_nop_between_a_pair_hides_it_from_the_first_pass() {
    let mut m = module_of(vec![
        assign(temp(1), lit(5)),
        simple::FunStmt::Nop,
        assign(local(0), read(temp(1))),
    ]);
    optimizations::run(&mut m);
    assert_eq!(
        body_of(&m),
        &vec![assign(temp(1), lit(5)), assign(local(0), read(temp(1)))]
    );
    optimizations::run(&mut m);
    assert_eq!(body_of(&m), &vec![assign(local(0), lit(5))]);
}

// Fragments and the primitives

#[test]
fn primitives_are_six_binary_operations() {
    let p = linker::prims();
    let shown: Vec<(String, bool, Vec<ValType>, u32, Vec<fragment::Instr>)> = p
        .statements
        .iter()
        .map(|s| match s {
            fragment::TopLevelStmt::FunDecl(f) => (
                f.v.name.v.0.clone(),
                f.v.export,
                f.v.implementation.params.clone(),
                f.v.implementation.slots,
                f.v.implementation.body.clone(),
            ),
        })
        .collect();
    let binop = |n: &str, i: Instruction| {
        (
            format!("__prim_{}", n),
            false,
            vec![ValType::I32, ValType::I32],
            2,
            vec![
                fragment::Instr::Raw(Instruction::LocalGet(0)),
                fragment::Instr::Raw(Instruction::LocalGet(1)),
                fragment::Instr::Raw(i),
            ],
        )
    };
    assert_eq!(
        shown,
        vec![
            binop("gt?", Instruction::I32GtU),
            binop("gte?", Instruction::I32GeU),
            binop("lt?", Instruction::I32LtU),
            binop("lte?", Instruction::I32LeU),
            binop("eq?", Instruction::I32Eq),
            binop("add", Instruction::I32Add),
        ]
    );
}

#[test]
fn fragments_add_in_order() {
    let p = linker::prims();
    let one = fragment::Module { statements: vec![p.statements[0].duplicate()] };
    let two = fragment::Module {
        statements: vec![p.statements[1].duplicate(), p.statements[2].duplicate()],
    };
    let sum = one.add(&two);
    assert_eq!(sum.statements.len(), 3);
    assert_eq!(sum.statements[0], p.statements[0]);
    assert_eq!(sum.statements[1], p.statements[1]);
    assert_eq!(sum.statements[2], p.statements[2]);
    assert_eq!(one.add(&fragment::Module { statements: vec![] }), one);
}

#[test]
fn small_modules_fit_the_binary_format() {
    assert!(check_size(&linked::Module { statements: vec![] }));
    let linked = linker::run(&fragment::Module { statements: vec![] }).unwrap();
    assert!(check_size(&linked));
}
