use vstd::prelude::*;
use crate::util::vecs::reversed;

verus! {

// Trait

/// What can show itself as a term.
pub trait SExpr {
    spec fn spec_sexpr(&self) -> SExprTermView;

    fn to_sexpr(&self) -> (r: SExprTerm)
        ensures
            r@ == self.spec_sexpr(),
    ;
}

// Terms

/// A term: an atom or a list of terms.
#[derive(Debug, PartialEq, Eq)]
pub enum SExprTerm {
    Symbol(String),
    String(String),
    Number(i64),
    List(Vec<SExprTerm>),
}

/// The view of [`SExprTerm`]: sequences stand for vectors and strings.
pub enum SExprTermView {
    Symbol(Seq<char>),
    String(Seq<char>),
    Number(i64),
    List(Seq<SExprTermView>),
}

/// The view of a term.
pub open spec fn term_view(t: SExprTerm) -> SExprTermView
    decreases t,
{
    match t {
        SExprTerm::Symbol(s) => SExprTermView::Symbol(s@),
        SExprTerm::String(s) => SExprTermView::String(s@),
        SExprTerm::Number(n) => SExprTermView::Number(n),
        SExprTerm::List(l) => SExprTermView::List(terms_view(l@)),
    }
}

/// The views of terms, in order.
pub open spec fn terms_view(s: Seq<SExprTerm>) -> Seq<SExprTermView>
    decreases s,
{
    Seq::new(
        s.len(),
        |i: int|
            if 0 <= i < s.len() {
                term_view(s[i])
            } else {
                arbitrary()
            },
    )
}

impl View for SExprTerm {
    type V = SExprTermView;

    open spec fn view(&self) -> SExprTermView {
        term_view(*self)
    }
}

impl SExprTerm {
    /// The symbol `x`.
    pub fn symbol(x: &str) -> (r: SExprTerm)
        ensures
            r@ == SExprTermView::Symbol(x@),
    {
        SExprTerm::Symbol(String::from_str(x))
    }

    /// The string `x`.
    pub fn string(x: &str) -> (r: SExprTerm)
        ensures
            r@ == SExprTermView::String(x@),
    {
        SExprTerm::String(String::from_str(x))
    }

    /// The number `x`.
    pub fn number(x: i64) -> (r: SExprTerm)
        ensures
            r@ == SExprTermView::Number(x),
    {
        SExprTerm::Number(x)
    }

    /// The list that starts with the symbol `name` and goes on with `args`.
    pub fn call(name: &str, args: Vec<SExprTerm>) -> (r: SExprTerm)
        ensures
            r@ == SExprTermView::List(seq![SExprTermView::Symbol(name@)] + terms_view(args@)),
    {
        let mut list: Vec<SExprTerm> = Vec::new();
        list.push(SExprTerm::Symbol(String::from_str(name)));
        let ghost wanted = args@;
        let mut rest = reversed(args);
        while rest.len() > 0
            invariant
                rest@.len() + list@.len() == wanted.len() + 1,
                list@.len() >= 1,
                list@[0]@ == SExprTermView::Symbol(name@),
                forall|i: int| 0 <= i < rest@.len() ==> rest@[i] == wanted[wanted.len() - 1 - i],
                forall|i: int| 1 <= i < list@.len() ==> list@[i] == wanted[i - 1],
            decreases rest.len(),
        {
            let x = rest.pop().unwrap();
            list.push(x);
        }
        assert(terms_view(list@) =~= seq![SExprTermView::Symbol(name@)] + terms_view(wanted));
        SExprTerm::List(list)
    }

    /// The list of `args`.
    pub fn list(args: Vec<SExprTerm>) -> (r: SExprTerm)
        ensures
            r@ == SExprTermView::List(terms_view(args@)),
    {
        SExprTerm::List(args)
    }

    /// A copy of the term.
    pub fn duplicate(&self) -> (r: SExprTerm)
        ensures
            r@ == self@,
        decreases self,
    {
        match self {
            SExprTerm::Symbol(s) => SExprTerm::Symbol(s.clone()),
            SExprTerm::String(s) => SExprTerm::String(s.clone()),
            SExprTerm::Number(n) => SExprTerm::Number(*n),
            SExprTerm::List(l) => {
                let mut out: Vec<SExprTerm> = Vec::new();
                let mut i: usize = 0;
                while i < l.len()
                    invariant
                        i <= l.len(),
                        *self == SExprTerm::List(*l),
                        out@.len() == i,
                        forall|j: int| 0 <= j < i ==> out@[j]@ == l@[j]@,
                    decreases l.len() - i,
                {
                    proof {
                        assert(self->List_0 == *l);
                        assert(decreases_to!(*self => self->List_0));
                        assert(decreases_to!(*l => l[i as int]));
                    }
                    out.push(l[i].duplicate());
                    i += 1;
                }
                assert(terms_view(out@) =~= terms_view(l@));
                SExprTerm::List(out)
            },
        }
    }
}

/// The symbol `x`.
pub fn symbol(x: &str) -> (r: SExprTerm)
    ensures
        r@ == SExprTermView::Symbol(x@),
{
    SExprTerm::symbol(x)
}

/// The string `x`.
pub fn string(x: &str) -> (r: SExprTerm)
    ensures
        r@ == SExprTermView::String(x@),
{
    SExprTerm::string(x)
}

/// The number `x`.
pub fn number(x: i64) -> (r: SExprTerm)
    ensures
        r@ == SExprTermView::Number(x),
{
    SExprTerm::number(x)
}

/// The list that starts with the symbol `name` and goes on with `args`.
pub fn call(name: &str, args: Vec<SExprTerm>) -> (r: SExprTerm)
    ensures
        r@ == SExprTermView::List(seq![SExprTermView::Symbol(name@)] + terms_view(args@)),
{
    SExprTerm::call(name, args)
}

/// The list of `args`.
pub fn list(args: Vec<SExprTerm>) -> (r: SExprTerm)
    ensures
        r@ == SExprTermView::List(terms_view(args@)),
{
    SExprTerm::list(args)
}

// Instances

impl SExpr for SExprTerm {
    open spec fn spec_sexpr(&self) -> SExprTermView {
        self@
    }

    fn to_sexpr(&self) -> (r: SExprTerm) {
        self.duplicate()
    }
}

impl SExpr for () {
    open spec fn spec_sexpr(&self) -> SExprTermView {
        SExprTermView::List(Seq::empty())
    }

    fn to_sexpr(&self) -> (r: SExprTerm) {
        let l: Vec<SExprTerm> = Vec::new();
        assert(terms_view(l@) =~= Seq::empty());
        SExprTerm::List(l)
    }
}

impl SExpr for bool {
    open spec fn spec_sexpr(&self) -> SExprTermView {
        SExprTermView::Symbol(
            if *self {
                "true"@
            } else {
                "false"@
            },
        )
    }

    fn to_sexpr(&self) -> (r: SExprTerm) {
        if *self {
            SExprTerm::symbol("true")
        } else {
            SExprTerm::symbol("false")
        }
    }
}

impl SExpr for i32 {
    open spec fn spec_sexpr(&self) -> SExprTermView {
        SExprTermView::Number(*self as i64)
    }

    fn to_sexpr(&self) -> (r: SExprTerm) {
        SExprTerm::Number(*self as i64)
    }
}

impl SExpr for u32 {
    open spec fn spec_sexpr(&self) -> SExprTermView {
        SExprTermView::Number(*self as i64)
    }

    fn to_sexpr(&self) -> (r: SExprTerm) {
        SExprTerm::Number(*self as i64)
    }
}

impl SExpr for String {
    open spec fn spec_sexpr(&self) -> SExprTermView {
        SExprTermView::String(self@)
    }

    fn to_sexpr(&self) -> (r: SExprTerm) {
        SExprTerm::String(self.clone())
    }
}

// Pretty printing

/// How wide a printed term may get.
#[derive(Debug, Clone, Copy, PartialEq, Eq)]
pub struct Options {
    pub width: usize,
}

impl Default for Options {
    fn default() -> (r: Self)
        ensures
            r.width == 80,
    {
        Options { width: 80 }
    }
}

} // verus!
