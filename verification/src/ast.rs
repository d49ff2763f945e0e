//! Abstract syntax of Modelica classes, equations, statements and expressions,
//! with a mathematical view of each node used by the contracts of the library.

use vstd::prelude::*;
use crate::text::strings_view;

verus! {

broadcast use vstd::std_specs::vec::axiom_vec_decreases_to_view;

/// Binary operators of the expression language.
#[derive(Clone, Copy, Debug, PartialEq, Eq, Structural)]
pub enum Operator {
    Add,
    Sub,
    Mul,
    Div,
    And,
    Or,
    Less,
    LessEq,
    Greater,
    GreaterEq,
    Equal,
    NotEqual,
}

/// An expression. A number is kept as the decimal text of its literal.
pub enum Expression {
    Number(String),
    StringLiteral(String),
    Variable(String),
    BinaryOp(Box<Expression>, Operator, Box<Expression>),
    Call(String, Vec<Expression>),
    Der(Box<Expression>),
    Sample(Box<Expression>),
    Interval(Box<Expression>),
    Hold(Box<Expression>),
    Previous(Box<Expression>),
    SubSample(Box<Expression>, Box<Expression>),
    SuperSample(Box<Expression>, Box<Expression>),
    ShiftSample(Box<Expression>, Box<Expression>),
    BackSample(Box<Expression>, Box<Expression>),
    ArrayAccess(Box<Expression>, Box<Expression>),
    Dot(Box<Expression>, String),
    If(Box<Expression>, Box<Expression>, Box<Expression>),
    Range(Box<Expression>, Box<Expression>, Box<Expression>),
    ArrayLiteral(Vec<Expression>),
    ArrayComprehension { expr: Box<Expression>, iter_var: String, iter_range: Box<Expression> },
}

/// Mathematical value of an [`Expression`].
pub enum SExpr {
    Number(Seq<char>),
    StringLiteral(Seq<char>),
    Variable(Seq<char>),
    BinaryOp(Box<SExpr>, Operator, Box<SExpr>),
    Call(Seq<char>, Seq<SExpr>),
    Der(Box<SExpr>),
    Sample(Box<SExpr>),
    Interval(Box<SExpr>),
    Hold(Box<SExpr>),
    Previous(Box<SExpr>),
    SubSample(Box<SExpr>, Box<SExpr>),
    SuperSample(Box<SExpr>, Box<SExpr>),
    ShiftSample(Box<SExpr>, Box<SExpr>),
    BackSample(Box<SExpr>, Box<SExpr>),
    ArrayAccess(Box<SExpr>, Box<SExpr>),
    Dot(Box<SExpr>, Seq<char>),
    If(Box<SExpr>, Box<SExpr>, Box<SExpr>),
    Range(Box<SExpr>, Box<SExpr>, Box<SExpr>),
    ArrayLiteral(Seq<SExpr>),
    ArrayComprehension { expr: Box<SExpr>, iter_var: Seq<char>, iter_range: Box<SExpr> },
}

impl Expression {
    pub open spec fn view(&self) -> SExpr
        decreases self,
    {
        match self {
            Expression::Number(s) => SExpr::Number(s@),
            Expression::StringLiteral(s) => SExpr::StringLiteral(s@),
            Expression::Variable(s) => SExpr::Variable(s@),
            Expression::BinaryOp(l, op, r) => SExpr::BinaryOp(Box::new(l.view()), *op, Box::new(r.view())),
            Expression::Call(n, args) => SExpr::Call(n@, exprs_view(args@)),
            Expression::Der(a) => SExpr::Der(Box::new(a.view())),
            Expression::Sample(a) => SExpr::Sample(Box::new(a.view())),
            Expression::Interval(a) => SExpr::Interval(Box::new(a.view())),
            Expression::Hold(a) => SExpr::Hold(Box::new(a.view())),
            Expression::Previous(a) => SExpr::Previous(Box::new(a.view())),
            Expression::SubSample(a, b) => SExpr::SubSample(Box::new(a.view()), Box::new(b.view())),
            Expression::SuperSample(a, b) => SExpr::SuperSample(Box::new(a.view()), Box::new(b.view())),
            Expression::ShiftSample(a, b) => SExpr::ShiftSample(Box::new(a.view()), Box::new(b.view())),
            Expression::BackSample(a, b) => SExpr::BackSample(Box::new(a.view()), Box::new(b.view())),
            Expression::ArrayAccess(a, b) => SExpr::ArrayAccess(Box::new(a.view()), Box::new(b.view())),
            Expression::Dot(a, m) => SExpr::Dot(Box::new(a.view()), m@),
            Expression::If(c, t, f) => SExpr::If(Box::new(c.view()), Box::new(t.view()), Box::new(f.view())),
            Expression::Range(a, b, c) => SExpr::Range(Box::new(a.view()), Box::new(b.view()), Box::new(c.view())),
            Expression::ArrayLiteral(items) => SExpr::ArrayLiteral(exprs_view(items@)),
            Expression::ArrayComprehension { expr, iter_var, iter_range } => SExpr::ArrayComprehension {
                expr: Box::new(expr.view()),
                iter_var: iter_var@,
                iter_range: Box::new(iter_range.view()),
            },
        }
    }
}

/// The views of a sequence of expressions, element by element.
pub open spec fn exprs_view(s: Seq<Expression>) -> Seq<SExpr>
    decreases s,
{
    if s.len() == 0 {
        Seq::empty()
    } else {
        exprs_view(s.drop_last()).push(s.last().view())
    }
}

pub broadcast proof fn lemma_exprs_view(s: Seq<Expression>)
    ensures
        #[trigger] exprs_view(s).len() == s.len(),
        forall|i: int| 0 <= i < s.len() ==> #[trigger] exprs_view(s)[i] == s[i]@,
    decreases s.len(),
{
    if s.len() > 0 {
        lemma_exprs_view(s.drop_last());
    }
}

/// An equation.
pub enum Equation {
    Simple(Expression, Expression),
    Connect(Expression, Expression),
    For(String, Box<Expression>, Box<Expression>, Vec<Equation>),
    When(Expression, Vec<Equation>, Vec<(Expression, Vec<Equation>)>),
    If(Expression, Vec<Equation>, Vec<(Expression, Vec<Equation>)>, Option<Vec<Equation>>),
    Reinit(String, Expression),
    Assert(Expression, Expression),
    Terminate(Expression),
    MultiAssign(Vec<Expression>, Expression),
    CallStmt(Expression),
    SolvableBlock {
        unknowns: Vec<String>,
        tearing_var: Option<String>,
        equations: Vec<Equation>,
        residuals: Vec<Expression>,
    },
}

/// Mathematical value of an [`Equation`].
pub enum SEquation {
    Simple(SExpr, SExpr),
    Connect(SExpr, SExpr),
    For(Seq<char>, SExpr, SExpr, Seq<SEquation>),
    When(SExpr, Seq<SEquation>, Seq<(SExpr, Seq<SEquation>)>),
    If(SExpr, Seq<SEquation>, Seq<(SExpr, Seq<SEquation>)>, Option<Seq<SEquation>>),
    Reinit(Seq<char>, SExpr),
    Assert(SExpr, SExpr),
    Terminate(SExpr),
    MultiAssign(Seq<SExpr>, SExpr),
    CallStmt(SExpr),
    SolvableBlock {
        unknowns: Seq<Seq<char>>,
        tearing_var: Option<Seq<char>>,
        equations: Seq<SEquation>,
        residuals: Seq<SExpr>,
    },
}

impl Equation {
    pub open spec fn view(&self) -> SEquation
        decreases self,
    {
        match self {
            Equation::Simple(l, r) => SEquation::Simple(l@, r@),
            Equation::Connect(a, b) => SEquation::Connect(a@, b@),
            Equation::For(v, s, e, body) => SEquation::For(v@, s.view(), e.view(), eqs_view(body@)),
            Equation::When(c, body, elses) => SEquation::When(c@, eqs_view(body@), eq_branches_view(elses@)),
            Equation::If(c, then_eqs, elifs, els) => SEquation::If(
                c@,
                eqs_view(then_eqs@),
                eq_branches_view(elifs@),
                match els {
                    Some(v) => Some(eqs_view(v@)),
                    None => None,
                },
            ),
            Equation::Reinit(v, e) => SEquation::Reinit(v@, e@),
            Equation::Assert(c, m) => SEquation::Assert(c@, m@),
            Equation::Terminate(m) => SEquation::Terminate(m@),
            Equation::MultiAssign(l, r) => SEquation::MultiAssign(exprs_view(l@), r@),
            Equation::CallStmt(e) => SEquation::CallStmt(e@),
            Equation::SolvableBlock { unknowns, tearing_var, equations, residuals } => SEquation::SolvableBlock {
                unknowns: strings_view(unknowns@),
                tearing_var: match tearing_var {
                    Some(t) => Some(t@),
                    None => None,
                },
                equations: eqs_view(equations@),
                residuals: exprs_view(residuals@),
            },
        }
    }
}

/// The views of a sequence of equations, element by element.
pub open spec fn eqs_view(s: Seq<Equation>) -> Seq<SEquation>
    decreases s,
{
    if s.len() == 0 {
        Seq::empty()
    } else {
        eqs_view(s.drop_last()).push(s.last().view())
    }
}

/// The views of a sequence of guarded branches of equations.
pub open spec fn eq_branches_view(s: Seq<(Expression, Vec<Equation>)>) -> Seq<(SExpr, Seq<SEquation>)>
    decreases s,
{
    if s.len() == 0 {
        Seq::empty()
    } else {
        eq_branches_view(s.drop_last()).push((s.last().0@, eqs_view(s.last().1@)))
    }
}

pub broadcast proof fn lemma_eqs_view(s: Seq<Equation>)
    ensures
        #[trigger] eqs_view(s).len() == s.len(),
        forall|i: int| 0 <= i < s.len() ==> #[trigger] eqs_view(s)[i] == s[i]@,
    decreases s.len(),
{
    if s.len() > 0 {
        lemma_eqs_view(s.drop_last());
    }
}

pub broadcast proof fn lemma_eq_branches_view(s: Seq<(Expression, Vec<Equation>)>)
    ensures
        #[trigger] eq_branches_view(s).len() == s.len(),
        forall|i: int| 0 <= i < s.len() ==> #[trigger] eq_branches_view(s)[i] == (s[i].0@, eqs_view(s[i].1@)),
    decreases s.len(),
{
    if s.len() > 0 {
        lemma_eq_branches_view(s.drop_last());
    }
}

pub proof fn lemma_eqs_view_push(s: Seq<Equation>, x: Equation)
    ensures
        eqs_view(s.push(x)) == eqs_view(s).push(x@),
{
    assert(s.push(x).drop_last() =~= s);
}

pub proof fn lemma_exprs_view_push(s: Seq<Expression>, x: Expression)
    ensures
        exprs_view(s.push(x)) == exprs_view(s).push(x@),
{
    assert(s.push(x).drop_last() =~= s);
}

pub broadcast group group_ast_views {
    lemma_exprs_view,
    lemma_eqs_view,
    lemma_eq_branches_view,
}

/// A copy of an expression with the same view.
pub fn clone_expr(e: &Expression) -> (r: Expression)
    ensures
        r@ == e@,
    decreases e,
{
    match e {
        Expression::Number(s) => Expression::Number(s.clone()),
        Expression::StringLiteral(s) => Expression::StringLiteral(s.clone()),
        Expression::Variable(s) => Expression::Variable(s.clone()),
        Expression::BinaryOp(l, op, r) => Expression::BinaryOp(
            Box::new(clone_expr(l)),
            *op,
            Box::new(clone_expr(r)),
        ),
        Expression::Call(n, args) => {
            let a = clone_exprs(args);
            Expression::Call(n.clone(), a)
        },
        Expression::Der(a) => Expression::Der(Box::new(clone_expr(a))),
        Expression::Sample(a) => Expression::Sample(Box::new(clone_expr(a))),
        Expression::Interval(a) => Expression::Interval(Box::new(clone_expr(a))),
        Expression::Hold(a) => Expression::Hold(Box::new(clone_expr(a))),
        Expression::Previous(a) => Expression::Previous(Box::new(clone_expr(a))),
        Expression::SubSample(a, b) => Expression::SubSample(Box::new(clone_expr(a)), Box::new(clone_expr(b))),
        Expression::SuperSample(a, b) => Expression::SuperSample(Box::new(clone_expr(a)), Box::new(clone_expr(b))),
        Expression::ShiftSample(a, b) => Expression::ShiftSample(Box::new(clone_expr(a)), Box::new(clone_expr(b))),
        Expression::BackSample(a, b) => Expression::BackSample(Box::new(clone_expr(a)), Box::new(clone_expr(b))),
        Expression::ArrayAccess(a, b) => Expression::ArrayAccess(Box::new(clone_expr(a)), Box::new(clone_expr(b))),
        Expression::Dot(a, m) => Expression::Dot(Box::new(clone_expr(a)), m.clone()),
        Expression::If(c, t, f) => Expression::If(
            Box::new(clone_expr(c)),
            Box::new(clone_expr(t)),
            Box::new(clone_expr(f)),
        ),
        Expression::Range(a, b, c) => Expression::Range(
            Box::new(clone_expr(a)),
            Box::new(clone_expr(b)),
            Box::new(clone_expr(c)),
        ),
        Expression::ArrayLiteral(items) => Expression::ArrayLiteral(clone_exprs(items)),
        Expression::ArrayComprehension { expr, iter_var, iter_range } => Expression::ArrayComprehension {
            expr: Box::new(clone_expr(expr)),
            iter_var: iter_var.clone(),
            iter_range: Box::new(clone_expr(iter_range)),
        },
    }
}

/// A copy of a vector of expressions with the same views.
pub fn clone_exprs(v: &Vec<Expression>) -> (r: Vec<Expression>)
    ensures
        exprs_view(r@) == exprs_view(v@),
    decreases v,
{
    broadcast use group_ast_views;
    let mut out: Vec<Expression> = Vec::new();
    let mut i: usize = 0;
    while i < v.len()
        invariant
            i <= v@.len(),
            out@.len() == i,
            forall|j: int| 0 <= j < i ==> #[trigger] out@[j]@ == v@[j]@,
        decreases v@.len() - i,
    {
        proof {
            assert(decreases_to!(v => v@[i as int]));
        }
        let c = clone_expr(&v[i]);
        out.push(c);
        i += 1;
    }
    assert(exprs_view(out@) =~= exprs_view(v@));
    out
}

/// A copy of a vector of strings.
pub fn clone_strings(v: &Vec<String>) -> (r: Vec<String>)
    ensures
        r@ == v@,
{
    let mut out: Vec<String> = Vec::new();
    let mut i: usize = 0;
    while i < v.len()
        invariant
            i <= v@.len(),
            out@ == v@.subrange(0, i as int),
        decreases v@.len() - i,
    {
        out.push(v[i].clone());
        i += 1;
    }
    assert(out@ =~= v@);
    out
}

/// A copy of an equation with the same view.
pub fn clone_equation(e: &Equation) -> (r: Equation)
    ensures
        r@ == e@,
    decreases e,
{
    match e {
        Equation::Simple(l, r) => Equation::Simple(clone_expr(l), clone_expr(r)),
        Equation::Connect(a, b) => Equation::Connect(clone_expr(a), clone_expr(b)),
        Equation::For(v, s, en, body) => Equation::For(
            v.clone(),
            Box::new(clone_expr(s)),
            Box::new(clone_expr(en)),
            clone_equations(body),
        ),
        Equation::When(c, body, elses) => Equation::When(
            clone_expr(c),
            clone_equations(body),
            clone_eq_branches(elses),
        ),
        Equation::If(c, then_eqs, elifs, els) => {
            let e2 = match els {
                Some(v) => Some(clone_equations(v)),
                None => None,
            };
            Equation::If(clone_expr(c), clone_equations(then_eqs), clone_eq_branches(elifs), e2)
        },
        Equation::Reinit(v, x) => Equation::Reinit(v.clone(), clone_expr(x)),
        Equation::Assert(c, m) => Equation::Assert(clone_expr(c), clone_expr(m)),
        Equation::Terminate(m) => Equation::Terminate(clone_expr(m)),
        Equation::MultiAssign(l, r) => Equation::MultiAssign(clone_exprs(l), clone_expr(r)),
        Equation::CallStmt(x) => Equation::CallStmt(clone_expr(x)),
        Equation::SolvableBlock { unknowns, tearing_var, equations, residuals } => {
            let tv = match tearing_var {
                Some(t) => Some(t.clone()),
                None => None,
            };
            let u = clone_strings(unknowns);
            Equation::SolvableBlock {
                unknowns: u,
                tearing_var: tv,
                equations: clone_equations(equations),
                residuals: clone_exprs(residuals),
            }
        },
    }
}

/// A copy of a vector of equations with the same views.
pub fn clone_equations(v: &Vec<Equation>) -> (r: Vec<Equation>)
    ensures
        eqs_view(r@) == eqs_view(v@),
    decreases v,
{
    broadcast use group_ast_views;
    let mut out: Vec<Equation> = Vec::new();
    let mut i: usize = 0;
    while i < v.len()
        invariant
            i <= v@.len(),
            out@.len() == i,
            forall|j: int| 0 <= j < i ==> #[trigger] out@[j]@ == v@[j]@,
        decreases v@.len() - i,
    {
        proof {
            assert(decreases_to!(v => v@[i as int]));
        }
        let c = clone_equation(&v[i]);
        out.push(c);
        i += 1;
    }
    assert(eqs_view(out@) =~= eqs_view(v@));
    out
}

/// A copy of a vector of guarded equation branches with the same views.
pub fn clone_eq_branches(v: &Vec<(Expression, Vec<Equation>)>) -> (r: Vec<(Expression, Vec<Equation>)>)
    ensures
        eq_branches_view(r@) == eq_branches_view(v@),
    decreases v,
{
    broadcast use group_ast_views;
    let mut out: Vec<(Expression, Vec<Equation>)> = Vec::new();
    let mut i: usize = 0;
    while i < v.len()
        invariant
            i <= v@.len(),
            out@.len() == i,
            forall|j: int| 0 <= j < i ==> #[trigger] out@[j].0@ == v@[j].0@ && eqs_view(out@[j].1@) == eqs_view(v@[j].1@),
        decreases v@.len() - i,
    {
        proof {
            assert(decreases_to!(v => v@[i as int]));
        }
        let c = clone_expr(&v[i].0);
        let b = clone_equations(&v[i].1);
        out.push((c, b));
        i += 1;
    }
    assert(eq_branches_view(out@) =~= eq_branches_view(v@));
    out
}

} // verus!
