//! Questions the code generator asks of expressions and equations before it
//! compiles them: which variables are states, whether an expression holds an
//! array literal or comprehension, may be stored to, or has a symbolic
//! derivative; and the derivative variables written as plain names.

use vstd::prelude::*;
use crate::ast::{Equation, Expression, Operator, SEquation, SExpr, eqs_view, exprs_view, group_ast_views, lemma_exprs_view_push};
use crate::text::{chars_of, concat, ends_with, str_eq, strings_view, vec_ends_with};

verus! {

broadcast use group_ast_views;

/// Whether `e` holds an array literal anywhere.
pub open spec fn has_array_literal(e: SExpr) -> bool
    decreases e,
{
    match e {
        SExpr::ArrayLiteral(_) => true,
        SExpr::BinaryOp(l, _, r) => has_array_literal(*l) || has_array_literal(*r),
        SExpr::Call(_, args) => any_array_literal(args),
        SExpr::Der(a) | SExpr::Sample(a) | SExpr::Interval(a) | SExpr::Hold(a) | SExpr::Previous(a) => has_array_literal(*a),
        SExpr::SubSample(a, b) | SExpr::SuperSample(a, b) | SExpr::ShiftSample(a, b) | SExpr::BackSample(a, b)
        | SExpr::ArrayAccess(a, b) => has_array_literal(*a) || has_array_literal(*b),
        SExpr::Dot(b, _) => has_array_literal(*b),
        SExpr::If(c, t, f) => has_array_literal(*c) || has_array_literal(*t) || has_array_literal(*f),
        SExpr::Range(s, st, en) => has_array_literal(*s) || has_array_literal(*st) || has_array_literal(*en),
        SExpr::ArrayComprehension { expr, iter_range, .. } => has_array_literal(*expr) || has_array_literal(*iter_range),
        SExpr::Variable(_) | SExpr::Number(_) | SExpr::StringLiteral(_) => false,
    }
}

/// Whether some expression of `s` holds an array literal.
pub open spec fn any_array_literal(s: Seq<SExpr>) -> bool
    decreases s,
{
    if s.len() == 0 {
        false
    } else {
        any_array_literal(s.drop_last()) || has_array_literal(s.last())
    }
}

/// Whether `e` holds an array comprehension anywhere.
pub open spec fn has_comprehension(e: SExpr) -> bool
    decreases e,
{
    match e {
        SExpr::ArrayComprehension { .. } => true,
        SExpr::BinaryOp(l, _, r) => has_comprehension(*l) || has_comprehension(*r),
        SExpr::Call(_, args) => any_comprehension(args),
        SExpr::Der(a) | SExpr::Sample(a) | SExpr::Interval(a) | SExpr::Hold(a) | SExpr::Previous(a) => has_comprehension(*a),
        SExpr::SubSample(a, b) | SExpr::SuperSample(a, b) | SExpr::ShiftSample(a, b) | SExpr::BackSample(a, b)
        | SExpr::ArrayAccess(a, b) => has_comprehension(*a) || has_comprehension(*b),
        SExpr::Dot(b, _) => has_comprehension(*b),
        SExpr::If(c, t, f) => has_comprehension(*c) || has_comprehension(*t) || has_comprehension(*f),
        SExpr::Range(s, st, en) => has_comprehension(*s) || has_comprehension(*st) || has_comprehension(*en),
        SExpr::ArrayLiteral(items) => any_comprehension(items),
        SExpr::Variable(_) | SExpr::Number(_) | SExpr::StringLiteral(_) => false,
    }
}

/// Whether some expression of `s` holds an array comprehension.
pub open spec fn any_comprehension(s: Seq<SExpr>) -> bool
    decreases s,
{
    if s.len() == 0 {
        false
    } else {
        any_comprehension(s.drop_last()) || has_comprehension(s.last())
    }
}

/// Whether the expression holds an array literal anywhere.
pub fn expr_contains_array_literal(e: &Expression) -> (r: bool)
    ensures
        r == has_array_literal(e@),
    decreases e,
{
    match e {
        Expression::ArrayLiteral(_) => true,
        Expression::BinaryOp(l, _, r) => expr_contains_array_literal(l) || expr_contains_array_literal(r),
        Expression::Call(_, args) => any_contains_array_literal(args),
        Expression::Der(a) | Expression::Sample(a) | Expression::Interval(a) | Expression::Hold(a)
        | Expression::Previous(a) => expr_contains_array_literal(a),
        Expression::SubSample(a, b) | Expression::SuperSample(a, b) | Expression::ShiftSample(a, b)
        | Expression::BackSample(a, b) | Expression::ArrayAccess(a, b) => expr_contains_array_literal(a)
            || expr_contains_array_literal(b),
        Expression::Dot(b, _) => expr_contains_array_literal(b),
        Expression::If(c, t, f) => expr_contains_array_literal(c) || expr_contains_array_literal(t)
            || expr_contains_array_literal(f),
        Expression::Range(s, st, en) => expr_contains_array_literal(s) || expr_contains_array_literal(st)
            || expr_contains_array_literal(en),
        Expression::ArrayComprehension { expr, iter_range, .. } => expr_contains_array_literal(expr)
            || expr_contains_array_literal(iter_range),
        Expression::Variable(_) | Expression::Number(_) | Expression::StringLiteral(_) => false,
    }
}

/// Whether some expression of `v` holds an array literal.
fn any_contains_array_literal(v: &Vec<Expression>) -> (r: bool)
    ensures
        r == any_array_literal(exprs_view(v@)),
    decreases v,
{
    let mut found = false;
    let mut i: usize = 0;
    while i < v.len()
        invariant
            i <= v@.len(),
            found == any_array_literal(exprs_view(v@).take(i as int)),
        decreases v@.len() - i,
    {
        proof {
            assert(exprs_view(v@).take(i + 1).drop_last() =~= exprs_view(v@).take(i as int));
            assert(decreases_to!(v => v@[i as int]));
        }
        let x = expr_contains_array_literal(&v[i]);
        proof {
            crate::ast::lemma_exprs_view(v@);
            assert(exprs_view(v@)[i as int] == v@[i as int]@);
            assert(exprs_view(v@).take(i + 1).last() == exprs_view(v@)[i as int]);
        }
        found = found || x;
        i += 1;
    }
    assert(exprs_view(v@).take(v@.len() as int) =~= exprs_view(v@));
    found
}

/// Whether some expression of `v` holds an array comprehension.
fn any_contains_comprehension(v: &Vec<Expression>) -> (r: bool)
    ensures
        r == any_comprehension(exprs_view(v@)),
    decreases v,
{
    let mut found = false;
    let mut i: usize = 0;
    while i < v.len()
        invariant
            i <= v@.len(),
            found == any_comprehension(exprs_view(v@).take(i as int)),
        decreases v@.len() - i,
    {
        proof {
            assert(exprs_view(v@).take(i + 1).drop_last() =~= exprs_view(v@).take(i as int));
            assert(decreases_to!(v => v@[i as int]));
        }
        let x = expr_contains_array_comprehension(&v[i]);
        proof {
            crate::ast::lemma_exprs_view(v@);
            assert(exprs_view(v@)[i as int] == v@[i as int]@);
            assert(exprs_view(v@).take(i + 1).last() == exprs_view(v@)[i as int]);
        }
        found = found || x;
        i += 1;
    }
    assert(exprs_view(v@).take(v@.len() as int) =~= exprs_view(v@));
    found
}

/// Whether the expression holds an array comprehension anywhere.
pub fn expr_contains_array_comprehension(e: &Expression) -> (r: bool)
    ensures
        r == has_comprehension(e@),
    decreases e,
{
    match e {
        Expression::ArrayComprehension { .. } => true,
        Expression::BinaryOp(l, _, r) => expr_contains_array_comprehension(l) || expr_contains_array_comprehension(r),
        Expression::Call(_, args) => any_contains_comprehension(args),
        Expression::Der(a) | Expression::Sample(a) | Expression::Interval(a) | Expression::Hold(a)
        | Expression::Previous(a) => expr_contains_array_comprehension(a),
        Expression::SubSample(a, b) | Expression::SuperSample(a, b) | Expression::ShiftSample(a, b)
        | Expression::BackSample(a, b) | Expression::ArrayAccess(a, b) => expr_contains_array_comprehension(a)
            || expr_contains_array_comprehension(b),
        Expression::Dot(b, _) => expr_contains_array_comprehension(b),
        Expression::If(c, t, f) => expr_contains_array_comprehension(c) || expr_contains_array_comprehension(t)
            || expr_contains_array_comprehension(f),
        Expression::Range(s, st, en) => expr_contains_array_comprehension(s) || expr_contains_array_comprehension(st)
            || expr_contains_array_comprehension(en),
        Expression::ArrayLiteral(items) => any_contains_comprehension(items),
        Expression::Variable(_) | Expression::Number(_) | Expression::StringLiteral(_) => false,
    }
}

/// Whether a number literal has the value zero: every character before its
/// exponent is `0` or `.`.
pub open spec fn is_zero_literal(t: Seq<char>) -> bool
    decreases t.len(),
{
    if t.len() == 0 {
        true
    } else if t[0] == 'e' || t[0] == 'E' {
        true
    } else if t[0] == '0' || t[0] == '.' {
        is_zero_literal(t.drop_first())
    } else {
        false
    }
}

fn is_zero_literal_exec(t: &String) -> (r: bool)
    ensures
        r == is_zero_literal(t@),
{
    let cs = chars_of(t.as_str());
    let mut i: usize = 0;
    assert(cs@.skip(0) =~= cs@);
    while i < cs.len()
        invariant
            i <= cs@.len(),
            cs@ == t@,
            is_zero_literal(cs@) == is_zero_literal(cs@.skip(i as int)),
        decreases cs@.len() - i,
    {
        assert(cs@.skip(i as int)[0] == cs@[i as int]);
        assert(cs@.skip(i as int).drop_first() =~= cs@.skip(i + 1));
        let c = cs[i];
        if c == 'e' || c == 'E' {
            return true;
        }
        if c != '0' && c != '.' {
            return false;
        }
        i += 1;
    }
    assert(cs@.skip(i as int).len() == 0);
    true
}

/// Whether a value can be stored to `e`: a variable, an array element, or
/// `0 - target` (a negated target).
pub open spec fn is_store_target(e: SExpr) -> bool
    decreases e,
{
    match e {
        SExpr::Variable(_) | SExpr::ArrayAccess(_, _) => true,
        SExpr::BinaryOp(l, op, r) => op == Operator::Sub && (*l is Number && is_zero_literal((*l)->Number_0)) && is_store_target(*r),
        _ => false,
    }
}

/// Whether a value can be stored to `e` (see [`is_store_target`]).
pub fn is_store_target_expr(e: &Expression) -> (r: bool)
    ensures
        r == is_store_target(e@),
    decreases e,
{
    match e {
        Expression::Variable(x) => {
            assert(e@ == SExpr::Variable(x@));
            assert(is_store_target(SExpr::Variable(x@)));
            true
        },
        Expression::ArrayAccess(a, b) => {
            assert(e@ == SExpr::ArrayAccess(Box::new((**a).view()), Box::new((**b).view())));
            assert(is_store_target(SExpr::ArrayAccess(Box::new((**a).view()), Box::new((**b).view()))));
            true
        },
        Expression::BinaryOp(l, Operator::Sub, rhs) => {
            let zero = match &**l {
                Expression::Number(t) => {
                    assert((**l).view() == SExpr::Number(t@));
                    is_zero_literal_exec(t)
                },
                _ => {
                    assert(!((**l).view() is Number));
                    false
                },
            };
            assert(e@ == SExpr::BinaryOp(Box::new((**l).view()), Operator::Sub, Box::new((**rhs).view())));
            zero && is_store_target_expr(rhs)
        },
        _ => false,
    }
}

/// A call of a record constructor: an undotted name that starts with an ASCII
/// capital letter.
pub open spec fn is_record_constructor_name(name: Seq<char>) -> bool {
    !crate::text::has_char(name, '.') && name.len() > 0 && 'A' <= name[0] && name[0] <= 'Z'
}

/// Whether a call of `name` constructs a record (see [`is_record_constructor_name`]).
pub fn is_record_constructor_call_name(name: &str) -> (r: bool)
    ensures
        r == is_record_constructor_name(name@),
{
    let cs = chars_of(name);
    let mut i: usize = 0;
    while i < cs.len()
        invariant
            i <= cs@.len(),
            cs@ == name@,
            forall|j: int| 0 <= j < i ==> cs@[j] != '.',
        decreases cs@.len() - i,
    {
        if cs[i] == '.' {
            assert(cs@[i as int] == '.');
            return false;
        }
        i += 1;
    }
    assert(!crate::text::has_char(name@, '.'));
    cs.len() > 0 && 'A' <= cs[0] && cs[0] <= 'Z'
}

/// The functions of one argument whose derivative the symbolic Jacobian knows.
pub open spec fn is_symbolic_function(name: Seq<char>) -> bool {
    name == "sin"@ || name == "cos"@ || name == "exp"@ || name == "log"@ || name == "ln"@ || name == "sqrt"@
        || name == "tan"@ || name == "asin"@ || name == "acos"@ || name == "atan"@ || name == "abs"@
}

/// Whether `e` is built only from numbers, variables, arithmetic, `if`, the
/// functions of [`is_symbolic_function`] and `atan2`.
pub open spec fn is_symbolic_safe(e: SExpr) -> bool
    decreases e,
{
    match e {
        SExpr::Number(_) | SExpr::Variable(_) => true,
        SExpr::BinaryOp(l, _, r) => is_symbolic_safe(*l) && is_symbolic_safe(*r),
        SExpr::Call(name, args) => (args.len() == 1 && is_symbolic_function(name) && is_symbolic_safe(args[0]))
            || (args.len() == 2 && name == "atan2"@ && is_symbolic_safe(args[0]) && is_symbolic_safe(args[1])),
        SExpr::If(c, t, f) => is_symbolic_safe(*c) && is_symbolic_safe(*t) && is_symbolic_safe(*f),
        _ => false,
    }
}

/// Whether a residual can be differentiated symbolically (see [`is_symbolic_safe`]).
pub fn symbolic_safe_expr(e: &Expression) -> (r: bool)
    ensures
        r == is_symbolic_safe(e@),
    decreases e,
{
    match e {
        Expression::Number(t) => {
            assert(e@ == SExpr::Number(t@));
            assert(is_symbolic_safe(SExpr::Number(t@)));
            true
        },
        Expression::Variable(x) => {
            assert(e@ == SExpr::Variable(x@));
            assert(is_symbolic_safe(SExpr::Variable(x@)));
            true
        },
        Expression::BinaryOp(l, _, rhs) => symbolic_safe_expr(l) && symbolic_safe_expr(rhs),
        Expression::Call(name, args) => {
            assert(e@ == SExpr::Call(name@, exprs_view(args@)));
            assert(exprs_view(args@).len() == args@.len());
            if args.len() == 1 {
                let n = name.as_str();
                let known = str_eq(n, "sin") || str_eq(n, "cos") || str_eq(n, "exp") || str_eq(n, "log")
                    || str_eq(n, "ln") || str_eq(n, "sqrt") || str_eq(n, "tan") || str_eq(n, "asin")
                    || str_eq(n, "acos") || str_eq(n, "atan") || str_eq(n, "abs");
                proof {
                    assert(decreases_to!(args => args@[0]));
                }
                assert(exprs_view(args@)[0] == args@[0]@);
                known && symbolic_safe_expr(&args[0])
            } else if args.len() == 2 && str_eq(name.as_str(), "atan2") {
                proof {
                    assert(decreases_to!(args => args@[0]));
                    assert(decreases_to!(args => args@[1]));
                }
                assert(exprs_view(args@)[0] == args@[0]@);
                assert(exprs_view(args@)[1] == args@[1]@);
                symbolic_safe_expr(&args[0]) && symbolic_safe_expr(&args[1])
            } else {
                false
            }
        },
        Expression::If(c, t, f) => symbolic_safe_expr(c) && symbolic_safe_expr(t) && symbolic_safe_expr(f),
        _ => false,
    }
}

/// The variables whose derivative `der(x)` occurs in `e` (not looking inside
/// a `der` of anything but a variable).
pub open spec fn states_of_expr(e: SExpr) -> Set<Seq<char>>
    decreases e,
{
    match e {
        SExpr::Der(a) => if *a is Variable { set![(*a)->Variable_0] } else { Set::empty() },
        SExpr::BinaryOp(l, _, r) => states_of_expr(*l).union(states_of_expr(*r)),
        SExpr::Call(_, args) => states_of_exprs(args),
        SExpr::ArrayAccess(a, b) => states_of_expr(*a).union(states_of_expr(*b)),
        SExpr::Dot(b, _) => states_of_expr(*b),
        SExpr::If(c, t, f) => states_of_expr(*c).union(states_of_expr(*t)).union(states_of_expr(*f)),
        SExpr::ArrayLiteral(es) => states_of_exprs(es),
        _ => Set::empty(),
    }
}

/// The states of a sequence of expressions.
pub open spec fn states_of_exprs(s: Seq<SExpr>) -> Set<Seq<char>>
    decreases s,
{
    if s.len() == 0 {
        Set::empty()
    } else {
        states_of_exprs(s.drop_last()).union(states_of_expr(s.last()))
    }
}

/// The states of an equation: those of its expressions and nested equations
/// (a solvable block has none).
pub open spec fn states_of_eq(e: SEquation) -> Set<Seq<char>>
    decreases e,
{
    match e {
        SEquation::Simple(l, r) => states_of_expr(l).union(states_of_expr(r)),
        SEquation::When(c, body, elses) => states_of_expr(c).union(states_of_eqs(body)).union(states_of_branches(elses)),
        SEquation::For(_, s, en, body) => states_of_expr(s).union(states_of_expr(en)).union(states_of_eqs(body)),
        SEquation::Reinit(_, x) => states_of_expr(x),
        SEquation::Connect(a, b) => states_of_expr(a).union(states_of_expr(b)),
        SEquation::SolvableBlock { .. } => Set::empty(),
        SEquation::Assert(c, m) => states_of_expr(c).union(states_of_expr(m)),
        SEquation::Terminate(m) => states_of_expr(m),
        SEquation::MultiAssign(l, r) => states_of_exprs(l).union(states_of_expr(r)),
        SEquation::CallStmt(x) => states_of_expr(x),
        SEquation::If(c, then_eqs, elifs, els) => states_of_expr(c).union(states_of_eqs(then_eqs)).union(
            states_of_branches(elifs),
        ).union(
            match els {
                Some(v) => states_of_eqs(v),
                None => Set::empty(),
            },
        ),
    }
}

/// The states of a sequence of equations.
pub open spec fn states_of_eqs(s: Seq<SEquation>) -> Set<Seq<char>>
    decreases s,
{
    if s.len() == 0 {
        Set::empty()
    } else {
        states_of_eqs(s.drop_last()).union(states_of_eq(s.last()))
    }
}

/// The states of guarded branches: their conditions and equations.
pub open spec fn states_of_branches(s: Seq<(SExpr, Seq<SEquation>)>) -> Set<Seq<char>>
    decreases s,
{
    if s.len() == 0 {
        Set::empty()
    } else {
        states_of_branches(s.drop_last()).union(states_of_expr(s.last().0)).union(states_of_eqs(s.last().1))
    }
}

/// The subexpressions that the search for states looks into, in order: the
/// operands of an operator, the arguments of a call, an array and its index,
/// the base of a field access, the three parts of an `if`, the elements of an
/// array literal.
pub open spec fn searched_children(e: SExpr) -> Seq<SExpr> {
    match e {
        SExpr::BinaryOp(l, _, r) => seq![*l, *r],
        SExpr::Call(_, args) => args,
        SExpr::ArrayAccess(a, b) => seq![*a, *b],
        SExpr::Dot(b, _) => seq![*b],
        SExpr::If(c, t, f) => seq![*c, *t, *f],
        SExpr::ArrayLiteral(es) => es,
        _ => Seq::empty(),
    }
}

/// The subexpression of `e` reached by choosing, at each step, the child at
/// the next position of `path` among [`searched_children`].
pub open spec fn subexpr_at(e: SExpr, path: Seq<int>) -> Option<SExpr>
    decreases path.len(),
{
    if path.len() == 0 {
        Some(e)
    } else {
        let cs = searched_children(e);
        let i = path[0];
        if 0 <= i < cs.len() {
            subexpr_at(cs[i], path.drop_first())
        } else {
            None
        }
    }
}

proof fn lemma_states_of_exprs_has(s: Seq<SExpr>, i: int)
    requires
        0 <= i < s.len(),
    ensures
        states_of_expr(s[i]).subset_of(states_of_exprs(s)),
    decreases s.len(),
{
    if i < s.len() - 1 {
        lemma_states_of_exprs_has(s.drop_last(), i);
        assert(s.drop_last()[i] == s[i]);
    }
}

/// The states of a searched child are states of the whole expression.
proof fn lemma_child_states(e: SExpr, i: int)
    requires
        0 <= i < searched_children(e).len(),
    ensures
        states_of_expr(searched_children(e)[i]).subset_of(states_of_expr(e)),
{
    match e {
        SExpr::Call(_, args) => lemma_states_of_exprs_has(args, i),
        SExpr::ArrayLiteral(es) => lemma_states_of_exprs_has(es, i),
        _ => {},
    }
}

/// Every variable whose derivative `der(x)` occurs anywhere in `e`, in either
/// operand of an operator, in an argument, an index, a branch or an element,
/// is a state of `e`.
pub proof fn law_der_anywhere_is_a_state(e: SExpr, path: Seq<int>, x: Seq<char>)
    requires
        subexpr_at(e, path) == Some(SExpr::Der(Box::new(SExpr::Variable(x)))),
    ensures
        states_of_expr(e).contains(x),
    decreases path.len(),
{
    if path.len() > 0 {
        let i = path[0];
        let c = searched_children(e)[i];
        law_der_anywhere_is_a_state(c, path.drop_first(), x);
        lemma_child_states(e, i);
    }
}

/// Every variable whose derivative occurs in either side of an equation
/// `lhs = rhs` is collected as a state of the equation (so `m * der(v) = f`
/// gives the state `v`).
pub proof fn law_der_in_equation_is_a_state(l: SExpr, r: SExpr, path: Seq<int>, x: Seq<char>)
    requires
        subexpr_at(l, path) == Some(SExpr::Der(Box::new(SExpr::Variable(x))))
            || subexpr_at(r, path) == Some(SExpr::Der(Box::new(SExpr::Variable(x)))),
    ensures
        states_of_eq(SEquation::Simple(l, r)).contains(x),
{
    if subexpr_at(l, path) == Some(SExpr::Der(Box::new(SExpr::Variable(x)))) {
        law_der_anywhere_is_a_state(l, path, x);
    } else {
        law_der_anywhere_is_a_state(r, path, x);
    }
}

/// The names held by a list, as a set.
pub open spec fn name_set(v: Seq<String>) -> Set<Seq<char>> {
    strings_view(v).to_set()
}

fn add_name(states: &mut Vec<String>, name: &String)
    ensures
        name_set(final(states)@) == name_set(old(states)@).insert(name@),
{
    let mut i: usize = 0;
    while i < states.len()
        invariant
            i <= states@.len(),
            forall|j: int| 0 <= j < i ==> (#[trigger] states@[j])@ != name@,
        decreases states@.len() - i,
    {
        if str_eq(states[i].as_str(), name.as_str()) {
            proof {
                assert(strings_view(states@)[i as int] == name@);
                assert(name_set(states@) =~= name_set(states@).insert(name@));
            }
            return;
        }
        i += 1;
    }
    let ghost before = states@;
    states.push(name.clone());
    proof {
        assert(strings_view(states@) =~= strings_view(before).push(name@));
        strings_view(before).lemma_push_to_set_commute(name@);
        assert(name_set(states@) =~= name_set(before).insert(name@));
    }
}

/// Adds to `states` the names whose derivative occurs in `e`.
pub fn collect_states_from_expr(e: &Expression, states: &mut Vec<String>)
    ensures
        name_set(final(states)@) == name_set(old(states)@).union(states_of_expr(e@)),
    decreases e,
{
    match e {
        Expression::Der(a) => {
            match &**a {
                Expression::Variable(n) => {
                    add_name(states, n);
                    assert((**a).view() == SExpr::Variable(n@));
                    assert(e@ == SExpr::Der(Box::new(SExpr::Variable(n@))));
                    assert(states_of_expr(e@) == set![n@]);
                    assert(name_set(states@) =~= name_set(old(states)@).union(states_of_expr(e@)));
                },
                _ => {
                    assert(e@ == SExpr::Der(Box::new((**a).view())));
                    assert(!((**a).view() is Variable));
                    assert(states_of_expr(e@) == Set::<Seq<char>>::empty());
                    assert(name_set(states@) =~= name_set(old(states)@).union(states_of_expr(e@)));
                },
            }
        },
        Expression::BinaryOp(l, _, r) => {
            collect_states_from_expr(l, states);
            collect_states_from_expr(r, states);
            assert(name_set(states@) =~= name_set(old(states)@).union(states_of_expr(e@)));
        },
        Expression::Call(_, args) => {
            collect_states_from_exprs(args, states);
        },
        Expression::ArrayAccess(a, b) => {
            collect_states_from_expr(a, states);
            collect_states_from_expr(b, states);
            assert(name_set(states@) =~= name_set(old(states)@).union(states_of_expr(e@)));
        },
        Expression::Dot(b, _) => {
            collect_states_from_expr(b, states);
        },
        Expression::If(c, t, f) => {
            collect_states_from_expr(c, states);
            collect_states_from_expr(t, states);
            collect_states_from_expr(f, states);
            assert(name_set(states@) =~= name_set(old(states)@).union(states_of_expr(e@)));
        },
        Expression::ArrayLiteral(es) => {
            collect_states_from_exprs(es, states);
        },
        _ => {
            assert(name_set(states@) =~= name_set(old(states)@).union(states_of_expr(e@)));
        },
    }
}

fn collect_states_from_exprs(v: &Vec<Expression>, states: &mut Vec<String>)
    ensures
        name_set(final(states)@) == name_set(old(states)@).union(states_of_exprs(exprs_view(v@))),
    decreases v,
{
    let mut i: usize = 0;
    assert(exprs_view(v@).take(0) =~= Seq::<SExpr>::empty());
    assert(name_set(states@) =~= name_set(old(states)@).union(states_of_exprs(Seq::<SExpr>::empty())));
    while i < v.len()
        invariant
            i <= v@.len(),
            name_set(states@) == name_set(old(states)@).union(states_of_exprs(exprs_view(v@).take(i as int))),
        decreases v@.len() - i,
    {
        proof {
            assert(exprs_view(v@).take(i + 1).drop_last() =~= exprs_view(v@).take(i as int));
            assert(decreases_to!(v => v@[i as int]));
        }
        collect_states_from_expr(&v[i], states);
        proof {
            crate::ast::lemma_exprs_view(v@);
            assert(exprs_view(v@).take(i + 1).last() == v@[i as int]@);
        }
        assert(name_set(states@) =~= name_set(old(states)@).union(states_of_exprs(exprs_view(v@).take(i + 1))));
        i += 1;
    }
    assert(exprs_view(v@).take(v@.len() as int) =~= exprs_view(v@));
}

/// Adds to `states` the names whose derivative occurs in the equation.
pub fn collect_states_from_eq(eq: &Equation, states: &mut Vec<String>)
    ensures
        name_set(final(states)@) == name_set(old(states)@).union(states_of_eq(eq@)),
    decreases eq,
{
    let ghost s0 = name_set(states@);
    match eq {
        Equation::Simple(l, r) => {
            collect_states_from_expr(l, states);
            collect_states_from_expr(r, states);
        },
        Equation::When(c, body, elses) => {
            collect_states_from_expr(c, states);
            collect_states_from_eqs(body, states);
            collect_states_from_branches(elses, states);
        },
        Equation::For(_, s, en, body) => {
            collect_states_from_expr(s, states);
            collect_states_from_expr(en, states);
            collect_states_from_eqs(body, states);
        },
        Equation::Reinit(_, x) => {
            collect_states_from_expr(x, states);
        },
        Equation::Connect(a, b) => {
            collect_states_from_expr(a, states);
            collect_states_from_expr(b, states);
        },
        Equation::SolvableBlock { .. } => {},
        Equation::Assert(c, m) => {
            collect_states_from_expr(c, states);
            collect_states_from_expr(m, states);
        },
        Equation::Terminate(m) => {
            collect_states_from_expr(m, states);
        },
        Equation::MultiAssign(l, r) => {
            collect_states_from_exprs(l, states);
            collect_states_from_expr(r, states);
        },
        Equation::CallStmt(x) => {
            collect_states_from_expr(x, states);
        },
        Equation::If(c, then_eqs, elifs, els) => {
            collect_states_from_expr(c, states);
            collect_states_from_eqs(then_eqs, states);
            collect_states_from_branches(elifs, states);
            match els {
                Some(v) => {
                    collect_states_from_eqs(v, states);
                },
                None => {},
            }
        },
    }
    assert(name_set(states@) =~= s0.union(states_of_eq(eq@)));
}

fn collect_states_from_eqs(v: &Vec<Equation>, states: &mut Vec<String>)
    ensures
        name_set(final(states)@) == name_set(old(states)@).union(states_of_eqs(eqs_view(v@))),
    decreases v,
{
    let mut i: usize = 0;
    assert(eqs_view(v@).take(0) =~= Seq::<SEquation>::empty());
    assert(name_set(states@) =~= name_set(old(states)@).union(states_of_eqs(Seq::<SEquation>::empty())));
    while i < v.len()
        invariant
            i <= v@.len(),
            name_set(states@) == name_set(old(states)@).union(states_of_eqs(eqs_view(v@).take(i as int))),
        decreases v@.len() - i,
    {
        proof {
            assert(eqs_view(v@).take(i + 1).drop_last() =~= eqs_view(v@).take(i as int));
            assert(decreases_to!(v => v@[i as int]));
        }
        collect_states_from_eq(&v[i], states);
        proof {
            crate::ast::lemma_eqs_view(v@);
            assert(eqs_view(v@).take(i + 1).last() == v@[i as int]@);
        }
        assert(name_set(states@) =~= name_set(old(states)@).union(states_of_eqs(eqs_view(v@).take(i + 1))));
        i += 1;
    }
    assert(eqs_view(v@).take(v@.len() as int) =~= eqs_view(v@));
}

fn collect_states_from_branches(v: &Vec<(Expression, Vec<Equation>)>, states: &mut Vec<String>)
    ensures
        name_set(final(states)@) == name_set(old(states)@).union(states_of_branches(crate::ast::eq_branches_view(v@))),
    decreases v,
{
    let ghost bv = crate::ast::eq_branches_view(v@);
    let mut i: usize = 0;
    assert(bv.take(0) =~= Seq::<(SExpr, Seq<SEquation>)>::empty());
    assert(name_set(states@) =~= name_set(old(states)@).union(states_of_branches(Seq::<(SExpr, Seq<SEquation>)>::empty())));
    while i < v.len()
        invariant
            i <= v@.len(),
            bv == crate::ast::eq_branches_view(v@),
            name_set(states@) == name_set(old(states)@).union(states_of_branches(bv.take(i as int))),
        decreases v@.len() - i,
    {
        proof {
            assert(bv.take(i + 1).drop_last() =~= bv.take(i as int));
            crate::ast::lemma_eq_branches_view(v@);
            assert(bv[i as int] == (v@[i as int].0@, eqs_view(v@[i as int].1@)));
            assert(decreases_to!(v => v@[i as int]));
        }
        collect_states_from_expr(&v[i].0, states);
        collect_states_from_eqs(&v[i].1, states);
        proof {
            crate::ast::lemma_eq_branches_view(v@);
            assert(bv.take(i + 1).last() == bv[i as int]);
        }
        assert(name_set(states@) =~= name_set(old(states)@).union(states_of_branches(bv.take(i + 1))));
        i += 1;
    }
    assert(bv.take(v@.len() as int) =~= bv);
}

/// `e` with each `der(x)` of a variable `x` written as the variable `der_x`.
pub open spec fn der_normalized(e: SExpr) -> SExpr
    decreases e,
{
    match e {
        SExpr::Der(a) => if *a is Variable { SExpr::Variable("der_"@ + (*a)->Variable_0) } else { SExpr::Der(Box::new(der_normalized(*a))) },
        SExpr::BinaryOp(l, op, r) => SExpr::BinaryOp(Box::new(der_normalized(*l)), op, Box::new(der_normalized(*r))),
        SExpr::Call(name, args) => SExpr::Call(name, der_normalized_all(args)),
        SExpr::ArrayAccess(a, b) => SExpr::ArrayAccess(Box::new(der_normalized(*a)), Box::new(der_normalized(*b))),
        SExpr::Dot(b, m) => SExpr::Dot(Box::new(der_normalized(*b)), m),
        SExpr::If(c, t, f) => SExpr::If(Box::new(der_normalized(*c)), Box::new(der_normalized(*t)), Box::new(der_normalized(*f))),
        SExpr::ArrayLiteral(es) => SExpr::ArrayLiteral(der_normalized_all(es)),
        _ => e,
    }
}

/// [`der_normalized`] of each expression.
pub open spec fn der_normalized_all(s: Seq<SExpr>) -> Seq<SExpr>
    decreases s,
{
    if s.len() == 0 {
        Seq::empty()
    } else {
        der_normalized_all(s.drop_last()).push(der_normalized(s.last()))
    }
}

/// Writes each `der(x)` of a variable `x` as the variable `der_x`.
pub fn normalize_der(e: &Expression) -> (r: Expression)
    ensures
        r@ == der_normalized(e@),
    decreases e,
{
    match e {
        Expression::Der(a) => {
            match &**a {
                Expression::Variable(n) => {
                    let r = Expression::Variable(concat("der_", n.as_str()));
                    assert((**a).view() == SExpr::Variable(n@));
                    assert(e@ == SExpr::Der(Box::new(SExpr::Variable(n@))));
                    r
                },
                _ => Expression::Der(Box::new(normalize_der(a))),
            }
        },
        Expression::BinaryOp(l, op, r) => Expression::BinaryOp(Box::new(normalize_der(l)), *op, Box::new(normalize_der(r))),
        Expression::Call(name, args) => Expression::Call(name.clone(), normalize_der_all(args)),
        Expression::ArrayAccess(a, b) => Expression::ArrayAccess(Box::new(normalize_der(a)), Box::new(normalize_der(b))),
        Expression::Dot(b, m) => Expression::Dot(Box::new(normalize_der(b)), m.clone()),
        Expression::If(c, t, f) => Expression::If(
            Box::new(normalize_der(c)),
            Box::new(normalize_der(t)),
            Box::new(normalize_der(f)),
        ),
        Expression::ArrayLiteral(es) => Expression::ArrayLiteral(normalize_der_all(es)),
        _ => crate::ast::clone_expr(e),
    }
}

fn normalize_der_all(v: &Vec<Expression>) -> (r: Vec<Expression>)
    ensures
        exprs_view(r@) == der_normalized_all(exprs_view(v@)),
    decreases v,
{
    let mut out: Vec<Expression> = Vec::new();
    let mut i: usize = 0;
    assert(exprs_view(v@).take(0) =~= Seq::<SExpr>::empty());
    assert(exprs_view(out@) =~= Seq::<SExpr>::empty());
    while i < v.len()
        invariant
            i <= v@.len(),
            exprs_view(out@) == der_normalized_all(exprs_view(v@).take(i as int)),
        decreases v@.len() - i,
    {
        proof {
            assert(exprs_view(v@).take(i + 1).drop_last() =~= exprs_view(v@).take(i as int));
            assert(decreases_to!(v => v@[i as int]));
        }
        let x = normalize_der(&v[i]);
        proof {
            lemma_exprs_view_push(out@, x);
            crate::ast::lemma_exprs_view(v@);
            assert(exprs_view(v@).take(i + 1).last() == v@[i as int]@);
        }
        out.push(x);
        i += 1;
    }
    assert(exprs_view(v@).take(v@.len() as int) =~= exprs_view(v@));
    out
}

/// The clock operator that a derived-clock call stands for: `backSample`,
/// `subSample` or `superSample` when the name is that operator or ends with
/// it after a dot, else `shiftSample`.
pub open spec fn clock_op(name: Seq<char>) -> Seq<char> {
    if ends_with(name, ".backSample"@) || name == "backSample"@ {
        "backSample"@
    } else if ends_with(name, ".subSample"@) || name == "subSample"@ {
        "subSample"@
    } else if ends_with(name, ".superSample"@) || name == "superSample"@ {
        "superSample"@
    } else {
        "shiftSample"@
    }
}

/// The clock operator of a derived-clock call (see [`clock_op`]).
pub fn clock_derived_op(func_name: &str) -> (r: &'static str)
    ensures
        r@ == clock_op(func_name@),
{
    let cs = chars_of(func_name);
    if vec_ends_with(&cs, ".backSample") || str_eq(func_name, "backSample") {
        "backSample"
    } else if vec_ends_with(&cs, ".subSample") || str_eq(func_name, "subSample") {
        "subSample"
    } else if vec_ends_with(&cs, ".superSample") || str_eq(func_name, "superSample") {
        "superSample"
    } else {
        "shiftSample"
    }
}

} // verus!
