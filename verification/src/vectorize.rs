//! Equation clustering for SIMD code emission.
//!
//! Scans the flattened equation list for consecutive subscript-indexed
//! equations of identical structure (same base names, same operator, indices
//! that step by one). Runs of two or more such equations become one
//! [`VectorGroup`]; every other equation stays a scalar unit.

use vstd::prelude::*;
use crate::ast::{
    Equation, Expression, Operator, SEquation, SExpr, clone_equation, clone_expr, eqs_view,
    lemma_eqs_view_push,
    group_ast_views,
};
use crate::text::{
    all_digits, chars_of, concat, find_first, find_last, has_char, is_digit, lemma_first_index_of, split_once, i64_to_string, int_decimal, lemma_int_decimal_roundtrip,
    lemma_last_index_is, lemma_last_index_of, parse_i64, parse_i64_range, parse_usize,
    parse_usize_range, rsplit_once, str_eq, string_of_range, strings_eq, strings_view,
};

verus! {

broadcast use group_ast_views;

/// The largest iteration count of a for-loop that is written out before
/// clustering, where nothing else is asked for.
pub const DEFAULT_FOR_EXPAND_MAX: usize = 256;

/// Operations that a vector group can compute.
#[derive(Debug, Clone, Copy, PartialEq, Eq, Structural)]
pub enum VectorOp {
    Add,
    Sub,
    Mul,
    Div,
    /// Fused multiply-add: `a * b + c`
    Fma,
}

/// A run of consecutive equations `dst_base_k = op(src_bases_k ...)` for `k` in `lo..=hi`.
pub struct VectorGroup {
    pub dst_base: String,
    pub src_bases: Vec<String>,
    pub lo: usize,
    pub hi: usize,
    pub op: VectorOp,
}

/// A unit of compilation: one scalar equation or one vector group.
pub enum CompileUnit {
    Scalar(Equation),
    Vector(VectorGroup),
}

/// Mathematical value of a [`CompileUnit`].
pub enum SUnit {
    Scalar(SEquation),
    Vector { dst_base: Seq<char>, src_bases: Seq<Seq<char>>, lo: nat, hi: nat, op: VectorOp },
}

impl CompileUnit {
    pub open spec fn view(&self) -> SUnit {
        match self {
            CompileUnit::Scalar(e) => SUnit::Scalar(e@),
            CompileUnit::Vector(g) => SUnit::Vector {
                dst_base: g.dst_base@,
                src_bases: strings_view(g.src_bases@),
                lo: g.lo as nat,
                hi: g.hi as nat,
                op: g.op,
            },
        }
    }
}

pub open spec fn units_view(s: Seq<CompileUnit>) -> Seq<SUnit> {
    s.map_values(|u: CompileUnit| u@)
}

/// `x_3` read as `("x", 3)`: the name split at its last '_', the suffix read
/// as an unsigned integer.
pub open spec fn spec_array_index(e: SExpr) -> Option<(Seq<char>, nat)> {
    match e {
        SExpr::Variable(name) => match rsplit_once(name, '_') {
            Some((base, suffix)) => match parse_usize(suffix) {
                Some(i) => Some((base, i)),
                None => None,
            },
            None => None,
        },
        _ => None,
    }
}

/// The vector operation of an elementwise binary operator, if it has one.
pub open spec fn vector_op_of(op: Operator) -> Option<VectorOp> {
    match op {
        Operator::Add => Some(VectorOp::Add),
        Operator::Sub => Some(VectorOp::Sub),
        Operator::Mul => Some(VectorOp::Mul),
        Operator::Div => Some(VectorOp::Div),
        _ => None,
    }
}

/// `a_k op b_k` read as `(op, [a, b])`.
pub open spec fn spec_binary_op(e: SExpr) -> Option<(VectorOp, Seq<Seq<char>>)> {
    match e {
        SExpr::BinaryOp(l, op, r) => {
            match (spec_array_index(*l), spec_array_index(*r), vector_op_of(op)) {
                (Some((lb, _)), Some((rb, _)), Some(vop)) => Some((vop, seq![lb, rb])),
                _ => None,
            }
        },
        _ => None,
    }
}

/// `(a_k * b_k) + c_k` or `c_k + (a_k * b_k)` read as `(Fma, [a, b, c])`. When the
/// left operand is a product, only that form is tried.
pub open spec fn spec_fma(e: SExpr) -> Option<(VectorOp, Seq<Seq<char>>)> {
    match e {
        SExpr::BinaryOp(l, Operator::Add, r) => {
            match *l {
                SExpr::BinaryOp(a, Operator::Mul, b) => fma_of(*a, *b, *r),
                _ => match *r {
                    SExpr::BinaryOp(a, Operator::Mul, b) => fma_of(*a, *b, *l),
                    _ => None,
                },
            }
        },
        _ => None,
    }
}

pub open spec fn fma_of(a: SExpr, b: SExpr, c: SExpr) -> Option<(VectorOp, Seq<Seq<char>>)> {
    match (spec_array_index(a), spec_array_index(b), spec_array_index(c)) {
        (Some((ab, _)), Some((bb, _)), Some((cb, _))) => Some((VectorOp::Fma, seq![ab, bb, cb])),
        _ => None,
    }
}

#[verifier::opaque]
/// An equation `dst_k = ...` whose right side is a vectorizable pattern, read as
/// `(dst, k, op, sources)`.
pub open spec fn spec_pattern(eq: SEquation) -> Option<(Seq<char>, nat, VectorOp, Seq<Seq<char>>)> {
    match eq {
        SEquation::Simple(lhs, rhs) => match spec_array_index(lhs) {
            Some((base, idx)) => {
                let p = if spec_binary_op(rhs) is Some {
                    spec_binary_op(rhs)
                } else {
                    spec_fma(rhs)
                };
                match p {
                    Some((op, srcs)) => Some((base, idx, op, srcs)),
                    None => None,
                }
            },
            None => None,
        },
        _ => None,
    }
}

/// Equation `j` continues the run that starts at equation `i`.
pub open spec fn extends_run(eqs: Seq<SEquation>, i: int, j: int) -> bool {
    match (spec_pattern(eqs[i]), spec_pattern(eqs[j])) {
        (Some((b1, k1, op1, s1)), Some((b2, k2, op2, s2))) =>
            b2 == b1 && op2 == op1 && s2 == s1 && k2 == k1 + (j - i),
        _ => false,
    }
}

/// The end (exclusive) of the run that starts at `i`, searching from `j`.
pub open spec fn run_end(eqs: Seq<SEquation>, i: int, j: int) -> int
    decreases eqs.len() - j,
{
    if j >= eqs.len() || !extends_run(eqs, i, j) {
        j
    } else {
        run_end(eqs, i, j + 1)
    }
}

#[verifier::opaque]
/// Greedy left-to-right grouping of `eqs[i..]`: a run of two or more equations
/// that extend each other becomes one vector unit, anything else a scalar unit.
pub open spec fn cluster_from(eqs: Seq<SEquation>, i: int) -> Seq<SUnit>
    decreases eqs.len() - i, 1int,
{
    if i >= eqs.len() || i < 0 {
        Seq::empty()
    } else {
        let e = run_end(eqs, i, i + 1);
        match spec_pattern(eqs[i]) {
            Some((base, idx, op, srcs)) if e - i >= 2 && e <= eqs.len() =>
                seq![SUnit::Vector { dst_base: base, src_bases: srcs, lo: idx, hi: (idx + (e - i) - 1) as nat, op: op }]
                    + cluster_from(eqs, e),
            _ => seq![SUnit::Scalar(eqs[i])] + cluster_from(eqs, i + 1),
        }
    }
}

pub proof fn lemma_run_end(eqs: Seq<SEquation>, i: int, j: int)
    requires
        0 <= i < j <= eqs.len(),
    ensures
        j <= run_end(eqs, i, j) <= eqs.len(),
        forall|k: int| j <= k < run_end(eqs, i, j) ==> #[trigger] extends_run(eqs, i, k),
        run_end(eqs, i, j) < eqs.len() ==> !extends_run(eqs, i, run_end(eqs, i, j)),
    decreases eqs.len() - j,
{
    if j < eqs.len() && extends_run(eqs, i, j) {
        lemma_run_end(eqs, i, j + 1);
    }
}

/// Split a variable name like `x_3` into `("x", 3)`.
pub fn extract_array_index(expr: &Expression) -> (r: Option<(String, usize)>)
    ensures
        match r {
            Some((b, i)) => spec_array_index(expr@) == Some((b@, i as nat)),
            None => spec_array_index(expr@) is None,
        },
{
    match expr {
        Expression::Variable(name) => {
            let v = chars_of(name.as_str());
            let k = match find_last(&v, '_') {
                Some(k) => k,
                None => return None,
            };
            proof {
                lemma_last_index_of(v@, '_');
            }
            match parse_usize_range(&v, k + 1, v.len()) {
                Some(i) => {
                    let base = string_of_range(&v, 0, k);
                    proof {
                        assert(v@.subrange(0, k as int) =~= v@.take(k as int));
                        assert(v@.subrange(k + 1, v@.len() as int) =~= v@.skip(k + 1));
                    }
                    Some((base, i))
                },
                None => {
                    proof {
                        assert(v@.subrange(k + 1, v@.len() as int) =~= v@.skip(k + 1));
                    }
                    None
                },
            }
        },
        _ => None,
    }
}


/// The view of an optional operation with its source names.
pub open spec fn op_srcs_view(r: Option<(VectorOp, Vec<String>)>) -> Option<(VectorOp, Seq<Seq<char>>)> {
    match r {
        Some((op, srcs)) => Some((op, strings_view(srcs@))),
        None => None,
    }
}

/// The view of an optional pattern.
pub open spec fn pattern_view(r: Option<(String, usize, VectorOp, Vec<String>)>) -> Option<(Seq<char>, nat, VectorOp, Seq<Seq<char>>)> {
    match r {
        Some((b, i, op, srcs)) => Some((b@, i as nat, op, strings_view(srcs@))),
        None => None,
    }
}

fn vector_op(op: Operator) -> (r: Option<VectorOp>)
    ensures
        r == vector_op_of(op),
{
    match op {
        Operator::Add => Some(VectorOp::Add),
        Operator::Sub => Some(VectorOp::Sub),
        Operator::Mul => Some(VectorOp::Mul),
        Operator::Div => Some(VectorOp::Div),
        _ => None,
    }
}

/// Classify `a_k op b_k` as a vectorizable binary operation.
pub fn try_extract_binary_op(expr: &Expression) -> (r: Option<(VectorOp, Vec<String>)>)
    ensures
        op_srcs_view(r) == spec_binary_op(expr@),
{
    match expr {
        Expression::BinaryOp(lhs, op, rhs) => {
            let l = match extract_array_index(lhs) {
                Some((b, _)) => b,
                None => return None,
            };
            let r = match extract_array_index(rhs) {
                Some((b, _)) => b,
                None => return None,
            };
            let vop = match vector_op(*op) {
                Some(v) => v,
                None => return None,
            };
            let mut srcs: Vec<String> = Vec::new();
            srcs.push(l);
            srcs.push(r);
            assert(strings_view(srcs@) =~= seq![(spec_array_index(lhs@)->0).0, (spec_array_index(rhs@)->0).0]);
            Some((vop, srcs))
        },
        _ => None,
    }
}

fn fma_sources(a: &Expression, b: &Expression, c: &Expression) -> (r: Option<(VectorOp, Vec<String>)>)
    ensures
        op_srcs_view(r) == fma_of(a@, b@, c@),
{
    let ab = match extract_array_index(a) {
        Some((x, _)) => x,
        None => return None,
    };
    let bb = match extract_array_index(b) {
        Some((x, _)) => x,
        None => return None,
    };
    let cb = match extract_array_index(c) {
        Some((x, _)) => x,
        None => return None,
    };
    let mut srcs: Vec<String> = Vec::new();
    srcs.push(ab);
    srcs.push(bb);
    srcs.push(cb);
    assert(strings_view(srcs@) =~= seq![(spec_array_index(a@)->0).0, (spec_array_index(b@)->0).0, (spec_array_index(c@)->0).0]);
    Some((VectorOp::Fma, srcs))
}

/// Classify `(a_k * b_k) + c_k` or `c_k + (a_k * b_k)` as a fused multiply-add.
pub fn try_extract_fma(expr: &Expression) -> (r: Option<(VectorOp, Vec<String>)>)
    ensures
        op_srcs_view(r) == spec_fma(expr@),
{
    proof {
        reveal_with_fuel(Expression::view, 2);
    }
    match expr {
        Expression::BinaryOp(lhs, Operator::Add, rhs) => {
            if let Expression::BinaryOp(a, Operator::Mul, b) = &**lhs {
                return fma_sources(a, b, rhs);
            }
            if let Expression::BinaryOp(a, Operator::Mul, b) = &**rhs {
                return fma_sources(a, b, lhs);
            }
            None
        },
        _ => None,
    }
}

/// Classify a simple equation `dst_k = ...` as a vectorizable pattern.
pub fn try_extract_pattern(eq: &Equation) -> (r: Option<(String, usize, VectorOp, Vec<String>)>)
    ensures
        pattern_view(r) == spec_pattern(eq@),
{
    reveal(spec_pattern);
    match eq {
        Equation::Simple(lhs, rhs) => {
            let (base, idx) = match extract_array_index(lhs) {
                Some(p) => p,
                None => return None,
            };
            let p = match try_extract_binary_op(rhs) {
                Some(p) => Some(p),
                None => try_extract_fma(rhs),
            };
            match p {
                Some((op, srcs)) => Some((base, idx, op, srcs)),
                None => None,
            }
        },
        _ => None,
    }
}


/// The name `loop_var_i` under which the expansion of a for-loop writes iteration `i`.
pub open spec fn index_suffix(loop_var: Seq<char>, i: int) -> Seq<char> {
    loop_var + seq!['_'] + int_decimal(i)
}

/// The iteration index written after the last '_' of `suffix`, or 0 when there is none.
pub open spec fn suffix_index(suffix: Seq<char>) -> int {
    match rsplit_once(suffix, '_') {
        Some((_, n)) => match parse_i64(n) {
            Some(v) => v,
            None => match truncated_decimal(n) {
                Some(v) => v,
                None => 0,
            },
        },
        None => 0,
    }
}

/// A decimal number `int.frac` whose fraction is all digits, truncated toward
/// zero: its integer part.
pub open spec fn truncated_decimal(n: Seq<char>) -> Option<int> {
    match split_once(n, '.') {
        Some((ip, fp)) => if all_digits(fp) {
            parse_i64(ip)
        } else {
            None
        },
        None => None,
    }
}

/// `arr[loop_var]` replaced by the variable `arr_idx`, through binary operators.
pub open spec fn subst_expr(e: SExpr, loop_var: Seq<char>, idx: int) -> SExpr
    decreases e,
{
    match e {
        SExpr::ArrayAccess(arr, ix) => match (*arr, *ix) {
            (SExpr::Variable(base), SExpr::Variable(iv)) => if iv == loop_var {
                SExpr::Variable(base + seq!['_'] + int_decimal(idx))
            } else {
                e
            },
            _ => e,
        },
        SExpr::BinaryOp(l, op, r) => SExpr::BinaryOp(
            Box::new(subst_expr(*l, loop_var, idx)),
            op,
            Box::new(subst_expr(*r, loop_var, idx)),
        ),
        _ => e,
    }
}

/// Substitution of the loop index in a simple equation; other equations are kept.
pub open spec fn subst_eq(eq: SEquation, loop_var: Seq<char>, idx: int) -> SEquation {
    match eq {
        SEquation::Simple(l, r) => SEquation::Simple(subst_expr(l, loop_var, idx), subst_expr(r, loop_var, idx)),
        _ => eq,
    }
}

/// The body of a for-loop written out for the `k` iterations `st, st + 1, ..`.
pub open spec fn expand_body(body: Seq<SEquation>, loop_var: Seq<char>, st: int, k: nat) -> Seq<SEquation>
    decreases k,
{
    if k == 0 {
        Seq::empty()
    } else {
        expand_body(body, loop_var, st, (k - 1) as nat) + body.map_values(
            |b: SEquation| subst_eq(b, loop_var, st + k - 1),
        )
    }
}

/// One equation after for-loop expansion: a for-loop with known constant bounds
/// `st..=en` and between 1 and `max` iterations is written out, anything else kept.
pub open spec fn expand_one(eq: SEquation, bound: Option<(i64, i64)>, max: nat) -> Seq<SEquation> {
    match (eq, bound) {
        (SEquation::For(v, _, _, body), Some((st, en))) => {
            let count = en - st + 1;
            if count <= 0 || count > max {
                seq![eq]
            } else {
                expand_body(body, v, st as int, count as nat)
            }
        },
        _ => seq![eq],
    }
}

/// The bound known for equation `k`, if any.
pub open spec fn bound_at(bounds: Seq<Option<(i64, i64)>>, k: int) -> Option<(i64, i64)> {
    if 0 <= k < bounds.len() {
        bounds[k]
    } else {
        None
    }
}

/// The equations after for-loop expansion, in order.
pub open spec fn expand_eqs(eqs: Seq<SEquation>, bounds: Seq<Option<(i64, i64)>>, max: nat) -> Seq<SEquation>
    decreases eqs.len(),
{
    if eqs.len() == 0 {
        Seq::empty()
    } else {
        expand_eqs(eqs.drop_last(), bounds, max) + expand_one(eqs.last(), bound_at(bounds, eqs.len() - 1), max)
    }
}

pub proof fn lemma_suffix_index(loop_var: Seq<char>, i: int)
    requires
        i64::MIN <= i <= i64::MAX,
    ensures
        suffix_index(index_suffix(loop_var, i)) == i,
{
    lemma_int_decimal_roundtrip(i);
    let s = index_suffix(loop_var, i);
    let k = loop_var.len() as int;
    let d = int_decimal(i);
    assert(s[k] == '_');
    assert forall|j: int| k < j < s.len() implies s[j] != '_' by {
        assert(s[j] == d[j - k - 1]);
        if s[j] == '_' {
            assert(has_char(d, '_'));
        }
    }
    lemma_last_index_is(s, '_', k);
    assert(s.skip(k + 1) =~= d);
}

fn subst_expr_exec(e: &Expression, loop_var: &str, index: i64) -> (r: Expression)
    ensures
        r@ == subst_expr(e@, loop_var@, index as int),
    decreases e,
{
    proof {
        reveal_with_fuel(Expression::view, 2);
    }
    match e {
        Expression::ArrayAccess(arr, idx) => {
            if let Expression::Variable(iv) = &**idx {
                if str_eq(iv.as_str(), loop_var) {
                    if let Expression::Variable(base) = &**arr {
                        let with_sep = concat(base.as_str(), "_");
                        let num = i64_to_string(index);
                        let name = concat(with_sep.as_str(), num.as_str());
                        proof {
                            reveal_strlit("_");
                            assert(name@ =~= base@ + seq!['_'] + int_decimal(index as int));
                            assert(iv@ == loop_var@);
                            assert(idx@ == SExpr::Variable(iv@));
                            assert(arr@ == SExpr::Variable(base@));
                        }
                        return Expression::Variable(name);
                    }
                }
            }
            clone_expr(e)
        },
        Expression::BinaryOp(l, op, r) => Expression::BinaryOp(
            Box::new(subst_expr_exec(l, loop_var, index)),
            *op,
            Box::new(subst_expr_exec(r, loop_var, index)),
        ),
        _ => clone_expr(e),
    }
}

fn truncated_decimal_exec(n: &Vec<char>) -> (r: Option<i64>)
    ensures
        match r {
            Some(x) => truncated_decimal(n@) == Some(x as int),
            None => truncated_decimal(n@) is None,
        },
{
    proof {
        lemma_first_index_of(n@, '.');
    }
    match find_first(n, '.') {
        Some(d) => {
            let len = n.len();
            assert(d < len);
            assert(split_once(n@, '.') == Some((n@.take(d as int), n@.skip(d + 1))));
            let mut j = d + 1;
            while j < len
                invariant
                    len == n@.len(),
                    split_once(n@, '.') == Some((n@.take(d as int), n@.skip(d + 1))),
                    d < j <= n@.len(),
                    forall|t: int| d + 1 <= t < j ==> is_digit(#[trigger] n@[t]),
                decreases n@.len() - j,
            {
                if !('0' <= n[j] && n[j] <= '9') {
                    proof {
                        assert(n@.skip(d + 1)[j - d - 1] == n@[j as int]);
                        assert(!all_digits(n@.skip(d + 1)));
                        assert(truncated_decimal(n@) is None);
                    }
                    return None;
                }
                j += 1;
            }
            proof {
                let fp = n@.skip(d + 1);
                assert forall|t: int| 0 <= t < fp.len() implies is_digit(#[trigger] fp[t]) by {
                    assert(fp[t] == n@[d + 1 + t]);
                }
                assert(n@.subrange(0, d as int) =~= n@.take(d as int));
            }
            parse_i64_range(n, 0, d)
        },
        None => None,
    }
}

fn suffix_index_exec(suffix: &str) -> (r: i64)
    ensures
        r as int == suffix_index(suffix@),
{
    let v = chars_of(suffix);
    match find_last(&v, '_') {
        Some(k) => {
            proof {
                lemma_last_index_of(v@, '_');
                assert(v@.subrange(k + 1, v@.len() as int) =~= v@.skip(k + 1));
            }
            match parse_i64_range(&v, k + 1, v.len()) {
                Some(n) => n,
                None => {
                    let tail = chars_of(string_of_range(&v, k + 1, v.len()).as_str());
                    match truncated_decimal_exec(&tail) {
                        Some(n) => n,
                        None => 0,
                    }
                },
            }
        },
        None => 0,
    }
}

/// Substitute the loop variable by the index written after the last '_' of
/// `suffix` (e.g. `"i_3"`): `x[i]` becomes `x_3` in a simple equation.
pub fn substitute_loop_index(eq: &Equation, loop_var: &str, suffix: &str) -> (r: Equation)
    ensures
        r@ == subst_eq(eq@, loop_var@, suffix_index(suffix@)),
{
    let index = suffix_index_exec(suffix);
    match eq {
        Equation::Simple(lhs, rhs) => Equation::Simple(
            subst_expr_exec(lhs, loop_var, index),
            subst_expr_exec(rhs, loop_var, index),
        ),
        _ => clone_equation(eq),
    }
}

/// Write out for-loops whose bounds are known constants and whose iteration
/// count lies in `1..=max_expand`, so that the clustering sees their elements.
/// `loop_bounds[k]` holds the evaluated bounds of `equations[k]` when it is such
/// a loop.
pub fn expand_small_for_loops(
    equations: &[Equation],
    loop_bounds: &[Option<(i64, i64)>],
    max_expand: usize,
) -> (out: Vec<Equation>)
    ensures
        eqs_view(out@) == expand_eqs(eqs_view(equations@), loop_bounds@, max_expand as nat),
{
    let ghost all = eqs_view(equations@);
    let mut out: Vec<Equation> = Vec::new();
    let mut k: usize = 0;
    while k < equations.len()
        invariant
            k <= equations@.len(),
            all == eqs_view(equations@),
            eqs_view(out@) == expand_eqs(all.take(k as int), loop_bounds@, max_expand as nat),
        decreases equations@.len() - k,
    {
        let ghost before = eqs_view(out@);
        let eq = &equations[k];
        let bound = if k < loop_bounds.len() {
            loop_bounds[k]
        } else {
            None
        };
        proof {
            assert(all.take(k + 1).drop_last() =~= all.take(k as int));
            crate::ast::lemma_eqs_view(equations@);
            assert(all[k as int] == eq@);
            assert(all.take(k + 1).last() == eq@);
            assert(bound == bound_at(loop_bounds@, k as int));
        }
        let ghost expected = expand_one(eq@, bound, max_expand as nat);
        let mut expanded = false;
        if let Equation::For(loop_var, _, _, body) = eq {
            if let Some((st, en)) = bound {
                let count: i128 = en as i128 - st as i128 + 1;
                if count > 0 && count <= max_expand as i128 {
                    let count = count as u64;
                    let mut t: u64 = 0;
                    while t < count
                        invariant
                            t <= count,
                            count as int == en - st + 1,
                            count <= max_expand,
                            eqs_view(out@) == before + expand_body(eqs_view(body@), loop_var@, st as int, t as nat),
                        decreases count - t,
                    {
                        let i: i64 = (st as i128 + t as i128) as i64;
                        let with_sep = concat(loop_var.as_str(), "_");
                        let num = i64_to_string(i);
                        let idx_name = concat(with_sep.as_str(), num.as_str());
                        proof {
                            reveal_strlit("_");
                            assert(idx_name@ == index_suffix(loop_var@, i as int));
                            lemma_suffix_index(loop_var@, i as int);
                        }
                        let ghost mid = eqs_view(out@);
                        let ghost bv = eqs_view(body@);
                        let mut m: usize = 0;
                        while m < body.len()
                            invariant
                                m <= body@.len(),
                                bv == eqs_view(body@),
                                suffix_index(idx_name@) == i as int,
                                eqs_view(out@) == mid + bv.take(m as int).map_values(
                                    |b: SEquation| subst_eq(b, loop_var@, i as int),
                                ),
                            decreases body@.len() - m,
                        {
                            let ghost pre_out = out@;
                            let s = substitute_loop_index(&body[m], loop_var.as_str(), idx_name.as_str());
                            out.push(s);
                            proof {
                                lemma_eqs_view_push(pre_out, s);
                                crate::ast::lemma_eqs_view(body@);
                                assert(bv[m as int] == body@[m as int]@);
                                assert(bv.take(m + 1).map_values(|b: SEquation| subst_eq(b, loop_var@, i as int))
                                    =~= bv.take(m as int).map_values(|b: SEquation| subst_eq(b, loop_var@, i as int)).push(
                                        subst_eq(bv[m as int], loop_var@, i as int)));
                                assert(eqs_view(out@) =~= mid + bv.take(m + 1).map_values(
                                    |b: SEquation| subst_eq(b, loop_var@, i as int)));
                            }
                            m += 1;
                        }
                        proof {
                            assert(bv.take(body@.len() as int) =~= bv);
                            assert(i as int == st + t);
                            assert(eqs_view(out@) =~= before + expand_body(bv, loop_var@, st as int, (t + 1) as nat));
                        }
                        t += 1;
                    }
                    expanded = true;
                    assert(eqs_view(out@) == before + expected);
                }
            }
        }
        if !expanded {
            let ghost pre_out = out@;
            let c = clone_equation(eq);
            out.push(c);
            proof {
                lemma_eqs_view_push(pre_out, c);
                assert(expected == seq![eq@]);
                assert(eqs_view(out@) =~= before + expected);
            }
        }
        k += 1;
    }
    proof {
        assert(all.take(equations@.len() as int) =~= all);
    }
    out
}


pub proof fn lemma_pattern_index_bound(eq: SEquation)
    requires
        spec_pattern(eq) is Some,
    ensures
        (spec_pattern(eq)->0).1 <= usize::MAX,
{
    reveal(spec_pattern);
}

/// How many equations the units stand for: one for a scalar unit,
/// `hi - lo + 1` for a vector unit.
pub open spec fn units_cover(units: Seq<SUnit>) -> int
    decreases units.len(),
{
    if units.len() == 0 {
        0
    } else {
        units_cover(units.drop_last()) + match units.last() {
            SUnit::Scalar(_) => 1int,
            SUnit::Vector { lo, hi, .. } => hi - lo + 1,
        }
    }
}

proof fn lemma_units_cover_prepend(u: SUnit, rest: Seq<SUnit>)
    ensures
        units_cover(seq![u] + rest) == units_cover(rest) + match u {
            SUnit::Scalar(_) => 1int,
            SUnit::Vector { lo, hi, .. } => hi - lo + 1,
        },
    decreases rest.len(),
{
    if rest.len() > 0 {
        lemma_units_cover_prepend(u, rest.drop_last());
        assert((seq![u] + rest).drop_last() =~= seq![u] + rest.drop_last());
        assert((seq![u] + rest).last() == rest.last());
    } else {
        assert((seq![u] + rest).drop_last() =~= Seq::<SUnit>::empty());
        assert((seq![u] + rest).last() == u);
        assert(units_cover(Seq::<SUnit>::empty()) == 0);
        assert(rest =~= Seq::<SUnit>::empty());
    }
}

/// Clustering keeps every equation: the units stand for exactly as many
/// equations as they were made from, in order, and each vector unit stands for
/// at least two.
pub proof fn law_cluster_covers_all(eqs: Seq<SEquation>, i: int)
    requires
        0 <= i <= eqs.len(),
    ensures
        units_cover(cluster_from(eqs, i)) == eqs.len() - i,
        forall|k: int| 0 <= k < cluster_from(eqs, i).len() ==> (#[trigger] cluster_from(eqs, i)[k] matches SUnit::Vector { lo, hi, .. } ==> hi >= lo + 1),
    decreases eqs.len() - i,
{
    reveal(cluster_from);
    if i < eqs.len() {
        let e = run_end(eqs, i, i + 1);
        lemma_run_end(eqs, i, i + 1);
        match spec_pattern(eqs[i]) {
            Some((base, idx, op, srcs)) if e - i >= 2 && e <= eqs.len() => {
                law_cluster_covers_all(eqs, e);
                let u = SUnit::Vector { dst_base: base, src_bases: srcs, lo: idx, hi: (idx + (e - i) - 1) as nat, op: op };
                lemma_units_cover_prepend(u, cluster_from(eqs, e));
                let all = cluster_from(eqs, i);
                assert(all == seq![u] + cluster_from(eqs, e));
                assert forall|k: int| 0 <= k < all.len() implies (#[trigger] all[k] matches SUnit::Vector { lo, hi, .. } ==> hi >= lo + 1) by {
                    if k > 0 {
                        assert(all[k] == cluster_from(eqs, e)[k - 1]);
                    }
                }
            },
            _ => {
                law_cluster_covers_all(eqs, i + 1);
                let u = SUnit::Scalar(eqs[i]);
                lemma_units_cover_prepend(u, cluster_from(eqs, i + 1));
                let all = cluster_from(eqs, i);
                assert(all == seq![u] + cluster_from(eqs, i + 1));
                assert forall|k: int| 0 <= k < all.len() implies (#[trigger] all[k] matches SUnit::Vector { lo, hi, .. } ==> hi >= lo + 1) by {
                    if k > 0 {
                        assert(all[k] == cluster_from(eqs, i + 1)[k - 1]);
                    }
                }
            },
        }
    }
}

/// How many equations a unit stands for.
pub open spec fn unit_len(u: SUnit) -> int {
    match u {
        SUnit::Scalar(_) => 1,
        SUnit::Vector { lo, hi, .. } => hi - lo + 1,
    }
}

/// Unit `u` stands for exactly the equations `seg`: a scalar unit for its own
/// equation; a vector unit for two or more equations whose patterns have its
/// names and operator and step through `lo..=hi`.
pub open spec fn unit_matches(u: SUnit, seg: Seq<SEquation>) -> bool {
    match u {
        SUnit::Scalar(e) => seg == seq![e],
        SUnit::Vector { dst_base, src_bases, lo, hi, op } => {
            &&& seg.len() == hi - lo + 1
            &&& seg.len() >= 2
            &&& forall|t: int| 0 <= t < seg.len() ==> spec_pattern(#[trigger] seg[t]) == Some((dst_base, (lo + t) as nat, op, src_bases))
        },
    }
}

/// The `k`-th unit of `us`, made from the equations from `start` on, is
/// followed by an equation that would have continued it.
pub open spec fn unit_could_grow(eqs: Seq<SEquation>, us: Seq<SUnit>, start: int, k: int) -> bool {
    let b = start + units_cover(us.take(k)) + unit_len(us[k]);
    match us[k] {
        SUnit::Vector { dst_base, src_bases, hi, op, .. } =>
            b < eqs.len() && spec_pattern(eqs[b]) == Some((dst_base, (hi + 1) as nat, op, src_bases)),
        SUnit::Scalar(_) => false,
    }
}

proof fn lemma_first_unit(eqs: Seq<SEquation>, i: int)
    requires
        0 <= i < eqs.len(),
    ensures
        cluster_from(eqs, i).len() > 0,
        i < i + unit_len(cluster_from(eqs, i)[0]) <= eqs.len(),
        cluster_from(eqs, i) == seq![cluster_from(eqs, i)[0]] + cluster_from(eqs, i + unit_len(cluster_from(eqs, i)[0])),
        unit_matches(cluster_from(eqs, i)[0], eqs.subrange(i, i + unit_len(cluster_from(eqs, i)[0]))),
        !unit_could_grow(eqs, cluster_from(eqs, i), i, 0),
{
    let e = run_end(eqs, i, i + 1);
    lemma_run_end(eqs, i, i + 1);
    let us = cluster_from(eqs, i);
    match spec_pattern(eqs[i]) {
        Some((base, idx, op, srcs)) if e - i >= 2 => {
            lemma_cluster_vector(eqs, i, e);
            let u = us[0];
            assert(unit_len(u) == e - i);
            let seg = eqs.subrange(i, e);
            assert forall|t: int| 0 <= t < seg.len() implies spec_pattern(#[trigger] seg[t]) == Some((base, (idx + t) as nat, op, srcs)) by {
                assert(seg[t] == eqs[i + t]);
                if t > 0 {
                    assert(extends_run(eqs, i, i + t));
                }
            }
            assert(us.take(0) =~= Seq::<SUnit>::empty());
            if e < eqs.len() {
                assert(!extends_run(eqs, i, e));
            }
        },
        _ => {
            lemma_cluster_scalar(eqs, i);
            assert(eqs.subrange(i, i + 1) =~= seq![eqs[i]]);
            assert(us.take(0) =~= Seq::<SUnit>::empty());
        },
    }
}

/// Clustering cuts the equations from `i` on into consecutive segments, in
/// order, one for each unit, so that each equation lies in exactly one: a
/// scalar unit is its one equation, a vector unit is two or more equations
/// whose patterns step through its indices, and no vector unit stops before an
/// equation that would have continued it.
pub proof fn law_cluster_partition(eqs: Seq<SEquation>, i: int)
    requires
        0 <= i <= eqs.len(),
    ensures
        units_cover(cluster_from(eqs, i)) == eqs.len() - i,
        forall|k: int| 0 <= k < cluster_from(eqs, i).len() ==> unit_matches(
            #[trigger] cluster_from(eqs, i)[k],
            eqs.subrange(
                i + units_cover(cluster_from(eqs, i).take(k)),
                i + units_cover(cluster_from(eqs, i).take(k)) + unit_len(cluster_from(eqs, i)[k]),
            ),
        ),
        forall|k: int| 0 <= k < cluster_from(eqs, i).len() ==> !unit_could_grow(eqs, cluster_from(eqs, i), i, k),
    decreases eqs.len() - i,
{
    law_cluster_covers_all(eqs, i);
    let us = cluster_from(eqs, i);
    if i < eqs.len() {
        lemma_first_unit(eqs, i);
        let u = us[0];
        let next = i + unit_len(u);
        let rest = cluster_from(eqs, next);
        law_cluster_partition(eqs, next);
        assert(units_cover(us.take(0)) == 0) by {
            assert(us.take(0) =~= Seq::<SUnit>::empty());
        }
        assert forall|k: int| 0 < k < us.len() implies
            unit_matches(#[trigger] us[k], eqs.subrange(i + units_cover(us.take(k)), i + units_cover(us.take(k)) + unit_len(us[k])))
            && !unit_could_grow(eqs, us, i, k) by {
            assert(us[k] == rest[k - 1]);
            assert(us.take(k) =~= seq![u] + rest.take(k - 1));
            lemma_units_cover_prepend(u, rest.take(k - 1));
            assert(!unit_could_grow(eqs, rest, next, k - 1));
        }
    } else {
        reveal(cluster_from);
        assert(us.len() == 0);
    }
}

/// The scalar operator whose elementwise application a vector operation is:
/// the sum of a product for `Fma`.
pub open spec fn vector_op_operator(op: VectorOp) -> Operator {
    match op {
        VectorOp::Add => Operator::Add,
        VectorOp::Sub => Operator::Sub,
        VectorOp::Mul => Operator::Mul,
        VectorOp::Div => Operator::Div,
        VectorOp::Fma => Operator::Add,
    }
}

/// Equation `eq` computes its left side by `op`: `dst = a OP b` with `OP` the
/// operator of `op` on two variables, or, for `Fma`, a sum one of whose terms
/// is a product.
pub open spec fn computes_by(eq: SEquation, op: VectorOp) -> bool {
    match eq {
        SEquation::Simple(_, SExpr::BinaryOp(l, o, r)) => if op == VectorOp::Fma {
            o == Operator::Add && ((*l matches SExpr::BinaryOp(_, Operator::Mul, _)) || (*r matches SExpr::BinaryOp(_, Operator::Mul, _)))
        } else {
            o == vector_op_operator(op) && *l is Variable && *r is Variable
        },
        _ => false,
    }
}

/// The operation read from an equation is the one it computes: `a_k * b_k`
/// gives `Mul`, `a_k / b_k` gives `Div`, and so on.
pub proof fn law_pattern_op_is_computed(eq: SEquation)
    ensures
        spec_pattern(eq) matches Some((_, _, op, _)) ==> computes_by(eq, op),
{
    reveal(spec_pattern);
}

proof fn lemma_cover_nonneg(us: Seq<SUnit>)
    requires
        forall|j: int| 0 <= j < us.len() ==> unit_len(#[trigger] us[j]) >= 1,
    ensures
        units_cover(us) >= 0,
    decreases us.len(),
{
    if us.len() > 0 {
        lemma_cover_nonneg(us.drop_last());
        assert(unit_len(us[us.len() - 1]) >= 1);
    }
}

proof fn lemma_cover_prefix(us: Seq<SUnit>, k: int)
    requires
        0 <= k < us.len(),
        forall|j: int| 0 <= j < us.len() ==> unit_len(#[trigger] us[j]) >= 1,
    ensures
        0 <= units_cover(us.take(k)),
        units_cover(us.take(k)) + unit_len(us[k]) <= units_cover(us),
    decreases us.len(),
{
    let d = us.drop_last();
    assert(unit_len(us[us.len() - 1]) >= 1);
    if k == us.len() - 1 {
        assert(us.take(k) =~= d);
        lemma_cover_nonneg(d);
    } else {
        assert(d.take(k) =~= us.take(k));
        assert(d[k] == us[k]);
        lemma_cover_prefix(d, k);
    }
}

/// Every equation that a vector unit stands for computes by the unit's
/// operation: a group made of products multiplies, one made of quotients divides.
pub proof fn law_vector_unit_op(eqs: Seq<SEquation>, k: int, t: int)
    requires
        0 <= k < cluster_from(eqs, 0).len(),
        cluster_from(eqs, 0)[k] is Vector,
        0 <= t < unit_len(cluster_from(eqs, 0)[k]),
    ensures
        computes_by(eqs[units_cover(cluster_from(eqs, 0).take(k)) + t], cluster_from(eqs, 0)[k]->op),
{
    law_cluster_partition(eqs, 0);
    law_cluster_covers_all(eqs, 0);
    let us = cluster_from(eqs, 0);
    assert forall|j: int| 0 <= j < us.len() implies unit_len(#[trigger] us[j]) >= 1 by {
        match us[j] {
            SUnit::Vector { lo, hi, .. } => {
                assert(hi >= lo + 1);
            },
            SUnit::Scalar(_) => {},
        }
    }
    lemma_cover_prefix(us, k);
    let a = units_cover(us.take(k));
    let seg = eqs.subrange(a, a + unit_len(us[k]));
    assert(unit_matches(us[k], seg));
    assert(seg[t] == eqs[a + t]);
    law_pattern_op_is_computed(seg[t]);
}

pub proof fn lemma_cluster_vector(all: Seq<SEquation>, i: int, j: int)
    requires
        0 <= i < j <= all.len(),
        j - i >= 2,
        spec_pattern(all[i]) is Some,
        run_end(all, i, i + 1) == j,
    ensures
        cluster_from(all, i) == seq![SUnit::Vector {
            dst_base: (spec_pattern(all[i])->0).0,
            src_bases: (spec_pattern(all[i])->0).3,
            lo: (spec_pattern(all[i])->0).1,
            hi: ((spec_pattern(all[i])->0).1 + (j - i) - 1) as nat,
            op: (spec_pattern(all[i])->0).2,
        }] + cluster_from(all, j),
{
    reveal(cluster_from);
}

pub proof fn lemma_cluster_scalar(all: Seq<SEquation>, i: int)
    requires
        0 <= i < all.len(),
        !(spec_pattern(all[i]) is Some && run_end(all, i, i + 1) - i >= 2),
    ensures
        cluster_from(all, i) == seq![SUnit::Scalar(all[i])] + cluster_from(all, i + 1),
{
    reveal(cluster_from);
    lemma_run_end(all, i, i + 1);
}

pub proof fn lemma_cluster_end(all: Seq<SEquation>, i: int)
    requires
        i >= all.len(),
    ensures
        cluster_from(all, i) == Seq::<SUnit>::empty(),
{
    reveal(cluster_from);
}

fn continues_run(
    eq: &Equation,
    base: &String,
    idx: usize,
    op: VectorOp,
    srcs: &Vec<String>,
    dist: usize,
) -> (r: bool)
    ensures
        r == match spec_pattern(eq@) {
            Some((b2, k2, op2, s2)) => b2 == base@ && op2 == op && s2 == strings_view(srcs@) && k2 == idx + dist,
            None => false,
        },
{
    match try_extract_pattern(eq) {
        Some((nb, ni, nop, ns)) => nb == *base && nop == op && strings_eq(&ns, srcs) && ni >= idx && ni - idx == dist,
        None => false,
    }
}

/// Group the equations (after for-loop expansion) into scalar units and vector
/// groups: each maximal run of two or more consecutive equations
/// `dst_k = op(src_k ...)` with the same names and operator and indices that step
/// by one becomes a [`VectorGroup`] covering `lo..=hi`.
#[verifier::rlimit(80)]
pub fn cluster_equations(
    equations: &[Equation],
    loop_bounds: &[Option<(i64, i64)>],
    max_expand: usize,
) -> (units: Vec<CompileUnit>)
    ensures
        units_view(units@) == cluster_from(
            expand_eqs(eqs_view(equations@), loop_bounds@, max_expand as nat),
            0,
        ),
{
    let eqs = expand_small_for_loops(equations, loop_bounds, max_expand);
    let ghost all = eqs_view(eqs@);
    proof {
        crate::ast::lemma_eqs_view(eqs@);
    }
    let mut units: Vec<CompileUnit> = Vec::new();
    let mut i: usize = 0;
    assert(units_view(units@) + cluster_from(all, 0) =~= cluster_from(all, 0));
    while i < eqs.len()
        invariant
            i <= eqs@.len(),
            all == eqs_view(eqs@),
            all.len() == eqs@.len(),
            forall|k: int| 0 <= k < eqs@.len() ==> #[trigger] all[k] == eqs@[k]@,
            units_view(units@) + cluster_from(all, i as int) == cluster_from(all, 0),
        decreases eqs@.len() - i,
    {
        let ghost pre_units = units@;
        if let Some((base, idx, op, srcs)) = try_extract_pattern(&eqs[i]) {
            let mut j = i + 1;
            proof {
                lemma_run_end(all, i as int, (i + 1) as int);
            }
            while j < eqs.len() && continues_run(&eqs[j], &base, idx, op, &srcs, j - i)
                invariant
                    i < j <= eqs@.len(),
                    all.len() == eqs@.len(),
                    forall|k: int| 0 <= k < eqs@.len() ==> #[trigger] all[k] == eqs@[k]@,
                    spec_pattern(all[i as int]) == Some((base@, idx as nat, op, strings_view(srcs@))),
                    run_end(all, i as int, (i + 1) as int) == run_end(all, i as int, j as int),
                    forall|k: int| i < k < j ==> #[trigger] extends_run(all, i as int, k),
                decreases eqs@.len() - j,
            {
                assert(extends_run(all, i as int, j as int));
                j += 1;
            }
            proof {
                assert(run_end(all, i as int, j as int) == j);
            }
            if j - i >= 2 {
                proof {
                    assert(extends_run(all, i as int, (j - 1) as int));
                    lemma_pattern_index_bound(all[(j - 1) as int]);
                }
                let count = j - i;
                let g = VectorGroup { dst_base: base, src_bases: srcs, lo: idx, hi: idx + (count - 1), op };
                units.push(CompileUnit::Vector(g));
                proof {
                    lemma_cluster_vector(all, i as int, j as int);
                    assert(units_view(units@) =~= units_view(pre_units).push(units@.last()@));
                    assert(units_view(units@) + cluster_from(all, j as int) =~= units_view(pre_units) + cluster_from(all, i as int));
                }
                i = j;
                continue;
            }
        }
        proof {
            if spec_pattern(all[i as int]) is Some && run_end(all, i as int, i + 1) - i >= 2 {
                lemma_run_end(all, i as int, i + 1);
            }
        }
        let c = clone_equation(&eqs[i]);
        units.push(CompileUnit::Scalar(c));
        proof {
            lemma_cluster_scalar(all, i as int);
            assert(units_view(units@) =~= units_view(pre_units).push(units@.last()@));
            assert(units_view(units@) + cluster_from(all, i + 1) =~= units_view(pre_units) + cluster_from(all, i as int));
        }
        i += 1;
    }
    proof {
        lemma_cluster_end(all, i as int);
    }
    assert(units_view(units@) =~= units_view(units@) + cluster_from(all, i as int));
    units
}

} // verus!
