//! The grammar of equations and algorithm statements over tokens, stated by
//! `g_*` functions and read by the `parse_*` functions that return exactly what
//! the grammar gives. Every equation or statement ends with an optional string
//! comment, an optional annotation, and `;`.

use vstd::prelude::*;
use crate::ast::{Equation, Expression, SEquation, SExpr, eqs_view, eq_branches_view, exprs_view, group_ast_views, lemma_eqs_view_push, lemma_exprs_view_push, clone_expr};
use crate::grammar::{adv, at_kind, at_kw, at_sym, kind_at, kw, sym};
use crate::lexer::{TokKind, TokV, Token, toks_view};
use crate::model::{AlgorithmStatement, SStmt, group_model_views, stmt_branches_view, stmts_view};
use crate::parse_expr::{call_args, call_args_exec, g_args, g_call, g_compref, g_expr, g_lor, parse_args, parse_call, parse_compref, parse_expr, parse_lor, single};
use crate::text::concat;

verus! {

broadcast use {vstd::std_specs::vec::axiom_spec_len, group_ast_views, group_model_views};

/// The name a reference stands for: `a`, `a.b`, and `a[?]` for any subscript;
/// anything else is `unknown`.
pub open spec fn expr_to_string(e: SExpr) -> Seq<char>
    decreases e,
{
    match e {
        SExpr::Variable(id) => id,
        SExpr::Dot(base, m) => expr_to_string(*base) + "."@ + m,
        SExpr::ArrayAccess(base, _i) => expr_to_string(*base) + "[?]"@,
        _ => "unknown"@,
    }
}

/// The name that a reference stands for.
pub fn expr_to_string_exec(e: &Expression) -> (r: String)
    ensures
        r@ == expr_to_string(e@),
    decreases e,
{
    match e {
        Expression::Variable(id) => id.clone(),
        Expression::Dot(base, m) => {
            let b = expr_to_string_exec(base);
            let d = concat(b.as_str(), ".");
            concat(d.as_str(), m.as_str())
        },
        Expression::ArrayAccess(base, _i) => {
            let b = expr_to_string_exec(base);
            concat(b.as_str(), "[?]")
        },
        _ => "unknown".to_owned(),
    }
}

/// The `i`-th of `s`, or `0`.
pub open spec fn nth_or_zero(s: Seq<SExpr>, i: int) -> SExpr {
    if 0 <= i < s.len() { s[i] } else { SExpr::Number("0"@) }
}

fn nth_or_zero_exec(v: &Vec<Expression>, i: usize) -> (r: Expression)
    ensures
        r@ == nth_or_zero(exprs_view(v@), i as int),
{
    if i < v.len() {
        clone_expr(&v[i])
    } else {
        Expression::Number("0".to_owned())
    }
}

/// The end of a string comment `"..." ("+" "...")*` at `p`, or `p`.
pub open spec fn comment_end(ts: Seq<TokV>, p: int) -> int
    decreases ts.len() - p,
{
    if kind_at(ts, p, TokKind::Str) {
        if sym(ts, p + 1, "+"@) && kind_at(ts, p + 2, TokKind::Str) {
            comment_end(ts, p + 2)
        } else {
            p + 1
        }
    } else {
        p
    }
}

/// The position after the bracket that closes the one at depth `d` when
/// scanning from `p` (counting `(`, `[`, `{` and their closing partners).
pub open spec fn close_paren(ts: Seq<TokV>, p: int, d: nat) -> Option<int>
    decreases ts.len() - p,
{
    if p < 0 || p >= ts.len() {
        None
    } else if sym(ts, p, "("@) || sym(ts, p, "["@) || sym(ts, p, "{"@) {
        close_paren(ts, p + 1, d + 1)
    } else if sym(ts, p, ")"@) || sym(ts, p, "]"@) || sym(ts, p, "}"@) {
        if d <= 1 {
            Some(p + 1)
        } else {
            close_paren(ts, p + 1, (d - 1) as nat)
        }
    } else {
        close_paren(ts, p + 1, d)
    }
}

/// After an optional annotation `annotation(...)` at `p`: the position after it.
pub open spec fn annotation_end(ts: Seq<TokV>, p: int) -> Option<int> {
    if kw(ts, p, "annotation"@) && sym(ts, p + 1, "("@) {
        close_paren(ts, p + 1, 0)
    } else {
        Some(p)
    }
}

/// The end of an equation or statement: comment, annotation, `;`.
pub open spec fn stmt_end(ts: Seq<TokV>, p: int) -> Option<int> {
    match annotation_end(ts, comment_end(ts, p)) {
        Some(q) => if sym(ts, q, ";"@) { Some(q + 1) } else { None },
        None => None,
    }
}

pub proof fn lemma_comment_end(ts: Seq<TokV>, p: int)
    requires
        0 <= p <= ts.len(),
    ensures
        p <= comment_end(ts, p) <= ts.len(),
    decreases ts.len() - p,
{
    if kind_at(ts, p, TokKind::Str) && sym(ts, p + 1, "+"@) && kind_at(ts, p + 2, TokKind::Str) {
        lemma_comment_end(ts, p + 2);
    }
}

pub proof fn lemma_close_paren(ts: Seq<TokV>, p: int, d: nat)
    requires
        0 <= p,
    ensures
        close_paren(ts, p, d) matches Some(q) ==> p < q <= ts.len(),
    decreases ts.len() - p,
{
    if p < ts.len() {
        if sym(ts, p, "("@) || sym(ts, p, "["@) || sym(ts, p, "{"@) {
            lemma_close_paren(ts, p + 1, d + 1);
        } else if sym(ts, p, ")"@) || sym(ts, p, "]"@) || sym(ts, p, "}"@) {
            if d > 1 {
                lemma_close_paren(ts, p + 1, (d - 1) as nat);
            }
        } else {
            lemma_close_paren(ts, p + 1, d);
        }
    }
}

pub proof fn lemma_stmt_end(ts: Seq<TokV>, p: int)
    requires
        0 <= p <= ts.len(),
    ensures
        stmt_end(ts, p) matches Some(q) ==> p < q <= ts.len(),
{
    lemma_comment_end(ts, p);
    let c = comment_end(ts, p);
    if kw(ts, c, "annotation"@) && sym(ts, c + 1, "("@) {
        lemma_close_paren(ts, c + 1, 0);
    }
}

pub fn comment_end_exec(ts: &Vec<Token>, p: usize) -> (r: usize)
    requires
        p <= ts.len(),
    ensures
        r == comment_end(toks_view(ts@), p as int),
        p <= r <= ts.len(),
{
    let ghost tv = toks_view(ts@);
    proof {
        lemma_comment_end(tv, p as int);
    }
    let mut k = p;
    if !at_kind(ts, k, TokKind::Str) {
        return k;
    }
    while at_sym(ts, k + 1, "+") && at_kind(ts, k + 2, TokKind::Str)
        invariant
            p <= k < ts.len(),
            tv == toks_view(ts@),
            kind_at(tv, k as int, TokKind::Str),
            comment_end(tv, k as int) == comment_end(tv, p as int),
        decreases ts@.len() - k,
    {
        k = k + 2;
    }
    k + 1
}

pub fn close_paren_exec(ts: &Vec<Token>, p: usize) -> (r: Option<usize>)
    requires
        p <= ts.len(),
    ensures
        match r {
            Some(q) => close_paren(toks_view(ts@), p as int, 0) == Some(q as int),
            None => close_paren(toks_view(ts@), p as int, 0) is None,
        },
        r matches Some(q) ==> p < q <= ts.len(),
{
    let ghost tv = toks_view(ts@);
    proof {
        lemma_close_paren(tv, p as int, 0);
    }
    let mut k = p;
    let mut d: usize = 0;
    while k < ts.len()
        invariant
            p <= k <= ts.len(),
            d <= k - p,
            tv == toks_view(ts@),
            close_paren(tv, k as int, d as nat) == close_paren(tv, p as int, 0),
        decreases ts@.len() - k,
    {
        if at_sym(ts, k, "(") || at_sym(ts, k, "[") || at_sym(ts, k, "{") {
            d = d + 1;
        } else if at_sym(ts, k, ")") || at_sym(ts, k, "]") || at_sym(ts, k, "}") {
            if d <= 1 {
                return Some(k + 1);
            }
            d = d - 1;
        }
        k = k + 1;
    }
    None
}

pub fn annotation_end_exec(ts: &Vec<Token>, p: usize) -> (r: Option<usize>)
    requires
        p <= ts.len(),
    ensures
        match r {
            Some(q) => annotation_end(toks_view(ts@), p as int) == Some(q as int),
            None => annotation_end(toks_view(ts@), p as int) is None,
        },
        r matches Some(q) ==> p <= q <= ts.len(),
{
    if at_kw(ts, p, "annotation") && at_sym(ts, p + 1, "(") {
        close_paren_exec(ts, p + 1)
    } else {
        Some(p)
    }
}

pub fn stmt_end_exec(ts: &Vec<Token>, p: usize) -> (r: Option<usize>)
    requires
        p <= ts.len(),
    ensures
        match r {
            Some(q) => stmt_end(toks_view(ts@), p as int) == Some(q as int),
            None => stmt_end(toks_view(ts@), p as int) is None,
        },
        r matches Some(q) ==> p < q <= ts.len(),
{
    let c = comment_end_exec(ts, p);
    match annotation_end_exec(ts, c) {
        Some(q) => if at_sym(ts, q, ";") { Some(q + 1) } else { None },
        None => None,
    }
}

/// A parse result holding an equation.
pub open spec fn oe(r: Option<(Equation, usize)>) -> Option<(SEquation, int)> {
    match r {
        Some((e, q)) => Some((e@, q as int)),
        None => None,
    }
}

/// A parse result holding equations.
pub open spec fn oes(r: Option<(Vec<Equation>, usize)>) -> Option<(Seq<SEquation>, int)> {
    match r {
        Some((e, q)) => Some((eqs_view(e@), q as int)),
        None => None,
    }
}

/// A parse result holding guarded branches of equations.
pub open spec fn oeb(r: Option<(Vec<(Expression, Vec<Equation>)>, usize)>) -> Option<(Seq<(SExpr, Seq<SEquation>)>, int)> {
    match r {
        Some((e, q)) => Some((eq_branches_view(e@), q as int)),
        None => None,
    }
}

/// A parse result holding expressions.
pub open spec fn oxs(r: Option<(Vec<Expression>, usize)>) -> Option<(Seq<SExpr>, int)> {
    match r {
        Some((e, q)) => Some((exprs_view(e@), q as int)),
        None => None,
    }
}

/// The equations that the body of a `for` equation keeps: simple equations,
/// `connect` and nested `for`.
pub open spec fn for_body(s: Seq<SEquation>) -> Seq<SEquation>
    decreases s.len(),
{
    if s.len() == 0 {
        Seq::empty()
    } else {
        let r = for_body(s.drop_last());
        match s.last() {
            SEquation::Simple(_, _) | SEquation::Connect(_, _) | SEquation::For(_, _, _, _) => r.push(s.last()),
            _ => r,
        }
    }
}

fn for_body_exec(v: &Vec<Equation>) -> (r: Vec<Equation>)
    ensures
        eqs_view(r@) == for_body(eqs_view(v@)),
{
    let ghost vv = eqs_view(v@);
    let mut out: Vec<Equation> = Vec::new();
    let mut i: usize = 0;
    assert(vv.take(0) =~= Seq::<SEquation>::empty());
    while i < v.len()
        invariant
            i <= v@.len(),
            vv == eqs_view(v@),
            vv.len() == v@.len(),
            eqs_view(out@) == for_body(vv.take(i as int)),
        decreases v@.len() - i,
    {
        proof {
            assert(vv.take(i + 1).drop_last() =~= vv.take(i as int));
            assert(vv.take(i + 1).last() == v@[i as int]@);
        }
        let keep = match &v[i] {
            Equation::Simple(_, _) | Equation::Connect(_, _) | Equation::For(_, _, _, _) => true,
            _ => false,
        };
        if keep {
            let e = crate::ast::clone_equation(&v[i]);
            proof {
                lemma_eqs_view_push(out@, e);
            }
            out.push(e);
        }
        i += 1;
    }
    assert(vv.take(v@.len() as int) =~= vv);
    out
}


/// `connect(a, b)`, `reinit(v, e)`, `assert(args)` and `terminate(m)` as equations.
pub open spec fn g_special_eq(ts: Seq<TokV>, p: int) -> Option<(SEquation, int)> {
    if kw(ts, p, "connect"@) && sym(ts, p + 1, "("@) {
        match g_compref(ts, p + 2) {
            Some((a, q)) => if sym(ts, q, ","@) {
                match g_compref(ts, q + 1) {
                    Some((b, q2)) => if sym(ts, q2, ")"@) { Some((SEquation::Connect(a, b), q2 + 1)) } else { None },
                    None => None,
                }
            } else {
                None
            },
            None => None,
        }
    } else if kw(ts, p, "reinit"@) && sym(ts, p + 1, "("@) {
        match g_compref(ts, p + 2) {
            Some((v, q)) => if sym(ts, q, ","@) {
                match g_expr(ts, q + 1) {
                    Some((e, q2)) => if sym(ts, q2, ")"@) {
                        Some((SEquation::Reinit(expr_to_string(v), e), q2 + 1))
                    } else {
                        None
                    },
                    None => None,
                }
            } else {
                None
            },
            None => None,
        }
    } else if kw(ts, p, "assert"@) && sym(ts, p + 1, "("@) {
        match g_args(ts, p + 2) {
            Some((a, q)) => if sym(ts, q, ")"@) {
                Some((SEquation::Assert(nth_or_zero(call_args(a), 0), nth_or_zero(call_args(a), 1)), q + 1))
            } else {
                None
            },
            None => None,
        }
    } else if kw(ts, p, "terminate"@) && sym(ts, p + 1, "("@) {
        match g_expr(ts, p + 2) {
            Some((m, q)) => if sym(ts, q, ")"@) { Some((SEquation::Terminate(m), q + 1)) } else { None },
            None => None,
        }
    } else {
        None
    }
}

/// Component references separated by commas.
pub open spec fn g_ref_list(ts: Seq<TokV>, p: int) -> Option<(Seq<SExpr>, int)>
    decreases ts.len() - p,
{
    match g_compref(ts, p) {
        None => None,
        Some((a, q)) => if adv(p + 1, q, ts.len() as int) && sym(ts, q, ","@) {
            match g_ref_list(ts, q + 1) {
                Some((rest, q2)) => Some((seq![a] + rest, q2)),
                None => None,
            }
        } else {
            Some((seq![a], q))
        },
    }
}

/// `(r1, r2, ...) = e`.
pub open spec fn g_multi_eq(ts: Seq<TokV>, p: int) -> Option<(SEquation, int)> {
    if sym(ts, p, "("@) {
        match g_ref_list(ts, p + 1) {
            Some((l, q)) => if sym(ts, q, ")"@) && sym(ts, q + 1, "="@) {
                match g_expr(ts, q + 2) {
                    Some((r, q2)) => Some((SEquation::MultiAssign(l, r), q2)),
                    None => None,
                }
            } else {
                None
            },
            None => None,
        }
    } else {
        None
    }
}

/// `lhs = rhs`.
pub open spec fn g_simple_eq(ts: Seq<TokV>, p: int) -> Option<(SEquation, int)> {
    match g_expr(ts, p) {
        Some((l, q)) => if sym(ts, q, "="@) {
            match g_expr(ts, q + 1) {
                Some((r, q2)) => Some((SEquation::Simple(l, r), q2)),
                None => None,
            }
        } else {
            None
        },
        None => None,
    }
}

/// Equations up to the first token that does not begin one.
#[verifier::opaque]
pub open spec fn g_eq_list(ts: Seq<TokV>, p: int) -> Option<(Seq<SEquation>, int)>
    decreases ts.len() - p, 7int,
{
    match g_eq_stmt(ts, p) {
        None => Some((Seq::empty(), p)),
        Some((e, q)) => if p < q && q <= ts.len() {
            match g_eq_list(ts, q) {
                Some((rest, q2)) => Some((seq![e] + rest, q2)),
                None => None,
            }
        } else {
            None
        },
    }
}

/// One equation with its end.
#[verifier::opaque]
pub open spec fn g_eq_stmt(ts: Seq<TokV>, p: int) -> Option<(SEquation, int)>
    decreases ts.len() - p, 6int,
{
    match g_eq_body(ts, p) {
        Some((e, q)) => if adv(p, q, ts.len() as int) {
            match stmt_end(ts, q) {
                Some(q2) => Some((e, q2)),
                None => None,
            }
        } else {
            None
        },
        None => None,
    }
}

/// One equation: `if`, `for`, `when`, a built-in equation, `(refs) = e`, or `l = r`.
#[verifier::opaque]
pub open spec fn g_eq_body(ts: Seq<TokV>, p: int) -> Option<(SEquation, int)>
    decreases ts.len() - p, 5int,
{
    if kw(ts, p, "if"@) {
        g_if_eq(ts, p + 1)
    } else if kw(ts, p, "for"@) {
        g_for_eq(ts, p + 1)
    } else if kw(ts, p, "when"@) {
        g_when_eq(ts, p + 1)
    } else {
        match g_special_eq(ts, p) {
            Some(x) => Some(x),
            None => match g_multi_eq(ts, p) {
                Some(x) => Some(x),
                None => g_simple_eq(ts, p),
            },
        }
    }
}

/// After `if`: `c then eqs (elseif c then eqs)* [else eqs] end if`.
#[verifier::opaque]
pub open spec fn g_if_eq(ts: Seq<TokV>, p: int) -> Option<(SEquation, int)>
    decreases ts.len() - p, 1int,
{
    match g_expr(ts, p) {
        Some((c, q)) => if adv(p, q, ts.len() as int) && kw(ts, q, "then"@) {
            match g_eq_list(ts, q + 1) {
                Some((th, q2)) => if adv(q + 1, q2, ts.len() as int) {
                    match g_elseif_eqs(ts, q2) {
                        Some((br, q3)) => if adv(q2, q3, ts.len() as int) && kw(ts, q3, "else"@) {
                            match g_eq_list(ts, q3 + 1) {
                                Some((el, q4)) => if kw(ts, q4, "end"@) && kw(ts, q4 + 1, "if"@) {
                                    Some((SEquation::If(c, th, br, Some(el)), q4 + 2))
                                } else {
                                    None
                                },
                                None => None,
                            }
                        } else if kw(ts, q3, "end"@) && kw(ts, q3 + 1, "if"@) {
                            Some((SEquation::If(c, th, br, None), q3 + 2))
                        } else {
                            None
                        },
                        None => None,
                    }
                } else {
                    None
                },
                None => None,
            }
        } else {
            None
        },
        None => None,
    }
}

/// `(elseif c then eqs)*`.
#[verifier::opaque]
pub open spec fn g_elseif_eqs(ts: Seq<TokV>, p: int) -> Option<(Seq<(SExpr, Seq<SEquation>)>, int)>
    decreases ts.len() - p, 1int,
{
    if kw(ts, p, "elseif"@) {
        match g_expr(ts, p + 1) {
            Some((c, q)) => if adv(p + 1, q, ts.len() as int) && kw(ts, q, "then"@) {
                match g_eq_list(ts, q + 1) {
                    Some((b, q2)) => if adv(q + 1, q2, ts.len() as int) {
                        match g_elseif_eqs(ts, q2) {
                            Some((rest, q3)) => Some((seq![(c, b)] + rest, q3)),
                            None => None,
                        }
                    } else {
                        None
                    },
                    None => None,
                }
            } else {
                None
            },
            None => None,
        }
    } else {
        Some((Seq::empty(), p))
    }
}

/// After `when`: `c then eqs (elsewhen c then eqs)* end when`.
#[verifier::opaque]
pub open spec fn g_when_eq(ts: Seq<TokV>, p: int) -> Option<(SEquation, int)>
    decreases ts.len() - p, 1int,
{
    match g_expr(ts, p) {
        Some((c, q)) => if adv(p, q, ts.len() as int) && kw(ts, q, "then"@) {
            match g_eq_list(ts, q + 1) {
                Some((b, q2)) => if adv(q + 1, q2, ts.len() as int) {
                    match g_elsewhen_eqs(ts, q2) {
                        Some((br, q3)) => if kw(ts, q3, "end"@) && kw(ts, q3 + 1, "when"@) {
                            Some((SEquation::When(c, b, br), q3 + 2))
                        } else {
                            None
                        },
                        None => None,
                    }
                } else {
                    None
                },
                None => None,
            }
        } else {
            None
        },
        None => None,
    }
}

/// `(elsewhen c then eqs)*`.
#[verifier::opaque]
pub open spec fn g_elsewhen_eqs(ts: Seq<TokV>, p: int) -> Option<(Seq<(SExpr, Seq<SEquation>)>, int)>
    decreases ts.len() - p, 1int,
{
    if kw(ts, p, "elsewhen"@) {
        match g_expr(ts, p + 1) {
            Some((c, q)) => if adv(p + 1, q, ts.len() as int) && kw(ts, q, "then"@) {
                match g_eq_list(ts, q + 1) {
                    Some((b, q2)) => if adv(q + 1, q2, ts.len() as int) {
                        match g_elsewhen_eqs(ts, q2) {
                            Some((rest, q3)) => Some((seq![(c, b)] + rest, q3)),
                            None => None,
                        }
                    } else {
                        None
                    },
                    None => None,
                }
            } else {
                None
            },
            None => None,
        }
    } else {
        Some((Seq::empty(), p))
    }
}

/// After `for`: `i in a:b loop eqs end for`; the body keeps the simple,
/// `connect` and `for` equations.
#[verifier::opaque]
pub open spec fn g_for_eq(ts: Seq<TokV>, p: int) -> Option<(SEquation, int)>
    decreases ts.len() - p, 1int,
{
    if kind_at(ts, p, TokKind::Ident) && kw(ts, p + 1, "in"@) {
        match g_lor(ts, p + 2) {
            Some((a, q)) => if sym(ts, q, ":"@) {
                match g_lor(ts, q + 1) {
                    Some((b, q2)) => if adv(p + 2, q2, ts.len() as int) && kw(ts, q2, "loop"@) {
                        match g_eq_list(ts, q2 + 1) {
                            Some((body, q3)) => if kw(ts, q3, "end"@) && kw(ts, q3 + 1, "for"@) {
                                Some((SEquation::For(ts[p].text, a, b, for_body(body)), q3 + 2))
                            } else {
                                None
                            },
                            None => None,
                        }
                    } else {
                        None
                    },
                    None => None,
                }
            } else {
                None
            },
            None => None,
        }
    } else {
        None
    }
}

pub proof fn unfold_eq_list(ts: Seq<TokV>, p: int)
    ensures
        g_eq_list(ts, p) == ({
            match g_eq_stmt(ts, p) {
                None => Some((Seq::empty(), p)),
                Some((e, q)) => if p < q && q <= ts.len() {
                    match g_eq_list(ts, q) {
                        Some((rest, q2)) => Some((seq![e] + rest, q2)),
                        None => None,
                    }
                } else {
                    None
                },
            }
        }),
{
    reveal(g_eq_list);
    reveal(g_eq_stmt);
}

pub proof fn unfold_eq_stmt(ts: Seq<TokV>, p: int)
    ensures
        g_eq_stmt(ts, p) == ({
            match g_eq_body(ts, p) {
                Some((e, q)) => if adv(p, q, ts.len() as int) {
                    match stmt_end(ts, q) {
                        Some(q2) => Some((e, q2)),
                        None => None,
                    }
                } else {
                    None
                },
                None => None,
            }
        }),
{
    reveal(g_eq_stmt);
    reveal(g_eq_body);
}

pub proof fn unfold_eq_body(ts: Seq<TokV>, p: int)
    ensures
        g_eq_body(ts, p) == ({
            if kw(ts, p, "if"@) {
                g_if_eq(ts, p + 1)
            } else if kw(ts, p, "for"@) {
                g_for_eq(ts, p + 1)
            } else if kw(ts, p, "when"@) {
                g_when_eq(ts, p + 1)
            } else {
                match g_special_eq(ts, p) {
                    Some(x) => Some(x),
                    None => match g_multi_eq(ts, p) {
                        Some(x) => Some(x),
                        None => g_simple_eq(ts, p),
                    },
                }
            }
        }),
{
    reveal(g_eq_body);
    reveal(g_if_eq);
    reveal(g_when_eq);
    reveal(g_for_eq);
}

pub proof fn unfold_if_eq(ts: Seq<TokV>, p: int)
    ensures
        g_if_eq(ts, p) == ({
            match g_expr(ts, p) {
                Some((c, q)) => if adv(p, q, ts.len() as int) && kw(ts, q, "then"@) {
                    match g_eq_list(ts, q + 1) {
                        Some((th, q2)) => if adv(q + 1, q2, ts.len() as int) {
                            match g_elseif_eqs(ts, q2) {
                                Some((br, q3)) => if adv(q2, q3, ts.len() as int) && kw(ts, q3, "else"@) {
                                    match g_eq_list(ts, q3 + 1) {
                                        Some((el, q4)) => if kw(ts, q4, "end"@) && kw(ts, q4 + 1, "if"@) {
                                            Some((SEquation::If(c, th, br, Some(el)), q4 + 2))
                                        } else {
                                            None
                                        },
                                        None => None,
                                    }
                                } else if kw(ts, q3, "end"@) && kw(ts, q3 + 1, "if"@) {
                                    Some((SEquation::If(c, th, br, None), q3 + 2))
                                } else {
                                    None
                                },
                                None => None,
                            }
                        } else {
                            None
                        },
                        None => None,
                    }
                } else {
                    None
                },
                None => None,
            }
        }),
{
    reveal(g_if_eq);
    reveal(g_eq_list);
    reveal(g_elseif_eqs);
}

pub proof fn unfold_elseif_eqs(ts: Seq<TokV>, p: int)
    ensures
        g_elseif_eqs(ts, p) == ({
            if kw(ts, p, "elseif"@) {
                match g_expr(ts, p + 1) {
                    Some((c, q)) => if adv(p + 1, q, ts.len() as int) && kw(ts, q, "then"@) {
                        match g_eq_list(ts, q + 1) {
                            Some((b, q2)) => if adv(q + 1, q2, ts.len() as int) {
                                match g_elseif_eqs(ts, q2) {
                                    Some((rest, q3)) => Some((seq![(c, b)] + rest, q3)),
                                    None => None,
                                }
                            } else {
                                None
                            },
                            None => None,
                        }
                    } else {
                        None
                    },
                    None => None,
                }
            } else {
                Some((Seq::empty(), p))
            }
        }),
{
    reveal(g_elseif_eqs);
    reveal(g_eq_list);
}

pub proof fn unfold_when_eq(ts: Seq<TokV>, p: int)
    ensures
        g_when_eq(ts, p) == ({
            match g_expr(ts, p) {
                Some((c, q)) => if adv(p, q, ts.len() as int) && kw(ts, q, "then"@) {
                    match g_eq_list(ts, q + 1) {
                        Some((b, q2)) => if adv(q + 1, q2, ts.len() as int) {
                            match g_elsewhen_eqs(ts, q2) {
                                Some((br, q3)) => if kw(ts, q3, "end"@) && kw(ts, q3 + 1, "when"@) {
                                    Some((SEquation::When(c, b, br), q3 + 2))
                                } else {
                                    None
                                },
                                None => None,
                            }
                        } else {
                            None
                        },
                        None => None,
                    }
                } else {
                    None
                },
                None => None,
            }
        }),
{
    reveal(g_when_eq);
    reveal(g_eq_list);
    reveal(g_elsewhen_eqs);
}

pub proof fn unfold_elsewhen_eqs(ts: Seq<TokV>, p: int)
    ensures
        g_elsewhen_eqs(ts, p) == ({
            if kw(ts, p, "elsewhen"@) {
                match g_expr(ts, p + 1) {
                    Some((c, q)) => if adv(p + 1, q, ts.len() as int) && kw(ts, q, "then"@) {
                        match g_eq_list(ts, q + 1) {
                            Some((b, q2)) => if adv(q + 1, q2, ts.len() as int) {
                                match g_elsewhen_eqs(ts, q2) {
                                    Some((rest, q3)) => Some((seq![(c, b)] + rest, q3)),
                                    None => None,
                                }
                            } else {
                                None
                            },
                            None => None,
                        }
                    } else {
                        None
                    },
                    None => None,
                }
            } else {
                Some((Seq::empty(), p))
            }
        }),
{
    reveal(g_elsewhen_eqs);
    reveal(g_eq_list);
}

pub proof fn unfold_for_eq(ts: Seq<TokV>, p: int)
    ensures
        g_for_eq(ts, p) == ({
            if kind_at(ts, p, TokKind::Ident) && kw(ts, p + 1, "in"@) {
                match g_lor(ts, p + 2) {
                    Some((a, q)) => if sym(ts, q, ":"@) {
                        match g_lor(ts, q + 1) {
                            Some((b, q2)) => if adv(p + 2, q2, ts.len() as int) && kw(ts, q2, "loop"@) {
                                match g_eq_list(ts, q2 + 1) {
                                    Some((body, q3)) => if kw(ts, q3, "end"@) && kw(ts, q3 + 1, "for"@) {
                                        Some((SEquation::For(ts[p].text, a, b, for_body(body)), q3 + 2))
                                    } else {
                                        None
                                    },
                                    None => None,
                                }
                            } else {
                                None
                            },
                            None => None,
                        }
                    } else {
                        None
                    },
                    None => None,
                }
            } else {
                None
            }
        }),
{
    reveal(g_for_eq);
    reveal(g_eq_list);
}


/// A list of equations always reads (possibly nothing).
pub proof fn lemma_eq_list_some(ts: Seq<TokV>, p: int)
    requires
        0 <= p <= ts.len(),
    ensures
        g_eq_list(ts, p) is Some,
    decreases ts.len() - p,
{
    unfold_eq_list(ts, p);
    match g_eq_stmt(ts, p) {
        None => {},
        Some((e, q)) => {
            if p < q && q <= ts.len() {
                lemma_eq_list_some(ts, q);
            } else {
                lemma_eq_stmt_advances(ts, p);
            }
        },
    }
}

/// An equation, when read, ends after where it began and within the tokens.
pub proof fn lemma_eq_stmt_advances(ts: Seq<TokV>, p: int)
    requires
        0 <= p <= ts.len(),
    ensures
        g_eq_stmt(ts, p) matches Some((_e, q)) ==> p < q <= ts.len(),
{
    unfold_eq_stmt(ts, p);
    match g_eq_body(ts, p) {
        Some((e, q)) => {
            if adv(p, q, ts.len() as int) {
                lemma_stmt_end(ts, q);
            }
        },
        None => {},
    }
}

/// Optional component references separated by commas (`(a, , b)` leaves a gap).
pub open spec fn g_opt_ref_list(ts: Seq<TokV>, p: int) -> Option<(Seq<SExpr>, int)>
    decreases ts.len() - p,
{
    let (first, q) = match g_compref(ts, p) {
        Some((a, q)) => (seq![a], q),
        None => (Seq::empty(), p),
    };
    if adv(p, q, ts.len() as int) && sym(ts, q, ","@) {
        match g_opt_ref_list(ts, q + 1) {
            Some((rest, q2)) => Some((first + rest, q2)),
            None => None,
        }
    } else if adv(p, q, ts.len() as int) {
        Some((first, q))
    } else {
        None
    }
}

/// `(r1, r2, ...) := e`.
pub open spec fn g_multi_stmt(ts: Seq<TokV>, p: int) -> Option<(SStmt, int)> {
    if sym(ts, p, "("@) {
        match g_opt_ref_list(ts, p + 1) {
            Some((l, q)) => if sym(ts, q, ")"@) && sym(ts, q + 1, ":="@) {
                match g_expr(ts, q + 2) {
                    Some((r, q2)) => Some((SStmt::MultiAssign(l, r), q2)),
                    None => None,
                }
            } else {
                None
            },
            None => None,
        }
    } else {
        None
    }
}

/// `ref := e`.
pub open spec fn g_assign_stmt(ts: Seq<TokV>, p: int) -> Option<(SStmt, int)> {
    match g_compref(ts, p) {
        Some((l, q)) => if sym(ts, q, ":="@) {
            match g_expr(ts, q + 1) {
                Some((r, q2)) => Some((SStmt::Assignment(l, r), q2)),
                None => None,
            }
        } else {
            None
        },
        None => None,
    }
}

/// `annotation(...)`, `break` and `return` (which do nothing), and `reinit`,
/// `assert`, `terminate` read as for equations.
pub open spec fn g_special_stmt(ts: Seq<TokV>, p: int) -> Option<(SStmt, int)> {
    if kw(ts, p, "annotation"@) && sym(ts, p + 1, "("@) {
        match close_paren(ts, p + 1, 0) {
            Some(q) => Some((SStmt::NoOp, q)),
            None => None,
        }
    } else if kw(ts, p, "break"@) || kw(ts, p, "return"@) {
        Some((SStmt::NoOp, p + 1))
    } else {
        match g_special_eq(ts, p) {
            Some((SEquation::Reinit(v, e), q)) => Some((SStmt::Reinit(v, e), q)),
            Some((SEquation::Assert(c, m), q)) => Some((SStmt::Assert(c, m), q)),
            Some((SEquation::Terminate(m), q)) => Some((SStmt::Terminate(m), q)),
            _ => None,
        }
    }
}

/// Statements up to the first token that does not begin one.
#[verifier::opaque]
pub open spec fn g_stmt_list(ts: Seq<TokV>, p: int) -> Option<(Seq<SStmt>, int)>
    decreases ts.len() - p, 7int,
{
    match g_stmt(ts, p) {
        None => Some((Seq::empty(), p)),
        Some((e, q)) => if p < q && q <= ts.len() {
            match g_stmt_list(ts, q) {
                Some((rest, q2)) => Some((seq![e] + rest, q2)),
                None => None,
            }
        } else {
            None
        },
    }
}

/// One statement with its end.
#[verifier::opaque]
pub open spec fn g_stmt(ts: Seq<TokV>, p: int) -> Option<(SStmt, int)>
    decreases ts.len() - p, 6int,
{
    match g_stmt_body(ts, p) {
        Some((e, q)) => if adv(p, q, ts.len() as int) {
            match stmt_end(ts, q) {
                Some(q2) => Some((e, q2)),
                None => None,
            }
        } else {
            None
        },
        None => None,
    }
}

/// One statement: `if`, `for`, `while`, `when`, a built-in statement,
/// `(refs) := e`, `ref := e`, or a call.
#[verifier::opaque]
pub open spec fn g_stmt_body(ts: Seq<TokV>, p: int) -> Option<(SStmt, int)>
    decreases ts.len() - p, 5int,
{
    if kw(ts, p, "if"@) {
        g_if_stmt(ts, p + 1)
    } else if kw(ts, p, "for"@) {
        g_for_stmt(ts, p + 1)
    } else if kw(ts, p, "while"@) {
        g_while_stmt(ts, p + 1)
    } else if kw(ts, p, "when"@) {
        g_when_stmt(ts, p + 1)
    } else {
        match g_special_stmt(ts, p) {
            Some(x) => Some(x),
            None => match g_multi_stmt(ts, p) {
                Some(x) => Some(x),
                None => match g_assign_stmt(ts, p) {
                    Some(x) => Some(x),
                    None => match g_call(ts, p) {
                        Some((c, q)) => Some((SStmt::CallStmt(c), q)),
                        None => None,
                    },
                },
            },
        }
    }
}

/// After `if`: `c then stmts (elseif c then stmts)* [else stmts] end if`.
#[verifier::opaque]
pub open spec fn g_if_stmt(ts: Seq<TokV>, p: int) -> Option<(SStmt, int)>
    decreases ts.len() - p, 1int,
{
    match g_expr(ts, p) {
        Some((c, q)) => if adv(p, q, ts.len() as int) && kw(ts, q, "then"@) {
            match g_stmt_list(ts, q + 1) {
                Some((th, q2)) => if adv(q + 1, q2, ts.len() as int) {
                    match g_elseif_stmts(ts, q2) {
                        Some((br, q3)) => if adv(q2, q3, ts.len() as int) && kw(ts, q3, "else"@) {
                            match g_stmt_list(ts, q3 + 1) {
                                Some((el, q4)) => if kw(ts, q4, "end"@) && kw(ts, q4 + 1, "if"@) {
                                    Some((SStmt::If(c, th, br, Some(el)), q4 + 2))
                                } else {
                                    None
                                },
                                None => None,
                            }
                        } else if kw(ts, q3, "end"@) && kw(ts, q3 + 1, "if"@) {
                            Some((SStmt::If(c, th, br, None), q3 + 2))
                        } else {
                            None
                        },
                        None => None,
                    }
                } else {
                    None
                },
                None => None,
            }
        } else {
            None
        },
        None => None,
    }
}

/// `(elseif c then stmts)*`.
#[verifier::opaque]
pub open spec fn g_elseif_stmts(ts: Seq<TokV>, p: int) -> Option<(Seq<(SExpr, Seq<SStmt>)>, int)>
    decreases ts.len() - p, 1int,
{
    if kw(ts, p, "elseif"@) {
        match g_expr(ts, p + 1) {
            Some((c, q)) => if adv(p + 1, q, ts.len() as int) && kw(ts, q, "then"@) {
                match g_stmt_list(ts, q + 1) {
                    Some((b, q2)) => if adv(q + 1, q2, ts.len() as int) {
                        match g_elseif_stmts(ts, q2) {
                            Some((rest, q3)) => Some((seq![(c, b)] + rest, q3)),
                            None => None,
                        }
                    } else {
                        None
                    },
                    None => None,
                }
            } else {
                None
            },
            None => None,
        }
    } else {
        Some((Seq::empty(), p))
    }
}

/// After `for`: `i in range loop stmts end for`.
#[verifier::opaque]
pub open spec fn g_for_stmt(ts: Seq<TokV>, p: int) -> Option<(SStmt, int)>
    decreases ts.len() - p, 1int,
{
    if kind_at(ts, p, TokKind::Ident) && kw(ts, p + 1, "in"@) {
        match g_expr(ts, p + 2) {
            Some((rg, q)) => if adv(p + 2, q, ts.len() as int) && kw(ts, q, "loop"@) {
                match g_stmt_list(ts, q + 1) {
                    Some((body, q2)) => if kw(ts, q2, "end"@) && kw(ts, q2 + 1, "for"@) {
                        Some((SStmt::For(ts[p].text, rg, body), q2 + 2))
                    } else {
                        None
                    },
                    None => None,
                }
            } else {
                None
            },
            None => None,
        }
    } else {
        None
    }
}

/// After `while`: `c loop stmts end while`.
#[verifier::opaque]
pub open spec fn g_while_stmt(ts: Seq<TokV>, p: int) -> Option<(SStmt, int)>
    decreases ts.len() - p, 1int,
{
    match g_expr(ts, p) {
        Some((c, q)) => if adv(p, q, ts.len() as int) && kw(ts, q, "loop"@) {
            match g_stmt_list(ts, q + 1) {
                Some((body, q2)) => if kw(ts, q2, "end"@) && kw(ts, q2 + 1, "while"@) {
                    Some((SStmt::While(c, body), q2 + 2))
                } else {
                    None
                },
                None => None,
            }
        } else {
            None
        },
        None => None,
    }
}

/// After `when`: `c then stmts (elsewhen c then stmts)* end when`; the
/// statements of every branch go into the one body, in order.
#[verifier::opaque]
pub open spec fn g_when_stmt(ts: Seq<TokV>, p: int) -> Option<(SStmt, int)>
    decreases ts.len() - p, 1int,
{
    match g_expr(ts, p) {
        Some((c, q)) => if adv(p, q, ts.len() as int) && kw(ts, q, "then"@) {
            match g_stmt_list(ts, q + 1) {
                Some((b, q2)) => if adv(q + 1, q2, ts.len() as int) {
                    match g_elsewhen_stmts(ts, q2) {
                        Some((more, q3)) => if kw(ts, q3, "end"@) && kw(ts, q3 + 1, "when"@) {
                            Some((SStmt::When(c, b + more, Seq::empty()), q3 + 2))
                        } else {
                            None
                        },
                        None => None,
                    }
                } else {
                    None
                },
                None => None,
            }
        } else {
            None
        },
        None => None,
    }
}

/// `(elsewhen c then stmts)*`, the statements joined.
#[verifier::opaque]
pub open spec fn g_elsewhen_stmts(ts: Seq<TokV>, p: int) -> Option<(Seq<SStmt>, int)>
    decreases ts.len() - p, 1int,
{
    if kw(ts, p, "elsewhen"@) {
        match g_expr(ts, p + 1) {
            Some((_c, q)) => if adv(p + 1, q, ts.len() as int) && kw(ts, q, "then"@) {
                match g_stmt_list(ts, q + 1) {
                    Some((b, q2)) => if adv(q + 1, q2, ts.len() as int) {
                        match g_elsewhen_stmts(ts, q2) {
                            Some((rest, q3)) => Some((b + rest, q3)),
                            None => None,
                        }
                    } else {
                        None
                    },
                    None => None,
                }
            } else {
                None
            },
            None => None,
        }
    } else {
        Some((Seq::empty(), p))
    }
}


pub proof fn unfold_stmt_list(ts: Seq<TokV>, p: int)
    ensures
        g_stmt_list(ts, p) == ({
            match g_stmt(ts, p) {
                None => Some((Seq::empty(), p)),
                Some((e, q)) => if p < q && q <= ts.len() {
                    match g_stmt_list(ts, q) {
                        Some((rest, q2)) => Some((seq![e] + rest, q2)),
                        None => None,
                    }
                } else {
                    None
                },
            }
        }),
{
    reveal(g_stmt_list);
    reveal(g_stmt);
}

pub proof fn unfold_stmt(ts: Seq<TokV>, p: int)
    ensures
        g_stmt(ts, p) == ({
            match g_stmt_body(ts, p) {
                Some((e, q)) => if adv(p, q, ts.len() as int) {
                    match stmt_end(ts, q) {
                        Some(q2) => Some((e, q2)),
                        None => None,
                    }
                } else {
                    None
                },
                None => None,
            }
        }),
{
    reveal(g_stmt);
    reveal(g_stmt_body);
}

pub proof fn unfold_stmt_body(ts: Seq<TokV>, p: int)
    ensures
        g_stmt_body(ts, p) == ({
            if kw(ts, p, "if"@) {
                g_if_stmt(ts, p + 1)
            } else if kw(ts, p, "for"@) {
                g_for_stmt(ts, p + 1)
            } else if kw(ts, p, "while"@) {
                g_while_stmt(ts, p + 1)
            } else if kw(ts, p, "when"@) {
                g_when_stmt(ts, p + 1)
            } else {
                match g_special_stmt(ts, p) {
                    Some(x) => Some(x),
                    None => match g_multi_stmt(ts, p) {
                        Some(x) => Some(x),
                        None => match g_assign_stmt(ts, p) {
                            Some(x) => Some(x),
                            None => match g_call(ts, p) {
                                Some((c, q)) => Some((SStmt::CallStmt(c), q)),
                                None => None,
                            },
                        },
                    },
                }
            }
        }),
{
    reveal(g_stmt_body);
    reveal(g_if_stmt);
    reveal(g_for_stmt);
    reveal(g_while_stmt);
    reveal(g_when_stmt);
}

pub proof fn unfold_if_stmt(ts: Seq<TokV>, p: int)
    ensures
        g_if_stmt(ts, p) == ({
            match g_expr(ts, p) {
                Some((c, q)) => if adv(p, q, ts.len() as int) && kw(ts, q, "then"@) {
                    match g_stmt_list(ts, q + 1) {
                        Some((th, q2)) => if adv(q + 1, q2, ts.len() as int) {
                            match g_elseif_stmts(ts, q2) {
                                Some((br, q3)) => if adv(q2, q3, ts.len() as int) && kw(ts, q3, "else"@) {
                                    match g_stmt_list(ts, q3 + 1) {
                                        Some((el, q4)) => if kw(ts, q4, "end"@) && kw(ts, q4 + 1, "if"@) {
                                            Some((SStmt::If(c, th, br, Some(el)), q4 + 2))
                                        } else {
                                            None
                                        },
                                        None => None,
                                    }
                                } else if kw(ts, q3, "end"@) && kw(ts, q3 + 1, "if"@) {
                                    Some((SStmt::If(c, th, br, None), q3 + 2))
                                } else {
                                    None
                                },
                                None => None,
                            }
                        } else {
                            None
                        },
                        None => None,
                    }
                } else {
                    None
                },
                None => None,
            }
        }),
{
    reveal(g_if_stmt);
    reveal(g_stmt_list);
    reveal(g_elseif_stmts);
}

pub proof fn unfold_elseif_stmts(ts: Seq<TokV>, p: int)
    ensures
        g_elseif_stmts(ts, p) == ({
            if kw(ts, p, "elseif"@) {
                match g_expr(ts, p + 1) {
                    Some((c, q)) => if adv(p + 1, q, ts.len() as int) && kw(ts, q, "then"@) {
                        match g_stmt_list(ts, q + 1) {
                            Some((b, q2)) => if adv(q + 1, q2, ts.len() as int) {
                                match g_elseif_stmts(ts, q2) {
                                    Some((rest, q3)) => Some((seq![(c, b)] + rest, q3)),
                                    None => None,
                                }
                            } else {
                                None
                            },
                            None => None,
                        }
                    } else {
                        None
                    },
                    None => None,
                }
            } else {
                Some((Seq::empty(), p))
            }
        }),
{
    reveal(g_elseif_stmts);
    reveal(g_stmt_list);
}

pub proof fn unfold_for_stmt(ts: Seq<TokV>, p: int)
    ensures
        g_for_stmt(ts, p) == ({
            if kind_at(ts, p, TokKind::Ident) && kw(ts, p + 1, "in"@) {
                match g_expr(ts, p + 2) {
                    Some((rg, q)) => if adv(p + 2, q, ts.len() as int) && kw(ts, q, "loop"@) {
                        match g_stmt_list(ts, q + 1) {
                            Some((body, q2)) => if kw(ts, q2, "end"@) && kw(ts, q2 + 1, "for"@) {
                                Some((SStmt::For(ts[p].text, rg, body), q2 + 2))
                            } else {
                                None
                            },
                            None => None,
                        }
                    } else {
                        None
                    },
                    None => None,
                }
            } else {
                None
            }
        }),
{
    reveal(g_for_stmt);
    reveal(g_stmt_list);
}

pub proof fn unfold_while_stmt(ts: Seq<TokV>, p: int)
    ensures
        g_while_stmt(ts, p) == ({
            match g_expr(ts, p) {
                Some((c, q)) => if adv(p, q, ts.len() as int) && kw(ts, q, "loop"@) {
                    match g_stmt_list(ts, q + 1) {
                        Some((body, q2)) => if kw(ts, q2, "end"@) && kw(ts, q2 + 1, "while"@) {
                            Some((SStmt::While(c, body), q2 + 2))
                        } else {
                            None
                        },
                        None => None,
                    }
                } else {
                    None
                },
                None => None,
            }
        }),
{
    reveal(g_while_stmt);
    reveal(g_stmt_list);
}

pub proof fn unfold_when_stmt(ts: Seq<TokV>, p: int)
    ensures
        g_when_stmt(ts, p) == ({
            match g_expr(ts, p) {
                Some((c, q)) => if adv(p, q, ts.len() as int) && kw(ts, q, "then"@) {
                    match g_stmt_list(ts, q + 1) {
                        Some((b, q2)) => if adv(q + 1, q2, ts.len() as int) {
                            match g_elsewhen_stmts(ts, q2) {
                                Some((more, q3)) => if kw(ts, q3, "end"@) && kw(ts, q3 + 1, "when"@) {
                                    Some((SStmt::When(c, b + more, Seq::empty()), q3 + 2))
                                } else {
                                    None
                                },
                                None => None,
                            }
                        } else {
                            None
                        },
                        None => None,
                    }
                } else {
                    None
                },
                None => None,
            }
        }),
{
    reveal(g_when_stmt);
    reveal(g_stmt_list);
    reveal(g_elsewhen_stmts);
}

pub proof fn unfold_elsewhen_stmts(ts: Seq<TokV>, p: int)
    ensures
        g_elsewhen_stmts(ts, p) == ({
            if kw(ts, p, "elsewhen"@) {
                match g_expr(ts, p + 1) {
                    Some((_c, q)) => if adv(p + 1, q, ts.len() as int) && kw(ts, q, "then"@) {
                        match g_stmt_list(ts, q + 1) {
                            Some((b, q2)) => if adv(q + 1, q2, ts.len() as int) {
                                match g_elsewhen_stmts(ts, q2) {
                                    Some((rest, q3)) => Some((b + rest, q3)),
                                    None => None,
                                }
                            } else {
                                None
                            },
                            None => None,
                        }
                    } else {
                        None
                    },
                    None => None,
                }
            } else {
                Some((Seq::empty(), p))
            }
        }),
{
    reveal(g_elsewhen_stmts);
    reveal(g_stmt_list);
}
} // verus!

verus! {



fn parse_special_eq(ts: &Vec<Token>, p: usize) -> (r: Option<(Equation, usize)>)
    requires
        p <= ts.len(),
    ensures
        oe(r) == g_special_eq(toks_view(ts@), p as int),
{
    if at_kw(ts, p, "connect") && at_sym(ts, p + 1, "(") {
        match parse_compref(ts, p + 2) {
            Some((a, q)) => if at_sym(ts, q, ",") {
                match parse_compref(ts, q + 1) {
                    Some((b, q2)) => if at_sym(ts, q2, ")") { Some((Equation::Connect(a, b), q2 + 1)) } else { None },
                    None => None,
                }
            } else {
                None
            },
            None => None,
        }
    } else if at_kw(ts, p, "reinit") && at_sym(ts, p + 1, "(") {
        match parse_compref(ts, p + 2) {
            Some((v, q)) => if at_sym(ts, q, ",") {
                match parse_expr(ts, q + 1) {
                    Some((e, q2)) => if at_sym(ts, q2, ")") {
                        Some((Equation::Reinit(expr_to_string_exec(&v), e), q2 + 1))
                    } else {
                        None
                    },
                    None => None,
                }
            } else {
                None
            },
            None => None,
        }
    } else if at_kw(ts, p, "assert") && at_sym(ts, p + 1, "(") {
        match parse_args(ts, p + 2) {
            Some((a, q)) => if at_sym(ts, q, ")") {
                let args = call_args_exec(&a);
                let c = nth_or_zero_exec(&args, 0);
                let m = nth_or_zero_exec(&args, 1);
                Some((Equation::Assert(c, m), q + 1))
            } else {
                None
            },
            None => None,
        }
    } else if at_kw(ts, p, "terminate") && at_sym(ts, p + 1, "(") {
        match parse_expr(ts, p + 2) {
            Some((m, q)) => if at_sym(ts, q, ")") { Some((Equation::Terminate(m), q + 1)) } else { None },
            None => None,
        }
    } else {
        None
    }
}

pub fn parse_ref_list(ts: &Vec<Token>, p: usize) -> (r: Option<(Vec<Expression>, usize)>)
    requires
        p <= ts.len(),
    ensures
        oxs(r) == g_ref_list(toks_view(ts@), p as int),
    decreases ts@.len() - p,
{
    match parse_compref(ts, p) {
        None => None,
        Some((a, q)) => {
            let ghost av = a@;
            let mut v = single(a);
            if p < q && q <= ts.len() && at_sym(ts, q, ",") {
                match parse_ref_list(ts, q + 1) {
                    Some((rest, q2)) => {
                        let ghost rv = exprs_view(rest@);
                        let mut i: usize = 0;
                        while i < rest.len()
                            invariant
                                i <= rest@.len(),
                                rv == exprs_view(rest@),
                                exprs_view(v@) == seq![av] + rv.take(i as int),
                            decreases rest@.len() - i,
                        {
                            let c = clone_expr(&rest[i]);
                            proof {
                                lemma_exprs_view_push(v@, c);
                                assert(rv.take(i + 1) =~= rv.take(i as int).push(c@));
                                assert(seq![av] + rv.take(i as int).push(c@) =~= (seq![av] + rv.take(i as int)).push(c@));
                            }
                            v.push(c);
                            i += 1;
                        }
                        assert(rv.take(rest@.len() as int) =~= rv);
                        Some((v, q2))
                    },
                    None => None,
                }
            } else {
                Some((v, q))
            }
        },
    }
}

fn parse_multi_eq(ts: &Vec<Token>, p: usize) -> (r: Option<(Equation, usize)>)
    requires
        p <= ts.len(),
    ensures
        oe(r) == g_multi_eq(toks_view(ts@), p as int),
{
    if at_sym(ts, p, "(") {
        match parse_ref_list(ts, p + 1) {
            Some((l, q)) => if at_sym(ts, q, ")") && at_sym(ts, q + 1, "=") {
                match parse_expr(ts, q + 2) {
                    Some((r, q2)) => Some((Equation::MultiAssign(l, r), q2)),
                    None => None,
                }
            } else {
                None
            },
            None => None,
        }
    } else {
        None
    }
}

fn parse_simple_eq(ts: &Vec<Token>, p: usize) -> (r: Option<(Equation, usize)>)
    requires
        p <= ts.len(),
    ensures
        oe(r) == g_simple_eq(toks_view(ts@), p as int),
{
    match parse_expr(ts, p) {
        Some((l, q)) => if at_sym(ts, q, "=") {
            match parse_expr(ts, q + 1) {
                Some((r, q2)) => Some((Equation::Simple(l, r), q2)),
                None => None,
            }
        } else {
            None
        },
        None => None,
    }
}

/// Prepends one equation to a list.
fn prepend_eq(e: Equation, rest: Vec<Equation>) -> (r: Vec<Equation>)
    ensures
        eqs_view(r@) == seq![e@] + eqs_view(rest@),
{
    let ghost ev = e@;
    let ghost rs = rest@;
    let mut v: Vec<Equation> = Vec::new();
    v.push(e);
    let ghost es = v@;
    let mut rest = rest;
    v.append(&mut rest);
    assert(v@ == es + rs);
    assert(es.len() == 1 && es[0]@ == ev);
    assert(eqs_view(v@) =~= seq![ev] + eqs_view(rs)) by {
        crate::ast::lemma_eqs_view(rs);
        crate::ast::lemma_eqs_view(v@);
        assert forall|k: int| 0 <= k < v@.len() implies #[trigger] eqs_view(v@)[k] == (seq![ev] + eqs_view(rs))[k] by {
            if k > 0 {
                assert(v@[k] == rs[k - 1]);
                assert(eqs_view(rs)[k - 1] == rs[k - 1]@);
            } else {
                assert(v@[0] == es[0]);
            }
            assert(eqs_view(v@)[k] == v@[k]@);
        }
    }
    v
}


/// `e` followed by the items of `rest`.
pub fn prepend<T>(e: T, rest: Vec<T>) -> (r: Vec<T>)
    ensures
        r@ == seq![e] + rest@,
{
    let ghost rs = rest@;
    let mut v: Vec<T> = Vec::new();
    v.push(e);
    let mut rest = rest;
    v.append(&mut rest);
    assert(v@ =~= seq![e] + rs);
    v
}

pub proof fn lemma_eqs_view_prepend(e: Equation, rest: Seq<Equation>)
    ensures
        eqs_view(seq![e] + rest) == seq![e@] + eqs_view(rest),
{
    let s = seq![e] + rest;
    crate::ast::lemma_eqs_view(s);
    crate::ast::lemma_eqs_view(rest);
    assert forall|k: int| 0 <= k < s.len() implies #[trigger] eqs_view(s)[k] == (seq![e@] + eqs_view(rest))[k] by {
        if k > 0 {
            assert(s[k] == rest[k - 1]);
            assert(eqs_view(rest)[k - 1] == rest[k - 1]@);
        }
        assert(eqs_view(s)[k] == s[k]@);
    }
    assert(eqs_view(s) =~= seq![e@] + eqs_view(rest));
}

pub proof fn lemma_eq_branches_view_prepend(e: (Expression, Vec<Equation>), rest: Seq<(Expression, Vec<Equation>)>)
    ensures
        eq_branches_view(seq![e] + rest) == seq![(e.0@, eqs_view(e.1@))] + eq_branches_view(rest),
{
    let s = seq![e] + rest;
    crate::ast::lemma_eq_branches_view(s);
    crate::ast::lemma_eq_branches_view(rest);
    assert forall|k: int| 0 <= k < s.len() implies #[trigger] eq_branches_view(s)[k] == (seq![(e.0@, eqs_view(e.1@))] + eq_branches_view(rest))[k] by {
        if k > 0 {
            assert(s[k] == rest[k - 1]);
            assert(eq_branches_view(rest)[k - 1] == (rest[k - 1].0@, eqs_view(rest[k - 1].1@)));
        }
        assert(eq_branches_view(s)[k] == (s[k].0@, eqs_view(s[k].1@)));
    }
    assert(eq_branches_view(s) =~= seq![(e.0@, eqs_view(e.1@))] + eq_branches_view(rest));
}

fn parse_eq_list(ts: &Vec<Token>, p: usize) -> (r: Option<(Vec<Equation>, usize)>)
    requires
        p <= ts.len(),
    ensures
        oes(r) == g_eq_list(toks_view(ts@), p as int),
    decreases ts@.len() - p, 7int,
{
    proof {
        unfold_eq_list(toks_view(ts@), p as int);
    }
    match parse_eq_stmt(ts, p) {
        None => {
            let v: Vec<Equation> = Vec::new();
            assert(eqs_view(v@) =~= Seq::<SEquation>::empty());
            Some((v, p))
        },
        Some((e, q)) => {
            if p < q && q <= ts.len() {
                match parse_eq_list(ts, q) {
                    Some((rest, q2)) => {
                        proof {
                            lemma_eqs_view_prepend(e, rest@);
                        }
                        Some((prepend(e, rest), q2))
                    },
                    None => None,
                }
            } else {
                None
            }
        },
    }
}

fn parse_eq_stmt(ts: &Vec<Token>, p: usize) -> (r: Option<(Equation, usize)>)
    requires
        p <= ts.len(),
    ensures
        oe(r) == g_eq_stmt(toks_view(ts@), p as int),
    decreases ts@.len() - p, 6int,
{
    proof {
        unfold_eq_stmt(toks_view(ts@), p as int);
    }
    match parse_eq_body(ts, p) {
        Some((e, q)) => {
            if p <= q && q <= ts.len() {
                match stmt_end_exec(ts, q) {
                    Some(q2) => Some((e, q2)),
                    None => None,
                }
            } else {
                None
            }
        },
        None => None,
    }
}

fn parse_eq_body(ts: &Vec<Token>, p: usize) -> (r: Option<(Equation, usize)>)
    requires
        p <= ts.len(),
    ensures
        oe(r) == g_eq_body(toks_view(ts@), p as int),
    decreases ts@.len() - p, 5int,
{
    proof {
        unfold_eq_body(toks_view(ts@), p as int);
    }
    if at_kw(ts, p, "if") {
        parse_if_eq(ts, p + 1)
    } else if at_kw(ts, p, "for") {
        parse_for_eq(ts, p + 1)
    } else if at_kw(ts, p, "when") {
        parse_when_eq(ts, p + 1)
    } else {
        match parse_special_eq(ts, p) {
            Some(x) => Some(x),
            None => match parse_multi_eq(ts, p) {
                Some(x) => Some(x),
                None => parse_simple_eq(ts, p),
            },
        }
    }
}

fn parse_if_eq(ts: &Vec<Token>, p: usize) -> (r: Option<(Equation, usize)>)
    requires
        p <= ts.len(),
    ensures
        oe(r) == g_if_eq(toks_view(ts@), p as int),
    decreases ts@.len() - p, 1int,
{
    proof {
        unfold_if_eq(toks_view(ts@), p as int);
    }
    match parse_expr(ts, p) {
        Some((c, q)) => {
            if p <= q && q <= ts.len() && at_kw(ts, q, "then") {
                match parse_eq_list(ts, q + 1) {
                    Some((th, q2)) => {
                        if q + 1 <= q2 && q2 <= ts.len() {
                            match parse_elseif_eqs(ts, q2) {
                                Some((br, q3)) => {
                                    if q2 <= q3 && q3 <= ts.len() && at_kw(ts, q3, "else") {
                                        match parse_eq_list(ts, q3 + 1) {
                                            Some((el, q4)) => if at_kw(ts, q4, "end") && at_kw(ts, q4 + 1, "if") {
                                                Some((Equation::If(c, th, br, Some(el)), q4 + 2))
                                            } else {
                                                None
                                            },
                                            None => None,
                                        }
                                    } else if at_kw(ts, q3, "end") && at_kw(ts, q3 + 1, "if") {
                                        Some((Equation::If(c, th, br, None), q3 + 2))
                                    } else {
                                        None
                                    }
                                },
                                None => None,
                            }
                        } else {
                            None
                        }
                    },
                    None => None,
                }
            } else {
                None
            }
        },
        None => None,
    }
}

fn parse_elseif_eqs(ts: &Vec<Token>, p: usize) -> (r: Option<(Vec<(Expression, Vec<Equation>)>, usize)>)
    requires
        p <= ts.len(),
    ensures
        oeb(r) == g_elseif_eqs(toks_view(ts@), p as int),
    decreases ts@.len() - p, 1int,
{
    proof {
        unfold_elseif_eqs(toks_view(ts@), p as int);
    }
    if at_kw(ts, p, "elseif") {
        match parse_expr(ts, p + 1) {
            Some((c, q)) => {
                if p + 1 <= q && q <= ts.len() && at_kw(ts, q, "then") {
                    match parse_eq_list(ts, q + 1) {
                        Some((b, q2)) => {
                            if q + 1 <= q2 && q2 <= ts.len() {
                                match parse_elseif_eqs(ts, q2) {
                                    Some((rest, q3)) => {
                                        proof {
                                            lemma_eq_branches_view_prepend((c, b), rest@);
                                        }
                                        Some((prepend((c, b), rest), q3))
                                    },
                                    None => None,
                                }
                            } else {
                                None
                            }
                        },
                        None => None,
                    }
                } else {
                    None
                }
            },
            None => None,
        }
    } else {
        let v: Vec<(Expression, Vec<Equation>)> = Vec::new();
        assert(eq_branches_view(v@) =~= Seq::<(SExpr, Seq<SEquation>)>::empty());
        Some((v, p))
    }
}

fn parse_when_eq(ts: &Vec<Token>, p: usize) -> (r: Option<(Equation, usize)>)
    requires
        p <= ts.len(),
    ensures
        oe(r) == g_when_eq(toks_view(ts@), p as int),
    decreases ts@.len() - p, 1int,
{
    proof {
        unfold_when_eq(toks_view(ts@), p as int);
    }
    match parse_expr(ts, p) {
        Some((c, q)) => {
            if p <= q && q <= ts.len() && at_kw(ts, q, "then") {
                match parse_eq_list(ts, q + 1) {
                    Some((b, q2)) => {
                        if q + 1 <= q2 && q2 <= ts.len() {
                            match parse_elsewhen_eqs(ts, q2) {
                                Some((br, q3)) => if at_kw(ts, q3, "end") && at_kw(ts, q3 + 1, "when") {
                                    Some((Equation::When(c, b, br), q3 + 2))
                                } else {
                                    None
                                },
                                None => None,
                            }
                        } else {
                            None
                        }
                    },
                    None => None,
                }
            } else {
                None
            }
        },
        None => None,
    }
}

fn parse_elsewhen_eqs(ts: &Vec<Token>, p: usize) -> (r: Option<(Vec<(Expression, Vec<Equation>)>, usize)>)
    requires
        p <= ts.len(),
    ensures
        oeb(r) == g_elsewhen_eqs(toks_view(ts@), p as int),
    decreases ts@.len() - p, 1int,
{
    proof {
        unfold_elsewhen_eqs(toks_view(ts@), p as int);
    }
    if at_kw(ts, p, "elsewhen") {
        match parse_expr(ts, p + 1) {
            Some((c, q)) => {
                if p + 1 <= q && q <= ts.len() && at_kw(ts, q, "then") {
                    match parse_eq_list(ts, q + 1) {
                        Some((b, q2)) => {
                            if q + 1 <= q2 && q2 <= ts.len() {
                                match parse_elsewhen_eqs(ts, q2) {
                                    Some((rest, q3)) => {
                                        proof {
                                            lemma_eq_branches_view_prepend((c, b), rest@);
                                        }
                                        Some((prepend((c, b), rest), q3))
                                    },
                                    None => None,
                                }
                            } else {
                                None
                            }
                        },
                        None => None,
                    }
                } else {
                    None
                }
            },
            None => None,
        }
    } else {
        let v: Vec<(Expression, Vec<Equation>)> = Vec::new();
        assert(eq_branches_view(v@) =~= Seq::<(SExpr, Seq<SEquation>)>::empty());
        Some((v, p))
    }
}

fn parse_for_eq(ts: &Vec<Token>, p: usize) -> (r: Option<(Equation, usize)>)
    requires
        p <= ts.len(),
    ensures
        oe(r) == g_for_eq(toks_view(ts@), p as int),
    decreases ts@.len() - p, 1int,
{
    proof {
        unfold_for_eq(toks_view(ts@), p as int);
    }
    if at_kind(ts, p, TokKind::Ident) && at_kw(ts, p + 1, "in") {
        match parse_lor(ts, p + 2) {
            Some((a, q)) => if at_sym(ts, q, ":") {
                match parse_lor(ts, q + 1) {
                    Some((b, q2)) => {
                        if p + 2 <= q2 && q2 <= ts.len() && at_kw(ts, q2, "loop") {
                            match parse_eq_list(ts, q2 + 1) {
                                Some((body, q3)) => if at_kw(ts, q3, "end") && at_kw(ts, q3 + 1, "for") {
                                    let kept = for_body_exec(&body);
                                    Some((Equation::For(ts[p].text.clone(), Box::new(a), Box::new(b), kept), q3 + 2))
                                } else {
                                    None
                                },
                                None => None,
                            }
                        } else {
                            None
                        }
                    },
                    None => None,
                }
            } else {
                None
            },
            None => None,
        }
    } else {
        None
    }
}

/// Reads the equations of a section from `p` on, up to the first token that
/// does not begin an equation.
pub fn parse_equations(ts: &Vec<Token>, p: usize) -> (r: (Vec<Equation>, usize))
    requires
        p <= ts.len(),
    ensures
        g_eq_list(toks_view(ts@), p as int) == Some((eqs_view(r.0@), r.1 as int)),
{
    proof {
        lemma_eq_list_some(toks_view(ts@), p as int);
    }
    match parse_eq_list(ts, p) {
        Some(x) => x,
        None => (Vec::new(), p),
    }
}


/// A parse result holding a statement.
pub open spec fn os(r: Option<(AlgorithmStatement, usize)>) -> Option<(SStmt, int)> {
    match r {
        Some((e, q)) => Some((e@, q as int)),
        None => None,
    }
}

/// A parse result holding statements.
pub open spec fn oss(r: Option<(Vec<AlgorithmStatement>, usize)>) -> Option<(Seq<SStmt>, int)> {
    match r {
        Some((e, q)) => Some((stmts_view(e@), q as int)),
        None => None,
    }
}

/// A parse result holding guarded branches of statements.
pub open spec fn osb(r: Option<(Vec<(Expression, Vec<AlgorithmStatement>)>, usize)>) -> Option<(Seq<(SExpr, Seq<SStmt>)>, int)> {
    match r {
        Some((e, q)) => Some((stmt_branches_view(e@), q as int)),
        None => None,
    }
}

pub proof fn lemma_stmts_view_concat(a: Seq<AlgorithmStatement>, b: Seq<AlgorithmStatement>)
    ensures
        stmts_view(a + b) == stmts_view(a) + stmts_view(b),
{
    let s = a + b;
    crate::model::lemma_stmts_view(s);
    crate::model::lemma_stmts_view(a);
    crate::model::lemma_stmts_view(b);
    assert forall|k: int| 0 <= k < s.len() implies #[trigger] stmts_view(s)[k] == (stmts_view(a) + stmts_view(b))[k] by {
        if k < a.len() {
            assert(s[k] == a[k]);
            assert(stmts_view(a)[k] == a[k]@);
        } else {
            assert(s[k] == b[k - a.len()]);
            assert(stmts_view(b)[k - a.len()] == b[k - a.len()]@);
        }
        assert(stmts_view(s)[k] == s[k]@);
    }
    assert(stmts_view(s) =~= stmts_view(a) + stmts_view(b));
}

pub proof fn lemma_stmt_branches_view_prepend(e: (Expression, Vec<AlgorithmStatement>), rest: Seq<(Expression, Vec<AlgorithmStatement>)>)
    ensures
        stmt_branches_view(seq![e] + rest) == seq![(e.0@, stmts_view(e.1@))] + stmt_branches_view(rest),
{
    let s = seq![e] + rest;
    crate::model::lemma_stmt_branches_view(s);
    crate::model::lemma_stmt_branches_view(rest);
    assert forall|k: int| 0 <= k < s.len() implies #[trigger] stmt_branches_view(s)[k] == (seq![(e.0@, stmts_view(e.1@))] + stmt_branches_view(rest))[k] by {
        if k > 0 {
            assert(s[k] == rest[k - 1]);
            assert(stmt_branches_view(rest)[k - 1] == (rest[k - 1].0@, stmts_view(rest[k - 1].1@)));
        }
        assert(stmt_branches_view(s)[k] == (s[k].0@, stmts_view(s[k].1@)));
    }
    assert(stmt_branches_view(s) =~= seq![(e.0@, stmts_view(e.1@))] + stmt_branches_view(rest));
}

/// `a` followed by `b`.
fn join_stmts(a: Vec<AlgorithmStatement>, b: Vec<AlgorithmStatement>) -> (r: Vec<AlgorithmStatement>)
    ensures
        stmts_view(r@) == stmts_view(a@) + stmts_view(b@),
{
    let ghost av = a@;
    let ghost bv = b@;
    let mut a = a;
    let mut b = b;
    a.append(&mut b);
    proof {
        lemma_stmts_view_concat(av, bv);
    }
    a
}

fn parse_opt_ref_list(ts: &Vec<Token>, p: usize) -> (r: Option<(Vec<Expression>, usize)>)
    requires
        p <= ts.len(),
    ensures
        oxs(r) == g_opt_ref_list(toks_view(ts@), p as int),
    decreases ts@.len() - p,
{
    let (first, q) = match parse_compref(ts, p) {
        Some((a, q)) => (single(a), q),
        None => {
            let v: Vec<Expression> = Vec::new();
            assert(exprs_view(v@) =~= Seq::<SExpr>::empty());
            (v, p)
        },
    };
    if p <= q && q <= ts.len() && at_sym(ts, q, ",") {
        match parse_opt_ref_list(ts, q + 1) {
            Some((rest, q2)) => {
                let ghost fv = first@;
                let ghost rv = rest@;
                let mut first = first;
                let mut rest = rest;
                first.append(&mut rest);
                proof {
                    crate::ast::lemma_exprs_view(first@);
                    crate::ast::lemma_exprs_view(fv);
                    crate::ast::lemma_exprs_view(rv);
                    assert forall|k: int| 0 <= k < first@.len() implies #[trigger] exprs_view(first@)[k] == (exprs_view(fv) + exprs_view(rv))[k] by {
                        if k < fv.len() {
                            assert(exprs_view(fv)[k] == fv[k]@);
                        } else {
                            assert(exprs_view(rv)[k - fv.len()] == rv[k - fv.len()]@);
                        }
                        assert(exprs_view(first@)[k] == first@[k]@);
                    }
                    assert(exprs_view(first@) =~= exprs_view(fv) + exprs_view(rv));
                }
                Some((first, q2))
            },
            None => None,
        }
    } else if p <= q && q <= ts.len() {
        Some((first, q))
    } else {
        None
    }
}

fn parse_multi_stmt(ts: &Vec<Token>, p: usize) -> (r: Option<(AlgorithmStatement, usize)>)
    requires
        p <= ts.len(),
    ensures
        os(r) == g_multi_stmt(toks_view(ts@), p as int),
{
    if at_sym(ts, p, "(") {
        match parse_opt_ref_list(ts, p + 1) {
            Some((l, q)) => if at_sym(ts, q, ")") && at_sym(ts, q + 1, ":=") {
                match parse_expr(ts, q + 2) {
                    Some((r, q2)) => Some((AlgorithmStatement::MultiAssign(l, r), q2)),
                    None => None,
                }
            } else {
                None
            },
            None => None,
        }
    } else {
        None
    }
}

fn parse_assign_stmt(ts: &Vec<Token>, p: usize) -> (r: Option<(AlgorithmStatement, usize)>)
    requires
        p <= ts.len(),
    ensures
        os(r) == g_assign_stmt(toks_view(ts@), p as int),
{
    match parse_compref(ts, p) {
        Some((l, q)) => if at_sym(ts, q, ":=") {
            match parse_expr(ts, q + 1) {
                Some((r, q2)) => Some((AlgorithmStatement::Assignment(l, r), q2)),
                None => None,
            }
        } else {
            None
        },
        None => None,
    }
}

fn parse_special_stmt(ts: &Vec<Token>, p: usize) -> (r: Option<(AlgorithmStatement, usize)>)
    requires
        p <= ts.len(),
    ensures
        os(r) == g_special_stmt(toks_view(ts@), p as int),
{
    if at_kw(ts, p, "annotation") && at_sym(ts, p + 1, "(") {
        match close_paren_exec(ts, p + 1) {
            Some(q) => Some((AlgorithmStatement::NoOp, q)),
            None => None,
        }
    } else if at_kw(ts, p, "break") || at_kw(ts, p, "return") {
        Some((AlgorithmStatement::NoOp, p + 1))
    } else {
        match parse_special_eq(ts, p) {
            Some((Equation::Reinit(v, e), q)) => Some((AlgorithmStatement::Reinit(v, e), q)),
            Some((Equation::Assert(c, m), q)) => Some((AlgorithmStatement::Assert(c, m), q)),
            Some((Equation::Terminate(m), q)) => Some((AlgorithmStatement::Terminate(m), q)),
            _ => None,
        }
    }
}

fn parse_stmt_list(ts: &Vec<Token>, p: usize) -> (r: Option<(Vec<AlgorithmStatement>, usize)>)
    requires
        p <= ts.len(),
    ensures
        oss(r) == g_stmt_list(toks_view(ts@), p as int),
    decreases ts@.len() - p, 7int,
{
    proof {
        unfold_stmt_list(toks_view(ts@), p as int);
    }
    match parse_stmt(ts, p) {
        None => {
            let v: Vec<AlgorithmStatement> = Vec::new();
            assert(stmts_view(v@) =~= Seq::<SStmt>::empty());
            Some((v, p))
        },
        Some((e, q)) => {
            if p < q && q <= ts.len() {
                match parse_stmt_list(ts, q) {
                    Some((rest, q2)) => {
                        let one = prepend(e, Vec::new());
                        proof {
                            assert(stmts_view(one@) == seq![e@]) by {
                                assert(one@ =~= seq![e]);
                                crate::model::lemma_stmts_view(one@);
                                assert(stmts_view(one@) =~= seq![e@]);
                            }
                        }
                        Some((join_stmts(one, rest), q2))
                    },
                    None => None,
                }
            } else {
                None
            }
        },
    }
}

fn parse_stmt(ts: &Vec<Token>, p: usize) -> (r: Option<(AlgorithmStatement, usize)>)
    requires
        p <= ts.len(),
    ensures
        os(r) == g_stmt(toks_view(ts@), p as int),
    decreases ts@.len() - p, 6int,
{
    proof {
        unfold_stmt(toks_view(ts@), p as int);
    }
    match parse_stmt_body(ts, p) {
        Some((e, q)) => {
            if p <= q && q <= ts.len() {
                match stmt_end_exec(ts, q) {
                    Some(q2) => Some((e, q2)),
                    None => None,
                }
            } else {
                None
            }
        },
        None => None,
    }
}

fn parse_stmt_body(ts: &Vec<Token>, p: usize) -> (r: Option<(AlgorithmStatement, usize)>)
    requires
        p <= ts.len(),
    ensures
        os(r) == g_stmt_body(toks_view(ts@), p as int),
    decreases ts@.len() - p, 5int,
{
    proof {
        unfold_stmt_body(toks_view(ts@), p as int);
    }
    if at_kw(ts, p, "if") {
        parse_if_stmt(ts, p + 1)
    } else if at_kw(ts, p, "for") {
        parse_for_stmt(ts, p + 1)
    } else if at_kw(ts, p, "while") {
        parse_while_stmt(ts, p + 1)
    } else if at_kw(ts, p, "when") {
        parse_when_stmt(ts, p + 1)
    } else {
        match parse_special_stmt(ts, p) {
            Some(x) => Some(x),
            None => match parse_multi_stmt(ts, p) {
                Some(x) => Some(x),
                None => match parse_assign_stmt(ts, p) {
                    Some(x) => Some(x),
                    None => match parse_call(ts, p) {
                        Some((c, q)) => Some((AlgorithmStatement::CallStmt(c), q)),
                        None => None,
                    },
                },
            },
        }
    }
}

fn parse_if_stmt(ts: &Vec<Token>, p: usize) -> (r: Option<(AlgorithmStatement, usize)>)
    requires
        p <= ts.len(),
    ensures
        os(r) == g_if_stmt(toks_view(ts@), p as int),
    decreases ts@.len() - p, 1int,
{
    proof {
        unfold_if_stmt(toks_view(ts@), p as int);
    }
    match parse_expr(ts, p) {
        Some((c, q)) => {
            if p <= q && q <= ts.len() && at_kw(ts, q, "then") {
                match parse_stmt_list(ts, q + 1) {
                    Some((th, q2)) => {
                        if q + 1 <= q2 && q2 <= ts.len() {
                            match parse_elseif_stmts(ts, q2) {
                                Some((br, q3)) => {
                                    if q2 <= q3 && q3 <= ts.len() && at_kw(ts, q3, "else") {
                                        match parse_stmt_list(ts, q3 + 1) {
                                            Some((el, q4)) => if at_kw(ts, q4, "end") && at_kw(ts, q4 + 1, "if") {
                                                Some((AlgorithmStatement::If(c, th, br, Some(el)), q4 + 2))
                                            } else {
                                                None
                                            },
                                            None => None,
                                        }
                                    } else if at_kw(ts, q3, "end") && at_kw(ts, q3 + 1, "if") {
                                        Some((AlgorithmStatement::If(c, th, br, None), q3 + 2))
                                    } else {
                                        None
                                    }
                                },
                                None => None,
                            }
                        } else {
                            None
                        }
                    },
                    None => None,
                }
            } else {
                None
            }
        },
        None => None,
    }
}

fn parse_elseif_stmts(ts: &Vec<Token>, p: usize) -> (r: Option<(Vec<(Expression, Vec<AlgorithmStatement>)>, usize)>)
    requires
        p <= ts.len(),
    ensures
        osb(r) == g_elseif_stmts(toks_view(ts@), p as int),
    decreases ts@.len() - p, 1int,
{
    proof {
        unfold_elseif_stmts(toks_view(ts@), p as int);
    }
    if at_kw(ts, p, "elseif") {
        match parse_expr(ts, p + 1) {
            Some((c, q)) => {
                if p + 1 <= q && q <= ts.len() && at_kw(ts, q, "then") {
                    match parse_stmt_list(ts, q + 1) {
                        Some((b, q2)) => {
                            if q + 1 <= q2 && q2 <= ts.len() {
                                match parse_elseif_stmts(ts, q2) {
                                    Some((rest, q3)) => {
                                        proof {
                                            lemma_stmt_branches_view_prepend((c, b), rest@);
                                        }
                                        Some((prepend((c, b), rest), q3))
                                    },
                                    None => None,
                                }
                            } else {
                                None
                            }
                        },
                        None => None,
                    }
                } else {
                    None
                }
            },
            None => None,
        }
    } else {
        let v: Vec<(Expression, Vec<AlgorithmStatement>)> = Vec::new();
        assert(stmt_branches_view(v@) =~= Seq::<(SExpr, Seq<SStmt>)>::empty());
        Some((v, p))
    }
}

fn parse_for_stmt(ts: &Vec<Token>, p: usize) -> (r: Option<(AlgorithmStatement, usize)>)
    requires
        p <= ts.len(),
    ensures
        os(r) == g_for_stmt(toks_view(ts@), p as int),
    decreases ts@.len() - p, 1int,
{
    proof {
        unfold_for_stmt(toks_view(ts@), p as int);
    }
    if at_kind(ts, p, TokKind::Ident) && at_kw(ts, p + 1, "in") {
        match parse_expr(ts, p + 2) {
            Some((rg, q)) => {
                if p + 2 <= q && q <= ts.len() && at_kw(ts, q, "loop") {
                    match parse_stmt_list(ts, q + 1) {
                        Some((body, q2)) => if at_kw(ts, q2, "end") && at_kw(ts, q2 + 1, "for") {
                            Some((AlgorithmStatement::For(ts[p].text.clone(), Box::new(rg), body), q2 + 2))
                        } else {
                            None
                        },
                        None => None,
                    }
                } else {
                    None
                }
            },
            None => None,
        }
    } else {
        None
    }
}

fn parse_while_stmt(ts: &Vec<Token>, p: usize) -> (r: Option<(AlgorithmStatement, usize)>)
    requires
        p <= ts.len(),
    ensures
        os(r) == g_while_stmt(toks_view(ts@), p as int),
    decreases ts@.len() - p, 1int,
{
    proof {
        unfold_while_stmt(toks_view(ts@), p as int);
    }
    match parse_expr(ts, p) {
        Some((c, q)) => {
            if p <= q && q <= ts.len() && at_kw(ts, q, "loop") {
                match parse_stmt_list(ts, q + 1) {
                    Some((body, q2)) => if at_kw(ts, q2, "end") && at_kw(ts, q2 + 1, "while") {
                        Some((AlgorithmStatement::While(c, body), q2 + 2))
                    } else {
                        None
                    },
                    None => None,
                }
            } else {
                None
            }
        },
        None => None,
    }
}

fn parse_when_stmt(ts: &Vec<Token>, p: usize) -> (r: Option<(AlgorithmStatement, usize)>)
    requires
        p <= ts.len(),
    ensures
        os(r) == g_when_stmt(toks_view(ts@), p as int),
    decreases ts@.len() - p, 1int,
{
    proof {
        unfold_when_stmt(toks_view(ts@), p as int);
    }
    match parse_expr(ts, p) {
        Some((c, q)) => {
            if p <= q && q <= ts.len() && at_kw(ts, q, "then") {
                match parse_stmt_list(ts, q + 1) {
                    Some((b, q2)) => {
                        if q + 1 <= q2 && q2 <= ts.len() {
                            match parse_elsewhen_stmts(ts, q2) {
                                Some((more, q3)) => if at_kw(ts, q3, "end") && at_kw(ts, q3 + 1, "when") {
                                    let body = join_stmts(b, more);
                                    let none: Vec<(Expression, Vec<AlgorithmStatement>)> = Vec::new();
                                    assert(stmt_branches_view(none@) =~= Seq::<(SExpr, Seq<SStmt>)>::empty());
                                    Some((AlgorithmStatement::When(c, body, none), q3 + 2))
                                } else {
                                    None
                                },
                                None => None,
                            }
                        } else {
                            None
                        }
                    },
                    None => None,
                }
            } else {
                None
            }
        },
        None => None,
    }
}

fn parse_elsewhen_stmts(ts: &Vec<Token>, p: usize) -> (r: Option<(Vec<AlgorithmStatement>, usize)>)
    requires
        p <= ts.len(),
    ensures
        oss(r) == g_elsewhen_stmts(toks_view(ts@), p as int),
    decreases ts@.len() - p, 1int,
{
    proof {
        unfold_elsewhen_stmts(toks_view(ts@), p as int);
    }
    if at_kw(ts, p, "elsewhen") {
        match parse_expr(ts, p + 1) {
            Some((_c, q)) => {
                if p + 1 <= q && q <= ts.len() && at_kw(ts, q, "then") {
                    match parse_stmt_list(ts, q + 1) {
                        Some((b, q2)) => {
                            if q + 1 <= q2 && q2 <= ts.len() {
                                match parse_elsewhen_stmts(ts, q2) {
                                    Some((rest, q3)) => Some((join_stmts(b, rest), q3)),
                                    None => None,
                                }
                            } else {
                                None
                            }
                        },
                        None => None,
                    }
                } else {
                    None
                }
            },
            None => None,
        }
    } else {
        let v: Vec<AlgorithmStatement> = Vec::new();
        assert(stmts_view(v@) =~= Seq::<SStmt>::empty());
        Some((v, p))
    }
}

/// Reads one statement of an algorithm section at `p`.
pub fn parse_statement(ts: &Vec<Token>, p: usize) -> (r: Option<(AlgorithmStatement, usize)>)
    requires
        p <= ts.len(),
    ensures
        os(r) == g_stmt(toks_view(ts@), p as int),
{
    parse_stmt(ts, p)
}

/// A statement, when read, ends after where it began and within the tokens.
pub proof fn lemma_stmt_advances(ts: Seq<TokV>, p: int)
    requires
        0 <= p <= ts.len(),
    ensures
        g_stmt(ts, p) matches Some((_e, q)) ==> p < q <= ts.len(),
{
    unfold_stmt(ts, p);
    match g_stmt_body(ts, p) {
        Some((e, q)) => {
            if adv(p, q, ts.len() as int) {
                lemma_stmt_end(ts, q);
            }
        },
        None => {},
    }
}

} // verus!
