//! The expression grammar of Modelica over tokens. Each `g_*` function states
//! what one rule reads at a token position: the expression and the position
//! after it, or nothing where the tokens do not form the rule. Each `parse_*`
//! function reads the rule and returns exactly that.
//!
//! From loosest to tightest: `if`-expressions, ranges `a:b` and `a:b:c`, `or`,
//! `and`, one relation, `+`/`-`, `*`/`/` (a sign in front applies to the whole
//! product), `^`, then primaries.

use vstd::prelude::*;
use crate::ast::{Expression, Operator, SExpr, exprs_view, group_ast_views, clone_expr, lemma_exprs_view_push};
use crate::grammar::{adv, at_kind, at_kw, at_name, at_sym, g_dotted, is_name, kind_at, kw, parse_dotted, sym};
use crate::lexer::{TokKind, TokV, Token, toks_view};
use crate::text::{chars_of, eq_ignore_case, range_eq_ignore_case, replace_all, replace_str};

verus! {

broadcast use {vstd::std_specs::vec::axiom_spec_len, group_ast_views};

/// One argument of a call.
pub enum Arg {
    Pos(Expression),
    Named(String, Expression),
    Skipped,
}

/// Mathematical value of an [`Arg`].
pub enum SArg {
    Pos(SExpr),
    Named(Seq<char>, SExpr),
    Skipped,
}

impl Arg {
    pub open spec fn view(&self) -> SArg {
        match self {
            Arg::Pos(e) => SArg::Pos(e@),
            Arg::Named(n, e) => SArg::Named(n@, e@),
            Arg::Skipped => SArg::Skipped,
        }
    }
}

pub open spec fn args_view(s: Seq<Arg>) -> Seq<SArg> {
    s.map_values(|a: Arg| a@)
}

/// A parse result: an expression and the position after it.
pub open spec fn ov(r: Option<(Expression, usize)>) -> Option<(SExpr, int)> {
    match r {
        Some((e, q)) => Some((e@, q as int)),
        None => None,
    }
}

/// A parse result holding a list of expressions.
pub open spec fn ovs(r: Option<(Vec<Expression>, usize)>) -> Option<(Seq<SExpr>, int)> {
    match r {
        Some((e, q)) => Some((exprs_view(e@), q as int)),
        None => None,
    }
}

/// A parse result holding a list of arguments.
pub open spec fn ova(r: Option<(Vec<Arg>, usize)>) -> Option<(Seq<SArg>, int)> {
    match r {
        Some((a, q)) => Some((args_view(a@), q as int)),
        None => None,
    }
}

/// A parse result holding one argument.
pub open spec fn oa(r: Option<(Arg, usize)>) -> Option<(SArg, int)> {
    match r {
        Some((a, q)) => Some((a@, q as int)),
        None => None,
    }
}

/// A position, if any.
pub open spec fn op(r: Option<usize>) -> Option<int> {
    match r {
        Some(q) => Some(q as int),
        None => None,
    }
}

/// The text of a string literal with its escapes `\"`, `\\`, `\n`, `\r`, `\t`
/// replaced, one kind after the other in that order.
pub open spec fn unescape(s: Seq<char>) -> Seq<char> {
    replace_all(
        replace_all(
            replace_all(replace_all(replace_all(s, "\\\""@, "\""@), "\\\\"@, "\\"@), "\\n"@, "\n"@),
            "\\r"@,
            "\r"@,
        ),
        "\\t"@,
        "\t"@,
    )
}

/// Adjacent string literals from `p` on, unescaped and joined.
pub open spec fn g_str_run(ts: Seq<TokV>, p: int) -> (Seq<char>, int)
    decreases ts.len() - p,
{
    if kind_at(ts, p, TokKind::Str) {
        let (rest, q) = g_str_run(ts, p + 1);
        (unescape(ts[p].text) + rest, q)
    } else {
        (Seq::empty(), p)
    }
}

/// The expressions of the arguments: positional ones as they are, a named one
/// `n = v` as `named("n", v)`; skipped ones leave nothing.
pub open spec fn call_args(s: Seq<SArg>) -> Seq<SExpr>
    decreases s.len(),
{
    if s.len() == 0 {
        Seq::empty()
    } else {
        let r = call_args(s.drop_last());
        match s.last() {
            SArg::Pos(e) => r.push(e),
            SArg::Named(n, v) => r.push(
                SExpr::Call("named"@, seq![SExpr::StringLiteral(n), v]),
            ),
            SArg::Skipped => r,
        }
    }
}

/// The positional arguments, in order.
pub open spec fn positional(s: Seq<SArg>) -> Seq<SExpr>
    decreases s.len(),
{
    if s.len() == 0 {
        Seq::empty()
    } else {
        let r = positional(s.drop_last());
        match s.last() {
            SArg::Pos(e) => r.push(e),
            _ => r,
        }
    }
}

/// A call of `name` on `args`; the clock operators (`sample`, `interval`, `hold`,
/// `previous` with one argument; `subSample`, `superSample`, `shiftSample` with
/// two), in any ASCII case, become their own nodes.
pub open spec fn build_call(name: Seq<char>, args: Seq<SExpr>) -> SExpr {
    if eq_ignore_case(name, "sample"@) && args.len() == 1 {
        SExpr::Sample(Box::new(args[0]))
    } else if eq_ignore_case(name, "interval"@) && args.len() == 1 {
        SExpr::Interval(Box::new(args[0]))
    } else if eq_ignore_case(name, "hold"@) && args.len() == 1 {
        SExpr::Hold(Box::new(args[0]))
    } else if eq_ignore_case(name, "previous"@) && args.len() == 1 {
        SExpr::Previous(Box::new(args[0]))
    } else if eq_ignore_case(name, "subsample"@) && args.len() == 2 {
        SExpr::SubSample(Box::new(args[0]), Box::new(args[1]))
    } else if eq_ignore_case(name, "supersample"@) && args.len() == 2 {
        SExpr::SuperSample(Box::new(args[0]), Box::new(args[1]))
    } else if eq_ignore_case(name, "shiftsample"@) && args.len() == 2 {
        SExpr::ShiftSample(Box::new(args[0]), Box::new(args[1]))
    } else {
        SExpr::Call(name, args)
    }
}

/// `assert(...)` in an expression: its first two positional arguments, the
/// condition defaulting to `1` and the message to the empty string.
pub open spec fn assert_call(a: Seq<SArg>) -> SExpr {
    let p = positional(a);
    SExpr::Call(
        "assert"@,
        seq![
            if p.len() > 0 { p[0] } else { SExpr::Number("1"@) },
            if p.len() > 1 { p[1] } else { SExpr::StringLiteral(Seq::empty()) },
        ],
    )
}

/// The relational operator at `p`, if there is one.
pub open spec fn relop(ts: Seq<TokV>, p: int) -> Option<Operator> {
    if sym(ts, p, "<"@) {
        Some(Operator::Less)
    } else if sym(ts, p, "<="@) {
        Some(Operator::LessEq)
    } else if sym(ts, p, ">"@) {
        Some(Operator::Greater)
    } else if sym(ts, p, ">="@) {
        Some(Operator::GreaterEq)
    } else if sym(ts, p, "=="@) {
        Some(Operator::Equal)
    } else if sym(ts, p, "<>"@) {
        Some(Operator::NotEqual)
    } else {
        None
    }
}

/// How a relational operator is written.
pub open spec fn relop_text(o: Operator) -> Seq<char> {
    match o {
        Operator::Less => "<"@,
        Operator::LessEq => "<="@,
        Operator::Greater => ">"@,
        Operator::GreaterEq => ">="@,
        Operator::Equal => "=="@,
        Operator::NotEqual => "<>"@,
        _ => Seq::empty(),
    }
}

/// A relational symbol is read as its own operator and as no other: the
/// operator read at `p` is written as the symbol there, and each of the six
/// relational symbols gives the operator it writes (`>` gives `Greater`).
pub proof fn law_relop_reads_its_symbol(ts: Seq<TokV>, p: int)
    ensures
        relop(ts, p) matches Some(o) ==> relop_text(o).len() > 0 && sym(ts, p, relop_text(o)),
        forall|o: Operator| relop_text(o).len() > 0 && #[trigger] sym(ts, p, relop_text(o)) ==> relop(ts, p) == Some(o),
{
    reveal_strlit("<");
    reveal_strlit("<=");
    reveal_strlit(">");
    reveal_strlit(">=");
    reveal_strlit("==");
    reveal_strlit("<>");
    assert forall|o: Operator| relop_text(o).len() > 0 && #[trigger] sym(ts, p, relop_text(o)) implies relop(ts, p) == Some(o) by {
        match o {
            Operator::Less => {},
            Operator::LessEq => {},
            Operator::Greater => {
                assert(ts[p].text[0] == '>');
            },
            Operator::GreaterEq => {
                assert(ts[p].text[0] == '>');
            },
            Operator::Equal => {
                assert(ts[p].text[0] == '=');
            },
            Operator::NotEqual => {
                assert(ts[p].text[0] == '<' && ts[p].text[1] == '>');
            },
            _ => {},
        }
    }
}

/// Two arithmetic expressions joined by a relational symbol are read as that
/// comparison, operands in order: `a > b` gives `BinaryOp(a, Greater, b)`.
pub proof fn law_comparison_keeps_its_operator(ts: Seq<TokV>, p: int, o: Operator, a: SExpr, q: int, b: SExpr, q2: int)
    requires
        relop_text(o).len() > 0,
        g_arith(ts, p) == Some((a, q)),
        adv(p, q, ts.len() as int),
        sym(ts, q, relop_text(o)),
        g_arith(ts, q + 1) == Some((b, q2)),
    ensures
        g_rel(ts, p) == Some((SExpr::BinaryOp(Box::new(a), o, Box::new(b)), q2)),
{
    unfold_rel(ts, p);
    law_relop_reads_its_symbol(ts, q);
    assert(relop(ts, q) == Some(o));
}

/// The position of the `,` or `)` that ends a skipped argument, at nesting
/// depth zero, from `p` on (or the end of the tokens).
pub open spec fn skip_arg(ts: Seq<TokV>, p: int, d: nat) -> int
    decreases ts.len() - p,
{
    if p < 0 || p >= ts.len() {
        p
    } else if d == 0 && (sym(ts, p, ","@) || sym(ts, p, ")"@)) {
        p
    } else if sym(ts, p, "("@) || sym(ts, p, "["@) || sym(ts, p, "{"@) {
        skip_arg(ts, p + 1, d + 1)
    } else if (sym(ts, p, ")"@) || sym(ts, p, "]"@) || sym(ts, p, "}"@)) && d > 0 {
        skip_arg(ts, p + 1, (d - 1) as nat)
    } else {
        skip_arg(ts, p + 1, d)
    }
}

/// `expression`: an `if`-expression or a simple expression.
#[verifier::opaque]
pub open spec fn g_expr(ts: Seq<TokV>, p: int) -> Option<(SExpr, int)>
    decreases ts.len() - p, 29int,
{
    if kw(ts, p, "if"@) {
        g_if_tail(ts, p + 1)
    } else {
        g_simple(ts, p)
    }
}

/// After `if`: `cond then e1 (elseif cond then e)* else e2`; an `elseif` nests.
#[verifier::opaque]
pub open spec fn g_if_tail(ts: Seq<TokV>, p: int) -> Option<(SExpr, int)>
    decreases ts.len() - p, 30int,
{
    match g_expr(ts, p) {
        None => None,
        Some((c, q)) => if adv(p, q, ts.len() as int) && kw(ts, q, "then"@) {
            match g_expr(ts, q + 1) {
                None => None,
                Some((t, q2)) => if adv(q + 1, q2, ts.len() as int) && kw(ts, q2, "elseif"@) {
                    match g_if_tail(ts, q2 + 1) {
                        Some((e, q3)) => Some((SExpr::If(Box::new(c), Box::new(t), Box::new(e)), q3)),
                        None => None,
                    }
                } else if adv(q + 1, q2, ts.len() as int) && kw(ts, q2, "else"@) {
                    match g_expr(ts, q2 + 1) {
                        Some((e, q3)) => Some((SExpr::If(Box::new(c), Box::new(t), Box::new(e)), q3)),
                        None => None,
                    }
                } else {
                    None
                },
            }
        } else {
            None
        },
    }
}

/// `a`, `a:b` (step 1) or `a:b:c` (step `b`), each part an `or`-expression.
#[verifier::opaque]
pub open spec fn g_simple(ts: Seq<TokV>, p: int) -> Option<(SExpr, int)>
    decreases ts.len() - p, 28int,
{
    match g_lor(ts, p) {
        None => None,
        Some((a, q)) => if !adv(p, q, ts.len() as int) {
            None
        } else if sym(ts, q, ":"@) {
            match g_lor(ts, q + 1) {
                None => None,
                Some((b, q2)) => if adv(q + 1, q2, ts.len() as int) && sym(ts, q2, ":"@) {
                    match g_lor(ts, q2 + 1) {
                        Some((c, q3)) => Some((SExpr::Range(Box::new(a), Box::new(b), Box::new(c)), q3)),
                        None => None,
                    }
                } else {
                    Some((SExpr::Range(Box::new(a), Box::new(SExpr::Number("1"@)), Box::new(b)), q2))
                },
            }
        } else {
            Some((a, q))
        },
    }
}

/// `and`-expressions joined by `or`, grouped to the left.
#[verifier::opaque]
pub open spec fn g_lor(ts: Seq<TokV>, p: int) -> Option<(SExpr, int)>
    decreases ts.len() - p, 27int,
{
    match g_land(ts, p) {
        None => None,
        Some((a, q)) => if adv(p, q, ts.len() as int) { g_lor_tail(ts, q, a) } else { None },
    }
}

#[verifier::opaque]
pub open spec fn g_lor_tail(ts: Seq<TokV>, p: int, lhs: SExpr) -> Option<(SExpr, int)>
    decreases ts.len() - p, 26int,
{
    if kw(ts, p, "or"@) {
        match g_land(ts, p + 1) {
            None => None,
            Some((r, q)) => if adv(p + 1, q, ts.len() as int) {
                g_lor_tail(ts, q, SExpr::BinaryOp(Box::new(lhs), Operator::Or, Box::new(r)))
            } else {
                None
            },
        }
    } else {
        Some((lhs, p))
    }
}

/// Relations joined by `and`, grouped to the left.
#[verifier::opaque]
pub open spec fn g_land(ts: Seq<TokV>, p: int) -> Option<(SExpr, int)>
    decreases ts.len() - p, 25int,
{
    match g_rel(ts, p) {
        None => None,
        Some((a, q)) => if adv(p, q, ts.len() as int) { g_land_tail(ts, q, a) } else { None },
    }
}

#[verifier::opaque]
pub open spec fn g_land_tail(ts: Seq<TokV>, p: int, lhs: SExpr) -> Option<(SExpr, int)>
    decreases ts.len() - p, 24int,
{
    if kw(ts, p, "and"@) {
        match g_rel(ts, p + 1) {
            None => None,
            Some((r, q)) => if adv(p + 1, q, ts.len() as int) {
                g_land_tail(ts, q, SExpr::BinaryOp(Box::new(lhs), Operator::And, Box::new(r)))
            } else {
                None
            },
        }
    } else {
        Some((lhs, p))
    }
}

/// An arithmetic expression, or two compared by one relational operator.
#[verifier::opaque]
pub open spec fn g_rel(ts: Seq<TokV>, p: int) -> Option<(SExpr, int)>
    decreases ts.len() - p, 23int,
{
    match g_arith(ts, p) {
        None => None,
        Some((a, q)) => if !adv(p, q, ts.len() as int) {
            None
        } else {
            match relop(ts, q) {
                Some(o) => match g_arith(ts, q + 1) {
                    Some((b, q2)) => Some((SExpr::BinaryOp(Box::new(a), o, Box::new(b)), q2)),
                    None => None,
                },
                None => Some((a, q)),
            }
        },
    }
}

/// Terms joined by `+`, `-`, `.+`, `.-`, grouped to the left.
#[verifier::opaque]
pub open spec fn g_arith(ts: Seq<TokV>, p: int) -> Option<(SExpr, int)>
    decreases ts.len() - p, 22int,
{
    match g_term(ts, p) {
        None => None,
        Some((a, q)) => if adv(p, q, ts.len() as int) { g_arith_tail(ts, q, a) } else { None },
    }
}

#[verifier::opaque]
pub open spec fn g_arith_tail(ts: Seq<TokV>, p: int, lhs: SExpr) -> Option<(SExpr, int)>
    decreases ts.len() - p, 21int,
{
    if sym(ts, p, "+"@) || sym(ts, p, ".+"@) || sym(ts, p, "-"@) || sym(ts, p, ".-"@) {
        let o = if sym(ts, p, "+"@) || sym(ts, p, ".+"@) { Operator::Add } else { Operator::Sub };
        match g_term(ts, p + 1) {
            None => None,
            Some((r, q)) => if adv(p + 1, q, ts.len() as int) {
                g_arith_tail(ts, q, SExpr::BinaryOp(Box::new(lhs), o, Box::new(r)))
            } else {
                None
            },
        }
    } else {
        Some((lhs, p))
    }
}

/// An optional sign, then powers joined by `*`, `/`, `.*`, `./`; a `-` sign
/// makes the whole product `0 - product`.
#[verifier::opaque]
pub open spec fn g_term(ts: Seq<TokV>, p: int) -> Option<(SExpr, int)>
    decreases ts.len() - p, 20int,
{
    let neg = sym(ts, p, "-"@);
    let s = if neg || sym(ts, p, "+"@) { p + 1 } else { p };
    match g_power(ts, s) {
        None => None,
        Some((f, q)) => if adv(s, q, ts.len() as int) {
            match g_term_tail(ts, q, f) {
                None => None,
                Some((t, q2)) => Some((
                    if neg { SExpr::BinaryOp(Box::new(SExpr::Number("0"@)), Operator::Sub, Box::new(t)) } else { t },
                    q2,
                )),
            }
        } else {
            None
        },
    }
}

#[verifier::opaque]
pub open spec fn g_term_tail(ts: Seq<TokV>, p: int, lhs: SExpr) -> Option<(SExpr, int)>
    decreases ts.len() - p, 19int,
{
    if sym(ts, p, "*"@) || sym(ts, p, ".*"@) || sym(ts, p, "/"@) || sym(ts, p, "./"@) {
        let o = if sym(ts, p, "*"@) || sym(ts, p, ".*"@) { Operator::Mul } else { Operator::Div };
        match g_power(ts, p + 1) {
            None => None,
            Some((r, q)) => if adv(p + 1, q, ts.len() as int) {
                g_term_tail(ts, q, SExpr::BinaryOp(Box::new(lhs), o, Box::new(r)))
            } else {
                None
            },
        }
    } else {
        Some((lhs, p))
    }
}

/// Primaries joined by `^` or `.^`, grouped to the left, each as `pow(a, b)`.
#[verifier::opaque]
pub open spec fn g_power(ts: Seq<TokV>, p: int) -> Option<(SExpr, int)>
    decreases ts.len() - p, 18int,
{
    match g_factor(ts, p) {
        None => None,
        Some((a, q)) => if adv(p, q, ts.len() as int) { g_power_tail(ts, q, a) } else { None },
    }
}

#[verifier::opaque]
pub open spec fn g_power_tail(ts: Seq<TokV>, p: int, lhs: SExpr) -> Option<(SExpr, int)>
    decreases ts.len() - p, 17int,
{
    if sym(ts, p, "^"@) || sym(ts, p, ".^"@) {
        match g_factor(ts, p + 1) {
            None => None,
            Some((r, q)) => if adv(p + 1, q, ts.len() as int) {
                g_power_tail(ts, q, SExpr::Call("pow"@, seq![lhs, r]))
            } else {
                None
            },
        }
    } else {
        Some((lhs, p))
    }
}

/// A primary: a number, strings, a parenthesised expression, an array, `not`,
/// `true`/`false` (as 1 and 0), `end`, a built-in form, a call, or a component
/// reference.
#[verifier::opaque]
pub open spec fn g_factor(ts: Seq<TokV>, p: int) -> Option<(SExpr, int)>
    decreases ts.len() - p, 16int,
{
    if kind_at(ts, p, TokKind::Number) {
        Some((SExpr::Number(ts[p].text), p + 1))
    } else if kind_at(ts, p, TokKind::Str) {
        let (s, q) = g_str_run(ts, p);
        Some((SExpr::StringLiteral(s), q))
    } else if sym(ts, p, "("@) {
        match g_expr(ts, p + 1) {
            Some((e, q)) => if sym(ts, q, ")"@) { Some((e, q + 1)) } else { None },
            None => None,
        }
    } else if sym(ts, p, "{"@) {
        g_brace(ts, p + 1)
    } else if sym(ts, p, "["@) {
        g_bracket(ts, p + 1)
    } else if kw(ts, p, "not"@) {
        match g_factor(ts, p + 1) {
            Some((f, q)) => Some((SExpr::Call("not"@, seq![f]), q)),
            None => None,
        }
    } else if kw(ts, p, "true"@) {
        Some((SExpr::Number("1"@), p + 1))
    } else if kw(ts, p, "false"@) {
        Some((SExpr::Number("0"@), p + 1))
    } else if kw(ts, p, "end"@) {
        Some((SExpr::Variable("end"@), p + 1))
    } else {
        match g_builtin(ts, p) {
            Some(x) => Some(x),
            None => match g_call(ts, p) {
                Some(x) => Some(x),
                None => g_compref(ts, p),
            },
        }
    }
}

/// `der(e)`, `initial()`, `terminal()`, `assert(args)`, `terminate(e)`.
#[verifier::opaque]
pub open spec fn g_builtin(ts: Seq<TokV>, p: int) -> Option<(SExpr, int)>
    decreases ts.len() - p, 10int,
{
    if kw(ts, p, "der"@) && sym(ts, p + 1, "("@) {
        match g_expr(ts, p + 2) {
            Some((e, q)) => if sym(ts, q, ")"@) { Some((SExpr::Der(Box::new(e)), q + 1)) } else { None },
            None => None,
        }
    } else if kw(ts, p, "initial"@) && sym(ts, p + 1, "("@) && sym(ts, p + 2, ")"@) {
        Some((SExpr::Call("initial"@, Seq::empty()), p + 3))
    } else if kw(ts, p, "terminal"@) && sym(ts, p + 1, "("@) && sym(ts, p + 2, ")"@) {
        Some((SExpr::Call("terminal"@, Seq::empty()), p + 3))
    } else if kw(ts, p, "assert"@) && sym(ts, p + 1, "("@) {
        match g_args(ts, p + 2) {
            Some((a, q)) => if sym(ts, q, ")"@) { Some((assert_call(a), q + 1)) } else { None },
            None => None,
        }
    } else if kw(ts, p, "terminate"@) && sym(ts, p + 1, "("@) {
        match g_expr(ts, p + 2) {
            Some((e, q)) => if sym(ts, q, ")"@) {
                Some((SExpr::Call("terminate"@, seq![e]), q + 1))
            } else {
                None
            },
            None => None,
        }
    } else {
        None
    }
}

/// `name(args)` with a dotted name.
#[verifier::opaque]
pub open spec fn g_call(ts: Seq<TokV>, p: int) -> Option<(SExpr, int)>
    decreases ts.len() - p, 11int,
{
    match g_dotted(ts, p) {
        None => None,
        Some((name, q)) => if p < q && sym(ts, q, "("@) {
            match g_args(ts, q + 1) {
                Some((a, q2)) => if sym(ts, q2, ")"@) {
                    Some((build_call(name, call_args(a)), q2 + 1))
                } else {
                    None
                },
                None => None,
            }
        } else {
            None
        },
    }
}

/// The arguments inside a call's parentheses (possibly none).
#[verifier::opaque]
pub open spec fn g_args(ts: Seq<TokV>, p: int) -> Option<(Seq<SArg>, int)>
    decreases ts.len() - p, 32int,
{
    if sym(ts, p, ")"@) {
        Some((Seq::empty(), p))
    } else {
        g_arg_list(ts, p)
    }
}

#[verifier::opaque]
pub open spec fn g_arg_list(ts: Seq<TokV>, p: int) -> Option<(Seq<SArg>, int)>
    decreases ts.len() - p, 31int,
{
    match g_arg(ts, p) {
        None => None,
        Some((a, q)) => if adv(p, q, ts.len() as int) && sym(ts, q, ","@) {
            match g_arg_list(ts, q + 1) {
                Some((rest, q2)) => Some((seq![a] + rest, q2)),
                None => None,
            }
        } else {
            Some((seq![a], q))
        },
    }
}

/// One argument: `name = e`; a `redeclare ...` or `function ...` argument, skipped
/// up to the next `,` or `)`; or an expression, possibly followed by
/// `for i in range` (which makes it an array comprehension).
#[verifier::opaque]
pub open spec fn g_arg(ts: Seq<TokV>, p: int) -> Option<(SArg, int)>
    decreases ts.len() - p, 30int,
{
    if kind_at(ts, p, TokKind::Ident) && sym(ts, p + 1, "="@) {
        match g_expr(ts, p + 2) {
            Some((v, q)) => Some((SArg::Named(ts[p].text, v), q)),
            None => None,
        }
    } else if kw(ts, p, "redeclare"@) || kw(ts, p, "function"@) {
        Some((SArg::Skipped, skip_arg(ts, p + 1, 0)))
    } else {
        match g_expr(ts, p) {
            None => None,
            Some((e, q)) => if adv(p, q, ts.len() as int) && kw(ts, q, "for"@) && kind_at(
                ts,
                q + 1,
                TokKind::Ident,
            ) && kw(ts, q + 2, "in"@) {
                match g_expr(ts, q + 3) {
                    Some((r, q2)) => Some((
                        SArg::Pos(SExpr::ArrayComprehension {
                            expr: Box::new(e),
                            iter_var: ts[q + 1].text,
                            iter_range: Box::new(r),
                        }),
                        q2,
                    )),
                    None => None,
                }
            } else {
                Some((SArg::Pos(e), q))
            },
        }
    }
}

/// After `{`: `}`, `e for i in r }` or `e (, e)* }`.
#[verifier::opaque]
pub open spec fn g_brace(ts: Seq<TokV>, p: int) -> Option<(SExpr, int)>
    decreases ts.len() - p, 30int,
{
    if sym(ts, p, "}"@) {
        Some((SExpr::ArrayLiteral(Seq::empty()), p + 1))
    } else {
        match g_expr(ts, p) {
            None => None,
            Some((e, q)) => if !adv(p, q, ts.len() as int) {
                None
            } else if kw(ts, q, "for"@) && kind_at(ts, q + 1, TokKind::Ident) && kw(ts, q + 2, "in"@) {
                match g_expr(ts, q + 3) {
                    Some((r, q2)) => if sym(ts, q2, "}"@) {
                        Some((
                            SExpr::ArrayComprehension {
                                expr: Box::new(e),
                                iter_var: ts[q + 1].text,
                                iter_range: Box::new(r),
                            },
                            q2 + 1,
                        ))
                    } else {
                        None
                    },
                    None => None,
                }
            } else {
                match g_list_tail(ts, q, seq![e], false) {
                    Some((items, q2)) => if sym(ts, q2, "}"@) {
                        Some((SExpr::ArrayLiteral(items), q2 + 1))
                    } else {
                        None
                    },
                    None => None,
                }
            },
        }
    }
}

/// After `[`: `]` or expressions separated by `,` or `;` up to `]`, all in one
/// flat list.
#[verifier::opaque]
pub open spec fn g_bracket(ts: Seq<TokV>, p: int) -> Option<(SExpr, int)>
    decreases ts.len() - p, 30int,
{
    if sym(ts, p, "]"@) {
        Some((SExpr::ArrayLiteral(Seq::empty()), p + 1))
    } else {
        match g_expr(ts, p) {
            None => None,
            Some((e, q)) => if !adv(p, q, ts.len() as int) {
                None
            } else {
                match g_list_tail(ts, q, seq![e], true) {
                    Some((items, q2)) => if sym(ts, q2, "]"@) {
                        Some((SExpr::ArrayLiteral(items), q2 + 1))
                    } else {
                        None
                    },
                    None => None,
                }
            },
        }
    }
}

/// `(, e)*` (or `(, e | ; e)*` where `rows`), appended to `acc`.
#[verifier::opaque]
pub open spec fn g_list_tail(ts: Seq<TokV>, p: int, acc: Seq<SExpr>, rows: bool) -> Option<(Seq<SExpr>, int)>
    decreases ts.len() - p, 2int,
{
    if sym(ts, p, ","@) || (rows && sym(ts, p, ";"@)) {
        match g_expr(ts, p + 1) {
            None => None,
            Some((e, q)) => if adv(p + 1, q, ts.len() as int) {
                g_list_tail(ts, q, acc.push(e), rows)
            } else {
                None
            },
        }
    } else {
        Some((acc, p))
    }
}

/// A component reference `["."] NAME ("[" subscripts "]" | "." IDENT)*`.
#[verifier::opaque]
pub open spec fn g_compref(ts: Seq<TokV>, p: int) -> Option<(SExpr, int)>
    decreases ts.len() - p, 15int,
{
    let s = if sym(ts, p, "."@) { p + 1 } else { p };
    if is_name(ts, s) {
        g_ref_tail(ts, s + 1, SExpr::Variable(ts[s].text))
    } else {
        None
    }
}

/// Subscripts and member accesses after a reference `base`; subscripts index
/// by their first entry.
#[verifier::opaque]
pub open spec fn g_ref_tail(ts: Seq<TokV>, p: int, base: SExpr) -> Option<(SExpr, int)>
    decreases ts.len() - p, 14int,
{
    if sym(ts, p, "["@) {
        match g_subs(ts, p + 1) {
            Some((idx, q)) => if adv(p + 1, q, ts.len() as int) && sym(ts, q, "]"@) {
                g_ref_tail(ts, q + 1, SExpr::ArrayAccess(Box::new(base), Box::new(idx)))
            } else {
                None
            },
            None => None,
        }
    } else if sym(ts, p, "."@) && kind_at(ts, p + 1, TokKind::Ident) {
        g_ref_tail(ts, p + 2, SExpr::Dot(Box::new(base), ts[p + 1].text))
    } else {
        Some((base, p))
    }
}

/// A list of subscripts; its value is the first one.
#[verifier::opaque]
pub open spec fn g_subs(ts: Seq<TokV>, p: int) -> Option<(SExpr, int)>
    decreases ts.len() - p, 31int,
{
    match g_subscript(ts, p) {
        None => None,
        Some((i, q)) => if adv(p, q, ts.len() as int) {
            match g_sub_rest(ts, q) {
                Some(q2) => Some((i, q2)),
                None => None,
            }
        } else {
            None
        },
    }
}

/// One subscript: `:` (read as `0`) or an expression.
#[verifier::opaque]
pub open spec fn g_subscript(ts: Seq<TokV>, p: int) -> Option<(SExpr, int)>
    decreases ts.len() - p, 30int,
{
    if sym(ts, p, ":"@) {
        Some((SExpr::Number("0"@), p + 1))
    } else {
        g_expr(ts, p)
    }
}

/// The remaining subscripts `(, subscript)*`; their position after.
#[verifier::opaque]
pub open spec fn g_sub_rest(ts: Seq<TokV>, p: int) -> Option<int>
    decreases ts.len() - p, 30int,
{
    if sym(ts, p, ","@) {
        match g_subscript(ts, p + 1) {
            Some((_i, q)) => if adv(p + 1, q, ts.len() as int) { g_sub_rest(ts, q) } else { None },
            None => None,
        }
    } else {
        Some(p)
    }
}

pub proof fn unfold_expr(ts: Seq<TokV>, p: int)
    ensures
        g_expr(ts, p) == ({
            if kw(ts, p, "if"@) {
                g_if_tail(ts, p + 1)
            } else {
                g_simple(ts, p)
            }
        }),
{
    reveal(g_expr);
    reveal(g_if_tail);
    reveal(g_simple);
}

pub proof fn unfold_if_tail(ts: Seq<TokV>, p: int)
    ensures
        g_if_tail(ts, p) == ({
            match g_expr(ts, p) {
                None => None,
                Some((c, q)) => if adv(p, q, ts.len() as int) && kw(ts, q, "then"@) {
                    match g_expr(ts, q + 1) {
                        None => None,
                        Some((t, q2)) => if adv(q + 1, q2, ts.len() as int) && kw(ts, q2, "elseif"@) {
                            match g_if_tail(ts, q2 + 1) {
                                Some((e, q3)) => Some((SExpr::If(Box::new(c), Box::new(t), Box::new(e)), q3)),
                                None => None,
                            }
                        } else if adv(q + 1, q2, ts.len() as int) && kw(ts, q2, "else"@) {
                            match g_expr(ts, q2 + 1) {
                                Some((e, q3)) => Some((SExpr::If(Box::new(c), Box::new(t), Box::new(e)), q3)),
                                None => None,
                            }
                        } else {
                            None
                        },
                    }
                } else {
                    None
                },
            }
        }),
{
    reveal(g_if_tail);
    reveal(g_expr);
}

pub proof fn unfold_simple(ts: Seq<TokV>, p: int)
    ensures
        g_simple(ts, p) == ({
            match g_lor(ts, p) {
                None => None,
                Some((a, q)) => if !adv(p, q, ts.len() as int) {
                    None
                } else if sym(ts, q, ":"@) {
                    match g_lor(ts, q + 1) {
                        None => None,
                        Some((b, q2)) => if adv(q + 1, q2, ts.len() as int) && sym(ts, q2, ":"@) {
                            match g_lor(ts, q2 + 1) {
                                Some((c, q3)) => Some((SExpr::Range(Box::new(a), Box::new(b), Box::new(c)), q3)),
                                None => None,
                            }
                        } else {
                            Some((SExpr::Range(Box::new(a), Box::new(SExpr::Number("1"@)), Box::new(b)), q2))
                        },
                    }
                } else {
                    Some((a, q))
                },
            }
        }),
{
    reveal(g_simple);
    reveal(g_lor);
}

pub proof fn unfold_lor(ts: Seq<TokV>, p: int)
    ensures
        g_lor(ts, p) == ({
            match g_land(ts, p) {
                None => None,
                Some((a, q)) => if adv(p, q, ts.len() as int) { g_lor_tail(ts, q, a) } else { None },
            }
        }),
{
    reveal(g_lor);
    reveal(g_lor_tail);
    reveal(g_land);
}

pub proof fn unfold_lor_tail(ts: Seq<TokV>, p: int, lhs: SExpr)
    ensures
        g_lor_tail(ts, p, lhs) == ({
            if kw(ts, p, "or"@) {
                match g_land(ts, p + 1) {
                    None => None,
                    Some((r, q)) => if adv(p + 1, q, ts.len() as int) {
                        g_lor_tail(ts, q, SExpr::BinaryOp(Box::new(lhs), Operator::Or, Box::new(r)))
                    } else {
                        None
                    },
                }
            } else {
                Some((lhs, p))
            }
        }),
{
    reveal(g_lor_tail);
    reveal(g_land);
}

pub proof fn unfold_land(ts: Seq<TokV>, p: int)
    ensures
        g_land(ts, p) == ({
            match g_rel(ts, p) {
                None => None,
                Some((a, q)) => if adv(p, q, ts.len() as int) { g_land_tail(ts, q, a) } else { None },
            }
        }),
{
    reveal(g_land);
    reveal(g_land_tail);
    reveal(g_rel);
}

pub proof fn unfold_land_tail(ts: Seq<TokV>, p: int, lhs: SExpr)
    ensures
        g_land_tail(ts, p, lhs) == ({
            if kw(ts, p, "and"@) {
                match g_rel(ts, p + 1) {
                    None => None,
                    Some((r, q)) => if adv(p + 1, q, ts.len() as int) {
                        g_land_tail(ts, q, SExpr::BinaryOp(Box::new(lhs), Operator::And, Box::new(r)))
                    } else {
                        None
                    },
                }
            } else {
                Some((lhs, p))
            }
        }),
{
    reveal(g_land_tail);
    reveal(g_rel);
}

pub proof fn unfold_rel(ts: Seq<TokV>, p: int)
    ensures
        g_rel(ts, p) == ({
            match g_arith(ts, p) {
                None => None,
                Some((a, q)) => if !adv(p, q, ts.len() as int) {
                    None
                } else {
                    match relop(ts, q) {
                        Some(o) => match g_arith(ts, q + 1) {
                            Some((b, q2)) => Some((SExpr::BinaryOp(Box::new(a), o, Box::new(b)), q2)),
                            None => None,
                        },
                        None => Some((a, q)),
                    }
                },
            }
        }),
{
    reveal(g_rel);
    reveal(g_arith);
}

pub proof fn unfold_arith(ts: Seq<TokV>, p: int)
    ensures
        g_arith(ts, p) == ({
            match g_term(ts, p) {
                None => None,
                Some((a, q)) => if adv(p, q, ts.len() as int) { g_arith_tail(ts, q, a) } else { None },
            }
        }),
{
    reveal(g_arith);
    reveal(g_arith_tail);
    reveal(g_term);
}

pub proof fn unfold_arith_tail(ts: Seq<TokV>, p: int, lhs: SExpr)
    ensures
        g_arith_tail(ts, p, lhs) == ({
            if sym(ts, p, "+"@) || sym(ts, p, ".+"@) || sym(ts, p, "-"@) || sym(ts, p, ".-"@) {
                let o = if sym(ts, p, "+"@) || sym(ts, p, ".+"@) { Operator::Add } else { Operator::Sub };
                match g_term(ts, p + 1) {
                    None => None,
                    Some((r, q)) => if adv(p + 1, q, ts.len() as int) {
                        g_arith_tail(ts, q, SExpr::BinaryOp(Box::new(lhs), o, Box::new(r)))
                    } else {
                        None
                    },
                }
            } else {
                Some((lhs, p))
            }
        }),
{
    reveal(g_arith_tail);
    reveal(g_term);
}

pub proof fn unfold_term(ts: Seq<TokV>, p: int)
    ensures
        g_term(ts, p) == ({
            let neg = sym(ts, p, "-"@);
            let s = if neg || sym(ts, p, "+"@) { p + 1 } else { p };
            match g_power(ts, s) {
                None => None,
                Some((f, q)) => if adv(s, q, ts.len() as int) {
                    match g_term_tail(ts, q, f) {
                        None => None,
                        Some((t, q2)) => Some((
                            if neg { SExpr::BinaryOp(Box::new(SExpr::Number("0"@)), Operator::Sub, Box::new(t)) } else { t },
                            q2,
                        )),
                    }
                } else {
                    None
                },
            }
        }),
{
    reveal(g_term);
    reveal(g_term_tail);
    reveal(g_power);
}

pub proof fn unfold_term_tail(ts: Seq<TokV>, p: int, lhs: SExpr)
    ensures
        g_term_tail(ts, p, lhs) == ({
            if sym(ts, p, "*"@) || sym(ts, p, ".*"@) || sym(ts, p, "/"@) || sym(ts, p, "./"@) {
                let o = if sym(ts, p, "*"@) || sym(ts, p, ".*"@) { Operator::Mul } else { Operator::Div };
                match g_power(ts, p + 1) {
                    None => None,
                    Some((r, q)) => if adv(p + 1, q, ts.len() as int) {
                        g_term_tail(ts, q, SExpr::BinaryOp(Box::new(lhs), o, Box::new(r)))
                    } else {
                        None
                    },
                }
            } else {
                Some((lhs, p))
            }
        }),
{
    reveal(g_term_tail);
    reveal(g_power);
}

pub proof fn unfold_power(ts: Seq<TokV>, p: int)
    ensures
        g_power(ts, p) == ({
            match g_factor(ts, p) {
                None => None,
                Some((a, q)) => if adv(p, q, ts.len() as int) { g_power_tail(ts, q, a) } else { None },
            }
        }),
{
    reveal(g_power);
    reveal(g_power_tail);
    reveal(g_factor);
}

pub proof fn unfold_power_tail(ts: Seq<TokV>, p: int, lhs: SExpr)
    ensures
        g_power_tail(ts, p, lhs) == ({
            if sym(ts, p, "^"@) || sym(ts, p, ".^"@) {
                match g_factor(ts, p + 1) {
                    None => None,
                    Some((r, q)) => if adv(p + 1, q, ts.len() as int) {
                        g_power_tail(ts, q, SExpr::Call("pow"@, seq![lhs, r]))
                    } else {
                        None
                    },
                }
            } else {
                Some((lhs, p))
            }
        }),
{
    reveal(g_power_tail);
    reveal(g_factor);
}

pub proof fn unfold_factor(ts: Seq<TokV>, p: int)
    ensures
        g_factor(ts, p) == ({
            if kind_at(ts, p, TokKind::Number) {
                Some((SExpr::Number(ts[p].text), p + 1))
            } else if kind_at(ts, p, TokKind::Str) {
                let (s, q) = g_str_run(ts, p);
                Some((SExpr::StringLiteral(s), q))
            } else if sym(ts, p, "("@) {
                match g_expr(ts, p + 1) {
                    Some((e, q)) => if sym(ts, q, ")"@) { Some((e, q + 1)) } else { None },
                    None => None,
                }
            } else if sym(ts, p, "{"@) {
                g_brace(ts, p + 1)
            } else if sym(ts, p, "["@) {
                g_bracket(ts, p + 1)
            } else if kw(ts, p, "not"@) {
                match g_factor(ts, p + 1) {
                    Some((f, q)) => Some((SExpr::Call("not"@, seq![f]), q)),
                    None => None,
                }
            } else if kw(ts, p, "true"@) {
                Some((SExpr::Number("1"@), p + 1))
            } else if kw(ts, p, "false"@) {
                Some((SExpr::Number("0"@), p + 1))
            } else if kw(ts, p, "end"@) {
                Some((SExpr::Variable("end"@), p + 1))
            } else {
                match g_builtin(ts, p) {
                    Some(x) => Some(x),
                    None => match g_call(ts, p) {
                        Some(x) => Some(x),
                        None => g_compref(ts, p),
                    },
                }
            }
        }),
{
    reveal(g_factor);
    reveal(g_expr);
    reveal(g_builtin);
    reveal(g_call);
    reveal(g_brace);
    reveal(g_bracket);
    reveal(g_compref);
}

pub proof fn unfold_builtin(ts: Seq<TokV>, p: int)
    ensures
        g_builtin(ts, p) == ({
            if kw(ts, p, "der"@) && sym(ts, p + 1, "("@) {
                match g_expr(ts, p + 2) {
                    Some((e, q)) => if sym(ts, q, ")"@) { Some((SExpr::Der(Box::new(e)), q + 1)) } else { None },
                    None => None,
                }
            } else if kw(ts, p, "initial"@) && sym(ts, p + 1, "("@) && sym(ts, p + 2, ")"@) {
                Some((SExpr::Call("initial"@, Seq::empty()), p + 3))
            } else if kw(ts, p, "terminal"@) && sym(ts, p + 1, "("@) && sym(ts, p + 2, ")"@) {
                Some((SExpr::Call("terminal"@, Seq::empty()), p + 3))
            } else if kw(ts, p, "assert"@) && sym(ts, p + 1, "("@) {
                match g_args(ts, p + 2) {
                    Some((a, q)) => if sym(ts, q, ")"@) { Some((assert_call(a), q + 1)) } else { None },
                    None => None,
                }
            } else if kw(ts, p, "terminate"@) && sym(ts, p + 1, "("@) {
                match g_expr(ts, p + 2) {
                    Some((e, q)) => if sym(ts, q, ")"@) {
                        Some((SExpr::Call("terminate"@, seq![e]), q + 1))
                    } else {
                        None
                    },
                    None => None,
                }
            } else {
                None
            }
        }),
{
    reveal(g_builtin);
    reveal(g_expr);
    reveal(g_args);
}

pub proof fn unfold_call(ts: Seq<TokV>, p: int)
    ensures
        g_call(ts, p) == ({
            match g_dotted(ts, p) {
                None => None,
                Some((name, q)) => if p < q && sym(ts, q, "("@) {
                    match g_args(ts, q + 1) {
                        Some((a, q2)) => if sym(ts, q2, ")"@) {
                            Some((build_call(name, call_args(a)), q2 + 1))
                        } else {
                            None
                        },
                        None => None,
                    }
                } else {
                    None
                },
            }
        }),
{
    reveal(g_call);
    reveal(g_args);
}

pub proof fn unfold_args(ts: Seq<TokV>, p: int)
    ensures
        g_args(ts, p) == ({
            if sym(ts, p, ")"@) {
                Some((Seq::empty(), p))
            } else {
                g_arg_list(ts, p)
            }
        }),
{
    reveal(g_args);
    reveal(g_arg_list);
}

pub proof fn unfold_arg_list(ts: Seq<TokV>, p: int)
    ensures
        g_arg_list(ts, p) == ({
            match g_arg(ts, p) {
                None => None,
                Some((a, q)) => if adv(p, q, ts.len() as int) && sym(ts, q, ","@) {
                    match g_arg_list(ts, q + 1) {
                        Some((rest, q2)) => Some((seq![a] + rest, q2)),
                        None => None,
                    }
                } else {
                    Some((seq![a], q))
                },
            }
        }),
{
    reveal(g_arg_list);
    reveal(g_arg);
}

pub proof fn unfold_arg(ts: Seq<TokV>, p: int)
    ensures
        g_arg(ts, p) == ({
            if kind_at(ts, p, TokKind::Ident) && sym(ts, p + 1, "="@) {
                match g_expr(ts, p + 2) {
                    Some((v, q)) => Some((SArg::Named(ts[p].text, v), q)),
                    None => None,
                }
            } else if kw(ts, p, "redeclare"@) || kw(ts, p, "function"@) {
                Some((SArg::Skipped, skip_arg(ts, p + 1, 0)))
            } else {
                match g_expr(ts, p) {
                    None => None,
                    Some((e, q)) => if adv(p, q, ts.len() as int) && kw(ts, q, "for"@) && kind_at(
                        ts,
                        q + 1,
                        TokKind::Ident,
                    ) && kw(ts, q + 2, "in"@) {
                        match g_expr(ts, q + 3) {
                            Some((r, q2)) => Some((
                                SArg::Pos(SExpr::ArrayComprehension {
                                    expr: Box::new(e),
                                    iter_var: ts[q + 1].text,
                                    iter_range: Box::new(r),
                                }),
                                q2,
                            )),
                            None => None,
                        }
                    } else {
                        Some((SArg::Pos(e), q))
                    },
                }
            }
        }),
{
    reveal(g_arg);
    reveal(g_expr);
}

pub proof fn unfold_brace(ts: Seq<TokV>, p: int)
    ensures
        g_brace(ts, p) == ({
            if sym(ts, p, "}"@) {
                Some((SExpr::ArrayLiteral(Seq::empty()), p + 1))
            } else {
                match g_expr(ts, p) {
                    None => None,
                    Some((e, q)) => if !adv(p, q, ts.len() as int) {
                        None
                    } else if kw(ts, q, "for"@) && kind_at(ts, q + 1, TokKind::Ident) && kw(ts, q + 2, "in"@) {
                        match g_expr(ts, q + 3) {
                            Some((r, q2)) => if sym(ts, q2, "}"@) {
                                Some((
                                    SExpr::ArrayComprehension {
                                        expr: Box::new(e),
                                        iter_var: ts[q + 1].text,
                                        iter_range: Box::new(r),
                                    },
                                    q2 + 1,
                                ))
                            } else {
                                None
                            },
                            None => None,
                        }
                    } else {
                        match g_list_tail(ts, q, seq![e], false) {
                            Some((items, q2)) => if sym(ts, q2, "}"@) {
                                Some((SExpr::ArrayLiteral(items), q2 + 1))
                            } else {
                                None
                            },
                            None => None,
                        }
                    },
                }
            }
        }),
{
    reveal(g_brace);
    reveal(g_expr);
    reveal(g_list_tail);
}

pub proof fn unfold_bracket(ts: Seq<TokV>, p: int)
    ensures
        g_bracket(ts, p) == ({
            if sym(ts, p, "]"@) {
                Some((SExpr::ArrayLiteral(Seq::empty()), p + 1))
            } else {
                match g_expr(ts, p) {
                    None => None,
                    Some((e, q)) => if !adv(p, q, ts.len() as int) {
                        None
                    } else {
                        match g_list_tail(ts, q, seq![e], true) {
                            Some((items, q2)) => if sym(ts, q2, "]"@) {
                                Some((SExpr::ArrayLiteral(items), q2 + 1))
                            } else {
                                None
                            },
                            None => None,
                        }
                    },
                }
            }
        }),
{
    reveal(g_bracket);
    reveal(g_expr);
    reveal(g_list_tail);
}

pub proof fn unfold_list_tail(ts: Seq<TokV>, p: int, acc: Seq<SExpr>, rows: bool)
    ensures
        g_list_tail(ts, p, acc, rows) == ({
            if sym(ts, p, ","@) || (rows && sym(ts, p, ";"@)) {
                match g_expr(ts, p + 1) {
                    None => None,
                    Some((e, q)) => if adv(p + 1, q, ts.len() as int) {
                        g_list_tail(ts, q, acc.push(e), rows)
                    } else {
                        None
                    },
                }
            } else {
                Some((acc, p))
            }
        }),
{
    reveal(g_list_tail);
    reveal(g_expr);
}

pub proof fn unfold_compref(ts: Seq<TokV>, p: int)
    ensures
        g_compref(ts, p) == ({
            let s = if sym(ts, p, "."@) { p + 1 } else { p };
            if is_name(ts, s) {
                g_ref_tail(ts, s + 1, SExpr::Variable(ts[s].text))
            } else {
                None
            }
        }),
{
    reveal(g_compref);
    reveal(g_ref_tail);
}

pub proof fn unfold_ref_tail(ts: Seq<TokV>, p: int, base: SExpr)
    ensures
        g_ref_tail(ts, p, base) == ({
            if sym(ts, p, "["@) {
                match g_subs(ts, p + 1) {
                    Some((idx, q)) => if adv(p + 1, q, ts.len() as int) && sym(ts, q, "]"@) {
                        g_ref_tail(ts, q + 1, SExpr::ArrayAccess(Box::new(base), Box::new(idx)))
                    } else {
                        None
                    },
                    None => None,
                }
            } else if sym(ts, p, "."@) && kind_at(ts, p + 1, TokKind::Ident) {
                g_ref_tail(ts, p + 2, SExpr::Dot(Box::new(base), ts[p + 1].text))
            } else {
                Some((base, p))
            }
        }),
{
    reveal(g_ref_tail);
    reveal(g_subs);
}

pub proof fn unfold_subs(ts: Seq<TokV>, p: int)
    ensures
        g_subs(ts, p) == ({
            match g_subscript(ts, p) {
                None => None,
                Some((i, q)) => if adv(p, q, ts.len() as int) {
                    match g_sub_rest(ts, q) {
                        Some(q2) => Some((i, q2)),
                        None => None,
                    }
                } else {
                    None
                },
            }
        }),
{
    reveal(g_subs);
    reveal(g_subscript);
    reveal(g_sub_rest);
}

pub proof fn unfold_subscript(ts: Seq<TokV>, p: int)
    ensures
        g_subscript(ts, p) == ({
            if sym(ts, p, ":"@) {
                Some((SExpr::Number("0"@), p + 1))
            } else {
                g_expr(ts, p)
            }
        }),
{
    reveal(g_subscript);
    reveal(g_expr);
}

pub proof fn unfold_sub_rest(ts: Seq<TokV>, p: int)
    ensures
        g_sub_rest(ts, p) == ({
            if sym(ts, p, ","@) {
                match g_subscript(ts, p + 1) {
                    Some((_i, q)) => if adv(p + 1, q, ts.len() as int) { g_sub_rest(ts, q) } else { None },
                    None => None,
                }
            } else {
                Some(p)
            }
        }),
{
    reveal(g_sub_rest);
    reveal(g_subscript);
}

} // verus!

verus! {

/// One expression, as a vector.
pub fn single(e: Expression) -> (v: Vec<Expression>)
    ensures
        exprs_view(v@) == seq![e@],
{
    let mut v: Vec<Expression> = Vec::new();
    proof {
        lemma_exprs_view_push(v@, e);
        assert(exprs_view(v@) =~= Seq::<SExpr>::empty());
        assert(Seq::<SExpr>::empty().push(e@) =~= seq![e@]);
    }
    v.push(e);
    v
}

/// Two expressions, as a vector.
pub fn pair_vec(a: Expression, b: Expression) -> (v: Vec<Expression>)
    ensures
        exprs_view(v@) == seq![a@, b@],
{
    let mut v = single(a);
    proof {
        lemma_exprs_view_push(v@, b);
        assert(seq![a@].push(b@) =~= seq![a@, b@]);
    }
    v.push(b);
    v
}

/// Replaces the escapes of a string literal's text.
pub fn unescape_str(s: &str) -> (r: String)
    ensures
        r@ == unescape(s@),
{
    proof {
        reveal_strlit("\\\"");
        reveal_strlit("\\\\");
        reveal_strlit("\\n");
        reveal_strlit("\\r");
        reveal_strlit("\\t");
    }
    let a = replace_str(s, "\\\"", "\"");
    let b = replace_str(a.as_str(), "\\\\", "\\");
    let c = replace_str(b.as_str(), "\\n", "\n");
    let d = replace_str(c.as_str(), "\\r", "\r");
    replace_str(d.as_str(), "\\t", "\t")
}

fn parse_str_run(ts: &Vec<Token>, p: usize) -> (r: (String, usize))
    requires
        p <= ts.len(),
    ensures
        (r.0@, r.1 as int) == g_str_run(toks_view(ts@), p as int),
{
    let ghost tv = toks_view(ts@);
    let mut acc = String::new();
    let mut k = p;
    assert(Seq::<char>::empty() + g_str_run(tv, p as int).0 =~= g_str_run(tv, p as int).0);
    while at_kind(ts, k, TokKind::Str)
        invariant
            p <= k <= ts.len(),
            tv == toks_view(ts@),
            acc@ + g_str_run(tv, k as int).0 == g_str_run(tv, p as int).0,
            g_str_run(tv, k as int).1 == g_str_run(tv, p as int).1,
        decreases ts@.len() - k,
    {
        let u = unescape_str(ts[k].text.as_str());
        proof {
            assert(acc@ + (u@ + g_str_run(tv, k + 1).0) =~= (acc@ + u@) + g_str_run(tv, k + 1).0);
        }
        acc.append(u.as_str());
        k = k + 1;
    }
    assert(acc@ + Seq::<char>::empty() =~= acc@);
    (acc, k)
}

pub fn call_args_exec(args: &Vec<Arg>) -> (r: Vec<Expression>)
    ensures
        exprs_view(r@) == call_args(args_view(args@)),
{
    let mut out: Vec<Expression> = Vec::new();
    let mut i: usize = 0;
    assert(args_view(args@).take(0) =~= Seq::<SArg>::empty());
    while i < args.len()
        invariant
            i <= args@.len(),
            exprs_view(out@) == call_args(args_view(args@).take(i as int)),
        decreases args@.len() - i,
    {
        let ghost s = args_view(args@).take(i as int + 1);
        assert(s.drop_last() =~= args_view(args@).take(i as int));
        assert(s.last() == args@[i as int]@);
        match &args[i] {
            Arg::Pos(e) => {
                let c = clone_expr(e);
                proof {
                    lemma_exprs_view_push(out@, c);
                }
                out.push(c);
            },
            Arg::Named(n, v) => {
                let name = Expression::StringLiteral(n.clone());
                let val = clone_expr(v);
                let call = Expression::Call("named".to_owned(), pair_vec(name, val));
                proof {
                    lemma_exprs_view_push(out@, call);
                }
                out.push(call);
            },
            Arg::Skipped => {},
        }
        i += 1;
    }
    assert(args_view(args@).take(args@.len() as int) =~= args_view(args@));
    out
}

fn positional_exec(args: &Vec<Arg>) -> (r: Vec<Expression>)
    ensures
        exprs_view(r@) == positional(args_view(args@)),
{
    let mut out: Vec<Expression> = Vec::new();
    let mut i: usize = 0;
    assert(args_view(args@).take(0) =~= Seq::<SArg>::empty());
    while i < args.len()
        invariant
            i <= args@.len(),
            exprs_view(out@) == positional(args_view(args@).take(i as int)),
        decreases args@.len() - i,
    {
        let ghost s = args_view(args@).take(i as int + 1);
        assert(s.drop_last() =~= args_view(args@).take(i as int));
        assert(s.last() == args@[i as int]@);
        match &args[i] {
            Arg::Pos(e) => {
                let c = clone_expr(e);
                proof {
                    lemma_exprs_view_push(out@, c);
                }
                out.push(c);
            },
            _ => {},
        }
        i += 1;
    }
    assert(args_view(args@).take(args@.len() as int) =~= args_view(args@));
    out
}

fn assert_call_exec(args: &Vec<Arg>) -> (r: Expression)
    ensures
        r@ == assert_call(args_view(args@)),
{
    let p = positional_exec(args);
    let c = if p.len() > 0 { clone_expr(&p[0]) } else { Expression::Number("1".to_owned()) };
    let m = if p.len() > 1 { clone_expr(&p[1]) } else { Expression::StringLiteral(String::new()) };
    Expression::Call("assert".to_owned(), pair_vec(c, m))
}

fn build_call_exec(name: String, args: Vec<Expression>) -> (r: Expression)
    ensures
        r@ == build_call(name@, exprs_view(args@)),
{
    let cs = chars_of(name.as_str());
    let n = cs.len();
    assert(cs@.subrange(0, n as int) =~= name@);
    if args.len() == 1 {
        let a = clone_expr(&args[0]);
        if range_eq_ignore_case(&cs, 0, n, "sample") {
            return Expression::Sample(Box::new(a));
        } else if range_eq_ignore_case(&cs, 0, n, "interval") {
            return Expression::Interval(Box::new(a));
        } else if range_eq_ignore_case(&cs, 0, n, "hold") {
            return Expression::Hold(Box::new(a));
        } else if range_eq_ignore_case(&cs, 0, n, "previous") {
            return Expression::Previous(Box::new(a));
        }
    } else if args.len() == 2 {
        let a = clone_expr(&args[0]);
        let b = clone_expr(&args[1]);
        if range_eq_ignore_case(&cs, 0, n, "subsample") {
            return Expression::SubSample(Box::new(a), Box::new(b));
        } else if range_eq_ignore_case(&cs, 0, n, "supersample") {
            return Expression::SuperSample(Box::new(a), Box::new(b));
        } else if range_eq_ignore_case(&cs, 0, n, "shiftsample") {
            return Expression::ShiftSample(Box::new(a), Box::new(b));
        }
    }
    Expression::Call(name, args)
}

fn relop_exec(ts: &Vec<Token>, p: usize) -> (r: Option<Operator>)
    ensures
        r == relop(toks_view(ts@), p as int),
{
    if at_sym(ts, p, "<") {
        Some(Operator::Less)
    } else if at_sym(ts, p, "<=") {
        Some(Operator::LessEq)
    } else if at_sym(ts, p, ">") {
        Some(Operator::Greater)
    } else if at_sym(ts, p, ">=") {
        Some(Operator::GreaterEq)
    } else if at_sym(ts, p, "==") {
        Some(Operator::Equal)
    } else if at_sym(ts, p, "<>") {
        Some(Operator::NotEqual)
    } else {
        None
    }
}

fn skip_arg_exec(ts: &Vec<Token>, p: usize) -> (r: usize)
    requires
        p <= ts.len(),
    ensures
        r == skip_arg(toks_view(ts@), p as int, 0),
        p <= r <= ts.len(),
{
    let ghost tv = toks_view(ts@);
    let mut k = p;
    let mut d: usize = 0;
    while k < ts.len()
        invariant
            p <= k <= ts.len(),
            tv == toks_view(ts@),
            skip_arg(tv, k as int, d as nat) == skip_arg(tv, p as int, 0),
            d <= k - p,
        decreases ts@.len() - k,
    {
        if d == 0 && (at_sym(ts, k, ",") || at_sym(ts, k, ")")) {
            return k;
        } else if at_sym(ts, k, "(") || at_sym(ts, k, "[") || at_sym(ts, k, "{") {
            d = d + 1;
        } else if (at_sym(ts, k, ")") || at_sym(ts, k, "]") || at_sym(ts, k, "}")) && d > 0 {
            d = d - 1;
        }
        k = k + 1;
    }
    k
}

/// Reads an expression at `p`.
pub fn parse_expr(ts: &Vec<Token>, p: usize) -> (r: Option<(Expression, usize)>)
    requires
        p <= ts.len(),
    ensures
        ov(r) == g_expr(toks_view(ts@), p as int),
    decreases ts@.len() - p, 29int,
{
    proof {
        unfold_expr(toks_view(ts@), p as int);
    }
    if at_kw(ts, p, "if") {
        parse_if_tail(ts, p + 1)
    } else {
        parse_simple(ts, p)
    }
}

fn parse_if_tail(ts: &Vec<Token>, p: usize) -> (r: Option<(Expression, usize)>)
    requires
        p <= ts.len(),
    ensures
        ov(r) == g_if_tail(toks_view(ts@), p as int),
    decreases ts@.len() - p, 30int,
{
    proof {
        unfold_if_tail(toks_view(ts@), p as int);
    }
    match parse_expr(ts, p) {
        None => None,
        Some((c, q)) => {
            if p <= q && q <= ts.len() && at_kw(ts, q, "then") {
                match parse_expr(ts, q + 1) {
                    None => None,
                    Some((t, q2)) => {
                        if q + 1 <= q2 && q2 <= ts.len() && at_kw(ts, q2, "elseif") {
                            match parse_if_tail(ts, q2 + 1) {
                                Some((e, q3)) => Some((Expression::If(Box::new(c), Box::new(t), Box::new(e)), q3)),
                                None => None,
                            }
                        } else if q + 1 <= q2 && q2 <= ts.len() && at_kw(ts, q2, "else") {
                            match parse_expr(ts, q2 + 1) {
                                Some((e, q3)) => Some((Expression::If(Box::new(c), Box::new(t), Box::new(e)), q3)),
                                None => None,
                            }
                        } else {
                            None
                        }
                    },
                }
            } else {
                None
            }
        },
    }
}

fn parse_simple(ts: &Vec<Token>, p: usize) -> (r: Option<(Expression, usize)>)
    requires
        p <= ts.len(),
    ensures
        ov(r) == g_simple(toks_view(ts@), p as int),
    decreases ts@.len() - p, 28int,
{
    proof {
        unfold_simple(toks_view(ts@), p as int);
    }
    match parse_lor(ts, p) {
        None => None,
        Some((a, q)) => {
            if !(p <= q && q <= ts.len()) {
                None
            } else if at_sym(ts, q, ":") {
                match parse_lor(ts, q + 1) {
                    None => None,
                    Some((b, q2)) => {
                        if q + 1 <= q2 && q2 <= ts.len() && at_sym(ts, q2, ":") {
                            match parse_lor(ts, q2 + 1) {
                                Some((c, q3)) => Some((Expression::Range(Box::new(a), Box::new(b), Box::new(c)), q3)),
                                None => None,
                            }
                        } else {
                            let one = Expression::Number("1".to_owned());
                            assert(one@ == SExpr::Number("1"@));
                            Some((Expression::Range(Box::new(a), Box::new(one), Box::new(b)), q2))
                        }
                    },
                }
            } else {
                Some((a, q))
            }
        },
    }
}

pub fn parse_lor(ts: &Vec<Token>, p: usize) -> (r: Option<(Expression, usize)>)
    requires
        p <= ts.len(),
    ensures
        ov(r) === g_lor(toks_view(ts@), p as int),
    decreases ts@.len() - p, 27int,
{
    proof {
        unfold_lor(toks_view(ts@), p as int);
    }
    match parse_land(ts, p) {
        None => None,
        Some((a, q)) => if p <= q && q <= ts.len() { parse_lor_tail(ts, q, a) } else { None },
    }
}

fn parse_lor_tail(ts: &Vec<Token>, p: usize, lhs: Expression) -> (r: Option<(Expression, usize)>)
    requires
        p <= ts.len(),
    ensures
        ov(r) == g_lor_tail(toks_view(ts@), p as int, lhs@),
    decreases ts@.len() - p, 26int,
{
    proof {
        unfold_lor_tail(toks_view(ts@), p as int, lhs@);
    }
    if at_kw(ts, p, "or") {
        match parse_land(ts, p + 1) {
            None => None,
            Some((r, q)) => {
                if p + 1 <= q && q <= ts.len() {
                    let nl = Expression::BinaryOp(Box::new(lhs), Operator::Or, Box::new(r));
                    parse_lor_tail(ts, q, nl)
                } else {
                    None
                }
            },
        }
    } else {
        Some((lhs, p))
    }
}

fn parse_land(ts: &Vec<Token>, p: usize) -> (r: Option<(Expression, usize)>)
    requires
        p <= ts.len(),
    ensures
        ov(r) == g_land(toks_view(ts@), p as int),
    decreases ts@.len() - p, 25int,
{
    proof {
        unfold_land(toks_view(ts@), p as int);
    }
    match parse_rel(ts, p) {
        None => None,
        Some((a, q)) => if p <= q && q <= ts.len() { parse_land_tail(ts, q, a) } else { None },
    }
}

fn parse_land_tail(ts: &Vec<Token>, p: usize, lhs: Expression) -> (r: Option<(Expression, usize)>)
    requires
        p <= ts.len(),
    ensures
        ov(r) == g_land_tail(toks_view(ts@), p as int, lhs@),
    decreases ts@.len() - p, 24int,
{
    proof {
        unfold_land_tail(toks_view(ts@), p as int, lhs@);
    }
    if at_kw(ts, p, "and") {
        match parse_rel(ts, p + 1) {
            None => None,
            Some((r, q)) => {
                if p + 1 <= q && q <= ts.len() {
                    parse_land_tail(ts, q, Expression::BinaryOp(Box::new(lhs), Operator::And, Box::new(r)))
                } else {
                    None
                }
            },
        }
    } else {
        Some((lhs, p))
    }
}

fn parse_rel(ts: &Vec<Token>, p: usize) -> (r: Option<(Expression, usize)>)
    requires
        p <= ts.len(),
    ensures
        ov(r) == g_rel(toks_view(ts@), p as int),
    decreases ts@.len() - p, 23int,
{
    proof {
        unfold_rel(toks_view(ts@), p as int);
    }
    match parse_arith(ts, p) {
        None => None,
        Some((a, q)) => {
            if !(p <= q && q <= ts.len()) {
                None
            } else {
                match relop_exec(ts, q) {
                    Some(o) => match parse_arith(ts, q + 1) {
                        Some((b, q2)) => Some((Expression::BinaryOp(Box::new(a), o, Box::new(b)), q2)),
                        None => None,
                    },
                    None => Some((a, q)),
                }
            }
        },
    }
}

fn parse_arith(ts: &Vec<Token>, p: usize) -> (r: Option<(Expression, usize)>)
    requires
        p <= ts.len(),
    ensures
        ov(r) == g_arith(toks_view(ts@), p as int),
    decreases ts@.len() - p, 22int,
{
    proof {
        unfold_arith(toks_view(ts@), p as int);
    }
    match parse_term(ts, p) {
        None => None,
        Some((a, q)) => if p <= q && q <= ts.len() { parse_arith_tail(ts, q, a) } else { None },
    }
}

fn parse_arith_tail(ts: &Vec<Token>, p: usize, lhs: Expression) -> (r: Option<(Expression, usize)>)
    requires
        p <= ts.len(),
    ensures
        ov(r) == g_arith_tail(toks_view(ts@), p as int, lhs@),
    decreases ts@.len() - p, 21int,
{
    proof {
        unfold_arith_tail(toks_view(ts@), p as int, lhs@);
    }
    let plus = at_sym(ts, p, "+") || at_sym(ts, p, ".+");
    if plus || at_sym(ts, p, "-") || at_sym(ts, p, ".-") {
        let o = if plus { Operator::Add } else { Operator::Sub };
        match parse_term(ts, p + 1) {
            None => None,
            Some((r, q)) => {
                if p + 1 <= q && q <= ts.len() {
                    parse_arith_tail(ts, q, Expression::BinaryOp(Box::new(lhs), o, Box::new(r)))
                } else {
                    None
                }
            },
        }
    } else {
        Some((lhs, p))
    }
}

fn parse_term(ts: &Vec<Token>, p: usize) -> (r: Option<(Expression, usize)>)
    requires
        p <= ts.len(),
    ensures
        ov(r) == g_term(toks_view(ts@), p as int),
    decreases ts@.len() - p, 20int,
{
    proof {
        unfold_term(toks_view(ts@), p as int);
    }
    let neg = at_sym(ts, p, "-");
    let s = if neg || at_sym(ts, p, "+") { p + 1 } else { p };
    match parse_power(ts, s) {
        None => None,
        Some((f, q)) => {
            if s <= q && q <= ts.len() {
                match parse_term_tail(ts, q, f) {
                    None => None,
                    Some((t, q2)) => {
                        if neg {
                            let zero = Expression::Number("0".to_owned());
                            assert(zero@ == SExpr::Number("0"@));
                            Some((Expression::BinaryOp(Box::new(zero), Operator::Sub, Box::new(t)), q2))
                        } else {
                            Some((t, q2))
                        }
                    },
                }
            } else {
                None
            }
        },
    }
}

fn parse_term_tail(ts: &Vec<Token>, p: usize, lhs: Expression) -> (r: Option<(Expression, usize)>)
    requires
        p <= ts.len(),
    ensures
        ov(r) == g_term_tail(toks_view(ts@), p as int, lhs@),
    decreases ts@.len() - p, 19int,
{
    proof {
        unfold_term_tail(toks_view(ts@), p as int, lhs@);
    }
    let mul = at_sym(ts, p, "*") || at_sym(ts, p, ".*");
    if mul || at_sym(ts, p, "/") || at_sym(ts, p, "./") {
        let o = if mul { Operator::Mul } else { Operator::Div };
        match parse_power(ts, p + 1) {
            None => None,
            Some((r, q)) => {
                if p + 1 <= q && q <= ts.len() {
                    parse_term_tail(ts, q, Expression::BinaryOp(Box::new(lhs), o, Box::new(r)))
                } else {
                    None
                }
            },
        }
    } else {
        Some((lhs, p))
    }
}

fn parse_power(ts: &Vec<Token>, p: usize) -> (r: Option<(Expression, usize)>)
    requires
        p <= ts.len(),
    ensures
        ov(r) == g_power(toks_view(ts@), p as int),
    decreases ts@.len() - p, 18int,
{
    proof {
        unfold_power(toks_view(ts@), p as int);
    }
    match parse_factor(ts, p) {
        None => None,
        Some((a, q)) => if p <= q && q <= ts.len() { parse_power_tail(ts, q, a) } else { None },
    }
}

fn parse_power_tail(ts: &Vec<Token>, p: usize, lhs: Expression) -> (r: Option<(Expression, usize)>)
    requires
        p <= ts.len(),
    ensures
        ov(r) == g_power_tail(toks_view(ts@), p as int, lhs@),
    decreases ts@.len() - p, 17int,
{
    proof {
        unfold_power_tail(toks_view(ts@), p as int, lhs@);
    }
    if at_sym(ts, p, "^") || at_sym(ts, p, ".^") {
        match parse_factor(ts, p + 1) {
            None => None,
            Some((r, q)) => {
                if p + 1 <= q && q <= ts.len() {
                    parse_power_tail(ts, q, Expression::Call("pow".to_owned(), pair_vec(lhs, r)))
                } else {
                    None
                }
            },
        }
    } else {
        Some((lhs, p))
    }
}

fn parse_factor(ts: &Vec<Token>, p: usize) -> (r: Option<(Expression, usize)>)
    requires
        p <= ts.len(),
    ensures
        ov(r) == g_factor(toks_view(ts@), p as int),
    decreases ts@.len() - p, 16int,
{
    proof {
        unfold_factor(toks_view(ts@), p as int);
    }
    if at_kind(ts, p, TokKind::Number) {
        Some((Expression::Number(ts[p].text.clone()), p + 1))
    } else if at_kind(ts, p, TokKind::Str) {
        let (s, q) = parse_str_run(ts, p);
        Some((Expression::StringLiteral(s), q))
    } else if at_sym(ts, p, "(") {
        match parse_expr(ts, p + 1) {
            Some((e, q)) => if at_sym(ts, q, ")") { Some((e, q + 1)) } else { None },
            None => None,
        }
    } else if at_sym(ts, p, "{") {
        parse_brace(ts, p + 1)
    } else if at_sym(ts, p, "[") {
        parse_bracket(ts, p + 1)
    } else if at_kw(ts, p, "not") {
        match parse_factor(ts, p + 1) {
            Some((f, q)) => Some((Expression::Call("not".to_owned(), single(f)), q)),
            None => None,
        }
    } else if at_kw(ts, p, "true") {
        Some((Expression::Number("1".to_owned()), p + 1))
    } else if at_kw(ts, p, "false") {
        Some((Expression::Number("0".to_owned()), p + 1))
    } else if at_kw(ts, p, "end") {
        Some((Expression::Variable("end".to_owned()), p + 1))
    } else {
        match parse_builtin(ts, p) {
            Some(x) => Some(x),
            None => match parse_call(ts, p) {
                Some(x) => Some(x),
                None => parse_compref(ts, p),
            },
        }
    }
}

fn parse_builtin(ts: &Vec<Token>, p: usize) -> (r: Option<(Expression, usize)>)
    requires
        p <= ts.len(),
    ensures
        ov(r) == g_builtin(toks_view(ts@), p as int),
    decreases ts@.len() - p, 10int,
{
    proof {
        unfold_builtin(toks_view(ts@), p as int);
    }
    if at_kw(ts, p, "der") && at_sym(ts, p + 1, "(") {
        match parse_expr(ts, p + 2) {
            Some((e, q)) => if at_sym(ts, q, ")") { Some((Expression::Der(Box::new(e)), q + 1)) } else { None },
            None => None,
        }
    } else if at_kw(ts, p, "initial") && at_sym(ts, p + 1, "(") && at_sym(ts, p + 2, ")") {
        let v: Vec<Expression> = Vec::new();
        assert(exprs_view(v@) =~= Seq::<SExpr>::empty());
        Some((Expression::Call("initial".to_owned(), v), p + 3))
    } else if at_kw(ts, p, "terminal") && at_sym(ts, p + 1, "(") && at_sym(ts, p + 2, ")") {
        let v: Vec<Expression> = Vec::new();
        assert(exprs_view(v@) =~= Seq::<SExpr>::empty());
        Some((Expression::Call("terminal".to_owned(), v), p + 3))
    } else if at_kw(ts, p, "assert") && at_sym(ts, p + 1, "(") {
        match parse_args(ts, p + 2) {
            Some((a, q)) => if at_sym(ts, q, ")") { Some((assert_call_exec(&a), q + 1)) } else { None },
            None => None,
        }
    } else if at_kw(ts, p, "terminate") && at_sym(ts, p + 1, "(") {
        match parse_expr(ts, p + 2) {
            Some((e, q)) => if at_sym(ts, q, ")") {
                Some((Expression::Call("terminate".to_owned(), single(e)), q + 1))
            } else {
                None
            },
            None => None,
        }
    } else {
        None
    }
}

pub fn parse_call(ts: &Vec<Token>, p: usize) -> (r: Option<(Expression, usize)>)
    requires
        p <= ts.len(),
    ensures
        ov(r) == g_call(toks_view(ts@), p as int),
    decreases ts@.len() - p, 11int,
{
    proof {
        unfold_call(toks_view(ts@), p as int);
    }
    match parse_dotted(ts, p) {
        None => None,
        Some((name, q)) => {
            if p < q && at_sym(ts, q, "(") {
                match parse_args(ts, q + 1) {
                    Some((a, q2)) => if at_sym(ts, q2, ")") {
                        let args = call_args_exec(&a);
                        Some((build_call_exec(name, args), q2 + 1))
                    } else {
                        None
                    },
                    None => None,
                }
            } else {
                None
            }
        },
    }
}

pub fn parse_args(ts: &Vec<Token>, p: usize) -> (r: Option<(Vec<Arg>, usize)>)
    requires
        p <= ts.len(),
    ensures
        ova(r) == g_args(toks_view(ts@), p as int),
    decreases ts@.len() - p, 32int,
{
    proof {
        unfold_args(toks_view(ts@), p as int);
    }
    if at_sym(ts, p, ")") {
        let v: Vec<Arg> = Vec::new();
        assert(args_view(v@) =~= Seq::<SArg>::empty());
        Some((v, p))
    } else {
        parse_arg_list(ts, p)
    }
}

fn parse_arg_list(ts: &Vec<Token>, p: usize) -> (r: Option<(Vec<Arg>, usize)>)
    requires
        p <= ts.len(),
    ensures
        ova(r) == g_arg_list(toks_view(ts@), p as int),
    decreases ts@.len() - p, 31int,
{
    proof {
        unfold_arg_list(toks_view(ts@), p as int);
    }
    match parse_arg(ts, p) {
        None => None,
        Some((a, q)) => {
            let ghost av = a@;
            let mut v: Vec<Arg> = Vec::new();
            v.push(a);
            assert(args_view(v@) =~= seq![av]);
            if p <= q && q <= ts.len() && at_sym(ts, q, ",") {
                match parse_arg_list(ts, q + 1) {
                    Some((rest, q2)) => {
                        let ghost rv = args_view(rest@);
                        let mut rest = rest;
                        v.append(&mut rest);
                        assert(args_view(v@) =~= seq![av] + rv);
                        Some((v, q2))
                    },
                    None => None,
                }
            } else {
                Some((v, q))
            }
        },
    }
}

fn parse_arg(ts: &Vec<Token>, p: usize) -> (r: Option<(Arg, usize)>)
    requires
        p <= ts.len(),
    ensures
        oa(r) == g_arg(toks_view(ts@), p as int),
    decreases ts@.len() - p, 30int,
{
    proof {
        unfold_arg(toks_view(ts@), p as int);
    }
    if at_kind(ts, p, TokKind::Ident) && at_sym(ts, p + 1, "=") {
        match parse_expr(ts, p + 2) {
            Some((v, q)) => Some((Arg::Named(ts[p].text.clone(), v), q)),
            None => None,
        }
    } else if at_kw(ts, p, "redeclare") || at_kw(ts, p, "function") {
        Some((Arg::Skipped, skip_arg_exec(ts, p + 1)))
    } else {
        match parse_expr(ts, p) {
            None => None,
            Some((e, q)) => {
                if p <= q && q <= ts.len() && at_kw(ts, q, "for") && at_kind(ts, q + 1, TokKind::Ident)
                    && at_kw(ts, q + 2, "in") {
                    match parse_expr(ts, q + 3) {
                        Some((r, q2)) => Some((
                            Arg::Pos(Expression::ArrayComprehension {
                                expr: Box::new(e),
                                iter_var: ts[q + 1].text.clone(),
                                iter_range: Box::new(r),
                            }),
                            q2,
                        )),
                        None => None,
                    }
                } else {
                    Some((Arg::Pos(e), q))
                }
            },
        }
    }
}

fn parse_brace(ts: &Vec<Token>, p: usize) -> (r: Option<(Expression, usize)>)
    requires
        p <= ts.len(),
    ensures
        ov(r) == g_brace(toks_view(ts@), p as int),
    decreases ts@.len() - p, 30int,
{
    proof {
        unfold_brace(toks_view(ts@), p as int);
    }
    if at_sym(ts, p, "}") {
        let v: Vec<Expression> = Vec::new();
        assert(exprs_view(v@) =~= Seq::<SExpr>::empty());
        Some((Expression::ArrayLiteral(v), p + 1))
    } else {
        match parse_expr(ts, p) {
            None => None,
            Some((e, q)) => {
                if !(p <= q && q <= ts.len()) {
                    None
                } else if at_kw(ts, q, "for") && at_kind(ts, q + 1, TokKind::Ident) && at_kw(ts, q + 2, "in") {
                    match parse_expr(ts, q + 3) {
                        Some((r, q2)) => if at_sym(ts, q2, "}") {
                            Some((
                                Expression::ArrayComprehension {
                                    expr: Box::new(e),
                                    iter_var: ts[q + 1].text.clone(),
                                    iter_range: Box::new(r),
                                },
                                q2 + 1,
                            ))
                        } else {
                            None
                        },
                        None => None,
                    }
                } else {
                    match parse_list_tail(ts, q, single(e), false) {
                        Some((items, q2)) => if at_sym(ts, q2, "}") {
                            Some((Expression::ArrayLiteral(items), q2 + 1))
                        } else {
                            None
                        },
                        None => None,
                    }
                }
            },
        }
    }
}

fn parse_bracket(ts: &Vec<Token>, p: usize) -> (r: Option<(Expression, usize)>)
    requires
        p <= ts.len(),
    ensures
        ov(r) == g_bracket(toks_view(ts@), p as int),
    decreases ts@.len() - p, 30int,
{
    proof {
        unfold_bracket(toks_view(ts@), p as int);
    }
    if at_sym(ts, p, "]") {
        let v: Vec<Expression> = Vec::new();
        assert(exprs_view(v@) =~= Seq::<SExpr>::empty());
        Some((Expression::ArrayLiteral(v), p + 1))
    } else {
        match parse_expr(ts, p) {
            None => None,
            Some((e, q)) => {
                if !(p <= q && q <= ts.len()) {
                    None
                } else {
                    match parse_list_tail(ts, q, single(e), true) {
                        Some((items, q2)) => if at_sym(ts, q2, "]") {
                            Some((Expression::ArrayLiteral(items), q2 + 1))
                        } else {
                            None
                        },
                        None => None,
                    }
                }
            },
        }
    }
}

fn parse_list_tail(ts: &Vec<Token>, p: usize, acc: Vec<Expression>, rows: bool) -> (r: Option<(Vec<Expression>, usize)>)
    requires
        p <= ts.len(),
    ensures
        ovs(r) == g_list_tail(toks_view(ts@), p as int, exprs_view(acc@), rows),
    decreases ts@.len() - p, 2int,
{
    proof {
        unfold_list_tail(toks_view(ts@), p as int, exprs_view(acc@), rows);
    }
    if at_sym(ts, p, ",") || (rows && at_sym(ts, p, ";")) {
        match parse_expr(ts, p + 1) {
            None => None,
            Some((e, q)) => {
                if p + 1 <= q && q <= ts.len() {
                    let mut acc = acc;
                    proof {
                        lemma_exprs_view_push(acc@, e);
                    }
                    acc.push(e);
                    parse_list_tail(ts, q, acc, rows)
                } else {
                    None
                }
            },
        }
    } else {
        Some((acc, p))
    }
}

pub fn parse_compref(ts: &Vec<Token>, p: usize) -> (r: Option<(Expression, usize)>)
    requires
        p <= ts.len(),
    ensures
        ov(r) == g_compref(toks_view(ts@), p as int),
    decreases ts@.len() - p, 15int,
{
    proof {
        unfold_compref(toks_view(ts@), p as int);
    }
    let s = if at_sym(ts, p, ".") { p + 1 } else { p };
    if at_name(ts, s) {
        parse_ref_tail(ts, s + 1, Expression::Variable(ts[s].text.clone()))
    } else {
        None
    }
}

fn parse_ref_tail(ts: &Vec<Token>, p: usize, base: Expression) -> (r: Option<(Expression, usize)>)
    requires
        p <= ts.len(),
    ensures
        ov(r) == g_ref_tail(toks_view(ts@), p as int, base@),
    decreases ts@.len() - p, 14int,
{
    proof {
        unfold_ref_tail(toks_view(ts@), p as int, base@);
    }
    if at_sym(ts, p, "[") {
        match parse_subs(ts, p + 1) {
            Some((idx, q)) => {
                if p + 1 <= q && q <= ts.len() && at_sym(ts, q, "]") {
                    parse_ref_tail(ts, q + 1, Expression::ArrayAccess(Box::new(base), Box::new(idx)))
                } else {
                    None
                }
            },
            None => None,
        }
    } else if at_sym(ts, p, ".") && at_kind(ts, p + 1, TokKind::Ident) {
        parse_ref_tail(ts, p + 2, Expression::Dot(Box::new(base), ts[p + 1].text.clone()))
    } else {
        Some((base, p))
    }
}

fn parse_subs(ts: &Vec<Token>, p: usize) -> (r: Option<(Expression, usize)>)
    requires
        p <= ts.len(),
    ensures
        ov(r) == g_subs(toks_view(ts@), p as int),
    decreases ts@.len() - p, 31int,
{
    proof {
        unfold_subs(toks_view(ts@), p as int);
    }
    match parse_subscript(ts, p) {
        None => None,
        Some((i, q)) => {
            if p <= q && q <= ts.len() {
                match parse_sub_rest(ts, q) {
                    Some(q2) => Some((i, q2)),
                    None => None,
                }
            } else {
                None
            }
        },
    }
}

fn parse_subscript(ts: &Vec<Token>, p: usize) -> (r: Option<(Expression, usize)>)
    requires
        p <= ts.len(),
    ensures
        ov(r) == g_subscript(toks_view(ts@), p as int),
    decreases ts@.len() - p, 30int,
{
    proof {
        unfold_subscript(toks_view(ts@), p as int);
    }
    if at_sym(ts, p, ":") {
        Some((Expression::Number("0".to_owned()), p + 1))
    } else {
        parse_expr(ts, p)
    }
}

pub fn parse_sub_rest(ts: &Vec<Token>, p: usize) -> (r: Option<usize>)
    requires
        p <= ts.len(),
    ensures
        op(r) == g_sub_rest(toks_view(ts@), p as int),
    decreases ts@.len() - p, 30int,
{
    proof {
        unfold_sub_rest(toks_view(ts@), p as int);
    }
    if at_sym(ts, p, ",") {
        match parse_subscript(ts, p + 1) {
            Some((_i, q)) => if p + 1 <= q && q <= ts.len() { parse_sub_rest(ts, q) } else { None },
            None => None,
        }
    } else {
        Some(p)
    }
}

} // verus!
