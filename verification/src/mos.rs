//! Scripts (`.mos`): statements that call functions, assign variables, and
//! branch or loop, over the tokens of the Modelica lexer. The grammar is the
//! spec functions `g_*`; the readers return exactly what it gives.
//!
//! ```text
//! script     := stmt*
//! stmt       := "if" expr "then" stmt* ("elseif" expr "then" stmt*)* ["else" stmt*] "end" "if" [";"]
//!             | "for" NAME "in" iter "loop" stmt* "end" "for" [";"]
//!             | NAME ":=" expr [";"]
//!             | expr [";"]
//! iter       := add ":" add [":" add] | expr
//! expr       := add (("==" | "<>" | "<" | "<=" | ">" | ">=") add)*
//! add        := mul (("+" | "-") mul)*
//! mul        := unary (("*" | "/") unary)*
//! unary      := ("-" | "+" | "not") unary | primary
//! primary    := NUMBER | STRING | true | false | "(" expr ")"
//!             | "{" NAME "=" expr ("," NAME "=" expr)* "}" | "{" [expr ("," expr)*] "}"
//!             | name "(" [arg ("," arg)*] ")" | name
//! arg        := NAME "=" expr | expr
//! ```
//! Numbers are kept as the text of their literal.

use vstd::prelude::*;
use crate::grammar::{adv, at_kind, at_kw, at_name, at_sym, g_dotted, is_name, kind_at, kw, parse_dotted, sym};
use crate::lexer::{TokKind, TokV, Token, lex, toks_view};
use crate::parse_class::spans_ok;
use crate::text::{chars_of, concat, decimal, eq_ignore_case, range_eq_ignore_case, replace_all, replace_str, usize_to_string};

verus! {

broadcast use vstd::std_specs::vec::axiom_spec_len;

/// The parser of scripts.
pub struct MosParser;

/// Where a statement starts: line and column, both counted from one.
#[derive(Clone, Copy, Debug, PartialEq, Eq, Structural)]
pub struct MosSpan {
    pub line: usize,
    pub col: usize,
}

/// An expression of a script.
pub enum MosExpr {
    Number(String),
    String(String),
    Bool(bool),
    Ident(String),
    Call { name: String, args: Vec<MosArg> },
    Array(Vec<MosExpr>),
    Record(Vec<(String, MosExpr)>),
    Unary { op: String, expr: Box<MosExpr> },
    Binary { op: String, left: Box<MosExpr>, right: Box<MosExpr> },
    Range { start: Box<MosExpr>, step: Option<Box<MosExpr>>, stop: Box<MosExpr> },
}

/// An argument of a call: named `name = value` or positional.
pub struct MosArg {
    pub name: Option<String>,
    pub value: MosExpr,
}

/// A statement of a script.
pub enum MosStmt {
    Expr { expr: MosExpr, span: MosSpan },
    Assign { name: String, value: MosExpr, span: MosSpan },
    If {
        cond: MosExpr,
        then_body: Vec<MosStmt>,
        elseif: Vec<(MosExpr, Vec<MosStmt>)>,
        else_body: Vec<MosStmt>,
        span: MosSpan,
    },
    For { var: String, iter: MosExpr, body: Vec<MosStmt>, span: MosSpan },
}

/// Mathematical value of a [`MosExpr`].
pub enum SMos {
    Number(Seq<char>),
    Str(Seq<char>),
    Bool(bool),
    Ident(Seq<char>),
    Call { name: Seq<char>, args: Seq<(Option<Seq<char>>, SMos)> },
    Array(Seq<SMos>),
    Record(Seq<(Seq<char>, SMos)>),
    Unary { op: Seq<char>, expr: Box<SMos> },
    Binary { op: Seq<char>, left: Box<SMos>, right: Box<SMos> },
    Range { start: Box<SMos>, step: Option<Box<SMos>>, stop: Box<SMos> },
}

/// Mathematical value of a [`MosStmt`].
pub enum SMosStmt {
    Expr { expr: SMos, span: MosSpan },
    Assign { name: Seq<char>, value: SMos, span: MosSpan },
    If { cond: SMos, then_body: Seq<SMosStmt>, elseif: Seq<(SMos, Seq<SMosStmt>)>, else_body: Seq<SMosStmt>, span: MosSpan },
    For { var: Seq<char>, iter: SMos, body: Seq<SMosStmt>, span: MosSpan },
}

impl MosExpr {
    pub open spec fn view(&self) -> SMos
        decreases self,
    {
        match self {
            MosExpr::Number(s) => SMos::Number(s@),
            MosExpr::String(s) => SMos::Str(s@),
            MosExpr::Bool(b) => SMos::Bool(*b),
            MosExpr::Ident(s) => SMos::Ident(s@),
            MosExpr::Call { name, args } => SMos::Call { name: name@, args: mos_args_view(args@) },
            MosExpr::Array(items) => SMos::Array(mos_list_view(items@)),
            MosExpr::Record(fields) => SMos::Record(mos_fields_view(fields@)),
            MosExpr::Unary { op, expr } => SMos::Unary { op: op@, expr: Box::new(expr.view()) },
            MosExpr::Binary { op, left, right } => SMos::Binary { op: op@, left: Box::new(left.view()), right: Box::new(right.view()) },
            MosExpr::Range { start, step, stop } => SMos::Range {
                start: Box::new(start.view()),
                step: match step {
                    Some(s) => Some(Box::new(s.view())),
                    None => None,
                },
                stop: Box::new(stop.view()),
            },
        }
    }
}

/// The views of a sequence of expressions.
pub open spec fn mos_list_view(s: Seq<MosExpr>) -> Seq<SMos>
    decreases s,
{
    if s.len() == 0 {
        Seq::empty()
    } else {
        mos_list_view(s.drop_last()).push(s.last().view())
    }
}

/// The views of a sequence of arguments.
pub open spec fn mos_args_view(s: Seq<MosArg>) -> Seq<(Option<Seq<char>>, SMos)>
    decreases s,
{
    if s.len() == 0 {
        Seq::empty()
    } else {
        mos_args_view(s.drop_last()).push((
            match s.last().name {
                Some(n) => Some(n@),
                None => None,
            },
            s.last().value.view(),
        ))
    }
}

/// The views of a sequence of record fields.
pub open spec fn mos_fields_view(s: Seq<(String, MosExpr)>) -> Seq<(Seq<char>, SMos)>
    decreases s,
{
    if s.len() == 0 {
        Seq::empty()
    } else {
        mos_fields_view(s.drop_last()).push((s.last().0@, s.last().1.view()))
    }
}

impl MosStmt {
    pub open spec fn view(&self) -> SMosStmt
        decreases self,
    {
        match self {
            MosStmt::Expr { expr, span } => SMosStmt::Expr { expr: expr@, span: *span },
            MosStmt::Assign { name, value, span } => SMosStmt::Assign { name: name@, value: value@, span: *span },
            MosStmt::If { cond, then_body, elseif, else_body, span } => SMosStmt::If {
                cond: cond@,
                then_body: mos_stmts_view(then_body@),
                elseif: mos_branches_view(elseif@),
                else_body: mos_stmts_view(else_body@),
                span: *span,
            },
            MosStmt::For { var, iter, body, span } => SMosStmt::For { var: var@, iter: iter@, body: mos_stmts_view(body@), span: *span },
        }
    }
}

/// The views of a sequence of statements.
pub open spec fn mos_stmts_view(s: Seq<MosStmt>) -> Seq<SMosStmt>
    decreases s,
{
    if s.len() == 0 {
        Seq::empty()
    } else {
        mos_stmts_view(s.drop_last()).push(s.last().view())
    }
}

/// The views of a sequence of `elseif` branches.
pub open spec fn mos_branches_view(s: Seq<(MosExpr, Vec<MosStmt>)>) -> Seq<(SMos, Seq<SMosStmt>)>
    decreases s,
{
    if s.len() == 0 {
        Seq::empty()
    } else {
        mos_branches_view(s.drop_last()).push((s.last().0@, mos_stmts_view(s.last().1@)))
    }
}

pub proof fn lemma_mos_list_push(s: Seq<MosExpr>, x: MosExpr)
    ensures
        mos_list_view(s.push(x)) == mos_list_view(s).push(x@),
{
    assert(s.push(x).drop_last() =~= s);
}

pub proof fn lemma_mos_args_push(s: Seq<MosArg>, x: MosArg)
    ensures
        mos_args_view(s.push(x)) == mos_args_view(s).push((
            match x.name {
                Some(n) => Some(n@),
                None => None,
            },
            x.value@,
        )),
{
    assert(s.push(x).drop_last() =~= s);
}

pub proof fn lemma_mos_fields_push(s: Seq<(String, MosExpr)>, x: (String, MosExpr))
    ensures
        mos_fields_view(s.push(x)) == mos_fields_view(s).push((x.0@, x.1@)),
{
    assert(s.push(x).drop_last() =~= s);
}

pub proof fn lemma_mos_stmts_push(s: Seq<MosStmt>, x: MosStmt)
    ensures
        mos_stmts_view(s.push(x)) == mos_stmts_view(s).push(x@),
{
    assert(s.push(x).drop_last() =~= s);
}

pub proof fn lemma_mos_branches_push(s: Seq<(MosExpr, Vec<MosStmt>)>, x: (MosExpr, Vec<MosStmt>))
    ensures
        mos_branches_view(s.push(x)) == mos_branches_view(s).push((x.0@, mos_stmts_view(x.1@))),
{
    assert(s.push(x).drop_last() =~= s);
}

/// The text of a string literal (its characters between the quotes) as a
/// script takes it: the quotes at both ends of the quoted literal trimmed,
/// and each `\"` made `"`.
pub open spec fn mos_string(text: Seq<char>) -> Seq<char> {
    replace_all(trim_quotes_end(trim_quotes_start(seq!['"'] + text + seq!['"'])), "\\\""@, "\""@)
}

/// `s` without its leading `"` characters.
pub open spec fn trim_quotes_start(s: Seq<char>) -> Seq<char>
    decreases s.len(),
{
    if s.len() > 0 && s[0] == '"' {
        trim_quotes_start(s.drop_first())
    } else {
        s
    }
}

/// `s` without its trailing `"` characters.
pub open spec fn trim_quotes_end(s: Seq<char>) -> Seq<char>
    decreases s.len(),
{
    if s.len() > 0 && s.last() == '"' {
        trim_quotes_end(s.drop_last())
    } else {
        s
    }
}

/// Whether the token at `p` is a boolean literal (`true` or `false` in any case).
pub open spec fn is_bool(ts: Seq<TokV>, p: int) -> bool {
    kind_at(ts, p, TokKind::Ident) && (eq_ignore_case(ts[p].text, "true"@) || eq_ignore_case(ts[p].text, "false"@))
}

/// `NAME "="` at `p`: the start of a named argument or a record field.
pub open spec fn named_at(ts: Seq<TokV>, p: int) -> bool {
    is_name(ts, p) && sym(ts, p + 1, "="@)
}

/// `primary`.
#[verifier::opaque]
pub open spec fn g_primary(ts: Seq<TokV>, p: int) -> Option<(SMos, int)>
    decreases ts.len() - p, 1int,
{
    if kind_at(ts, p, TokKind::Number) {
        Some((SMos::Number(ts[p].text), p + 1))
    } else if kind_at(ts, p, TokKind::Str) {
        Some((SMos::Str(mos_string(ts[p].text)), p + 1))
    } else if is_bool(ts, p) {
        Some((SMos::Bool(eq_ignore_case(ts[p].text, "true"@)), p + 1))
    } else if sym(ts, p, "("@) {
        match g_mexpr(ts, p + 1) {
            Some((e, q)) => if adv(p + 1, q, ts.len() as int) && sym(ts, q, ")"@) { Some((e, q + 1)) } else { None },
            None => None,
        }
    } else if sym(ts, p, "{"@) {
        if named_at(ts, p + 1) {
            match g_fields(ts, p + 1, Seq::empty()) {
                Some((fs, q)) => if adv(p + 1, q, ts.len() as int) && sym(ts, q, "}"@) { Some((SMos::Record(fs), q + 1)) } else { None },
                None => None,
            }
        } else if sym(ts, p + 1, "}"@) {
            Some((SMos::Array(Seq::empty()), p + 2))
        } else {
            match g_items(ts, p + 1, Seq::empty()) {
                Some((xs, q)) => if adv(p + 1, q, ts.len() as int) && sym(ts, q, "}"@) { Some((SMos::Array(xs), q + 1)) } else { None },
                None => None,
            }
        }
    } else {
        match g_dotted(ts, p) {
            None => None,
            Some((n, q)) => if adv(p + 1, q, ts.len() as int) {
                if sym(ts, q, "("@) {
                    if sym(ts, q + 1, ")"@) {
                        Some((SMos::Call { name: n, args: Seq::empty() }, q + 2))
                    } else {
                        match g_margs(ts, q + 1, Seq::empty()) {
                            Some((a, r)) => if adv(q + 1, r, ts.len() as int) && sym(ts, r, ")"@) {
                                Some((SMos::Call { name: n, args: a }, r + 1))
                            } else {
                                None
                            },
                            None => None,
                        }
                    }
                } else {
                    Some((SMos::Ident(n), q))
                }
            } else {
                None
            },
        }
    }
}

/// `expr ("," expr)*`, appended to `acc`.
#[verifier::opaque]
pub open spec fn g_items(ts: Seq<TokV>, p: int, acc: Seq<SMos>) -> Option<(Seq<SMos>, int)>
    decreases ts.len() - p, 10int,
{
    match g_mexpr(ts, p) {
        None => None,
        Some((e, q)) => if adv(p, q, ts.len() as int) {
            if sym(ts, q, ","@) { g_items(ts, q + 1, acc.push(e)) } else { Some((acc.push(e), q)) }
        } else {
            None
        },
    }
}

/// `NAME "=" expr ("," NAME "=" expr)*`, appended to `acc`.
#[verifier::opaque]
pub open spec fn g_fields(ts: Seq<TokV>, p: int, acc: Seq<(Seq<char>, SMos)>) -> Option<(Seq<(Seq<char>, SMos)>, int)>
    decreases ts.len() - p, 10int,
{
    if named_at(ts, p) {
        match g_mexpr(ts, p + 2) {
            None => None,
            Some((e, q)) => if adv(p + 2, q, ts.len() as int) {
                let acc2 = acc.push((ts[p].text, e));
                if sym(ts, q, ","@) { g_fields(ts, q + 1, acc2) } else { Some((acc2, q)) }
            } else {
                None
            },
        }
    } else {
        None
    }
}

/// `arg ("," arg)*`, appended to `acc`.
#[verifier::opaque]
pub open spec fn g_margs(ts: Seq<TokV>, p: int, acc: Seq<(Option<Seq<char>>, SMos)>) -> Option<(Seq<(Option<Seq<char>>, SMos)>, int)>
    decreases ts.len() - p, 10int,
{
    let (name, s) = if named_at(ts, p) { (Some(ts[p].text), p + 2) } else { (None::<Seq<char>>, p) };
    match g_mexpr(ts, s) {
        None => None,
        Some((e, q)) => if adv(s, q, ts.len() as int) {
            let acc2 = acc.push((name, e));
            if sym(ts, q, ","@) { g_margs(ts, q + 1, acc2) } else { Some((acc2, q)) }
        } else {
            None
        },
    }
}

/// `unary`: prefix operators nest to the right.
#[verifier::opaque]
pub open spec fn g_unary(ts: Seq<TokV>, p: int) -> Option<(SMos, int)>
    decreases ts.len() - p, 2int,
{
    if sym(ts, p, "-"@) || sym(ts, p, "+"@) || kw(ts, p, "not"@) {
        match g_unary(ts, p + 1) {
            None => None,
            Some((e, q)) => Some((SMos::Unary { op: ts[p].text, expr: Box::new(e) }, q)),
        }
    } else {
        g_primary(ts, p)
    }
}

/// Whether the token at `p` is an operator of level `level`: multiplicative
/// (0), additive (1) or a comparison (2).
pub open spec fn op_at(ts: Seq<TokV>, p: int, level: nat) -> bool {
    if level == 0 {
        sym(ts, p, "*"@) || sym(ts, p, "/"@)
    } else if level == 1 {
        sym(ts, p, "+"@) || sym(ts, p, "-"@)
    } else {
        sym(ts, p, "=="@) || sym(ts, p, "<>"@) || sym(ts, p, "<"@) || sym(ts, p, "<="@) || sym(ts, p, ">"@)
            || sym(ts, p, ">="@)
    }
}

/// Operands of level `level` (0 for `mul`, 1 for `add`, 2 for `expr`) joined
/// from the left by the operators of that level.
#[verifier::opaque]
pub open spec fn g_level(ts: Seq<TokV>, p: int, level: nat) -> Option<(SMos, int)>
    decreases ts.len() - p, 4 + 2 * level,
{
    let operand = if level == 0 { g_unary(ts, p) } else { g_level(ts, p, (level - 1) as nat) };
    match operand {
        None => None,
        Some((a, q)) => if adv(p, q, ts.len() as int) { g_level_tail(ts, q, level, a) } else { None },
    }
}

/// The rest of a level after its operand `lhs`.
#[verifier::opaque]
pub open spec fn g_level_tail(ts: Seq<TokV>, p: int, level: nat, lhs: SMos) -> Option<(SMos, int)>
    decreases ts.len() - p, 3 + 2 * level,
{
    if level <= 2 && op_at(ts, p, level) {
        let operand = if level == 0 { g_unary(ts, p + 1) } else { g_level(ts, p + 1, (level - 1) as nat) };
        match operand {
            None => None,
            Some((r, q)) => if adv(p + 1, q, ts.len() as int) {
                g_level_tail(ts, q, level, SMos::Binary { op: ts[p].text, left: Box::new(lhs), right: Box::new(r) })
            } else {
                None
            },
        }
    } else {
        Some((lhs, p))
    }
}

/// `expr`.
#[verifier::opaque]
pub open spec fn g_mexpr(ts: Seq<TokV>, p: int) -> Option<(SMos, int)>
    decreases ts.len() - p, 9int,
{
    g_level(ts, p, 2)
}

pub proof fn unfold_primary(ts: Seq<TokV>, p: int)
    ensures
        g_primary(ts, p) == ({
            if kind_at(ts, p, TokKind::Number) {
                Some((SMos::Number(ts[p].text), p + 1))
            } else if kind_at(ts, p, TokKind::Str) {
                Some((SMos::Str(mos_string(ts[p].text)), p + 1))
            } else if is_bool(ts, p) {
                Some((SMos::Bool(eq_ignore_case(ts[p].text, "true"@)), p + 1))
            } else if sym(ts, p, "("@) {
                match g_mexpr(ts, p + 1) {
                    Some((e, q)) => if adv(p + 1, q, ts.len() as int) && sym(ts, q, ")"@) { Some((e, q + 1)) } else { None },
                    None => None,
                }
            } else if sym(ts, p, "{"@) {
                if named_at(ts, p + 1) {
                    match g_fields(ts, p + 1, Seq::empty()) {
                        Some((fs, q)) => if adv(p + 1, q, ts.len() as int) && sym(ts, q, "}"@) { Some((SMos::Record(fs), q + 1)) } else { None },
                        None => None,
                    }
                } else if sym(ts, p + 1, "}"@) {
                    Some((SMos::Array(Seq::empty()), p + 2))
                } else {
                    match g_items(ts, p + 1, Seq::empty()) {
                        Some((xs, q)) => if adv(p + 1, q, ts.len() as int) && sym(ts, q, "}"@) { Some((SMos::Array(xs), q + 1)) } else { None },
                        None => None,
                    }
                }
            } else {
                match g_dotted(ts, p) {
                    None => None,
                    Some((n, q)) => if adv(p + 1, q, ts.len() as int) {
                        if sym(ts, q, "("@) {
                            if sym(ts, q + 1, ")"@) {
                                Some((SMos::Call { name: n, args: Seq::empty() }, q + 2))
                            } else {
                                match g_margs(ts, q + 1, Seq::empty()) {
                                    Some((a, r)) => if adv(q + 1, r, ts.len() as int) && sym(ts, r, ")"@) {
                                        Some((SMos::Call { name: n, args: a }, r + 1))
                                    } else {
                                        None
                                    },
                                    None => None,
                                }
                            }
                        } else {
                            Some((SMos::Ident(n), q))
                        }
                    } else {
                        None
                    },
                }
            }
        }),
{
    reveal(g_primary);
    reveal(g_items);
    reveal(g_fields);
    reveal(g_margs);
    reveal(g_mexpr);
}

pub proof fn unfold_items(ts: Seq<TokV>, p: int, acc: Seq<SMos>)
    ensures
        g_items(ts, p, acc) == ({
            match g_mexpr(ts, p) {
                None => None,
                Some((e, q)) => if adv(p, q, ts.len() as int) {
                    if sym(ts, q, ","@) { g_items(ts, q + 1, acc.push(e)) } else { Some((acc.push(e), q)) }
                } else {
                    None
                },
            }
        }),
{
    reveal(g_items);
    reveal(g_mexpr);
}

pub proof fn unfold_fields(ts: Seq<TokV>, p: int, acc: Seq<(Seq<char>, SMos)>)
    ensures
        g_fields(ts, p, acc) == ({
            if named_at(ts, p) {
                match g_mexpr(ts, p + 2) {
                    None => None,
                    Some((e, q)) => if adv(p + 2, q, ts.len() as int) {
                        let acc2 = acc.push((ts[p].text, e));
                        if sym(ts, q, ","@) { g_fields(ts, q + 1, acc2) } else { Some((acc2, q)) }
                    } else {
                        None
                    },
                }
            } else {
                None
            }
        }),
{
    reveal(g_fields);
    reveal(g_mexpr);
}

pub proof fn unfold_margs(ts: Seq<TokV>, p: int, acc: Seq<(Option<Seq<char>>, SMos)>)
    ensures
        g_margs(ts, p, acc) == ({
            let (name, s) = if named_at(ts, p) { (Some(ts[p].text), p + 2) } else { (None::<Seq<char>>, p) };
            match g_mexpr(ts, s) {
                None => None,
                Some((e, q)) => if adv(s, q, ts.len() as int) {
                    let acc2 = acc.push((name, e));
                    if sym(ts, q, ","@) { g_margs(ts, q + 1, acc2) } else { Some((acc2, q)) }
                } else {
                    None
                },
            }
        }),
{
    reveal(g_margs);
    reveal(g_mexpr);
}

pub proof fn unfold_unary(ts: Seq<TokV>, p: int)
    ensures
        g_unary(ts, p) == ({
            if sym(ts, p, "-"@) || sym(ts, p, "+"@) || kw(ts, p, "not"@) {
                match g_unary(ts, p + 1) {
                    None => None,
                    Some((e, q)) => Some((SMos::Unary { op: ts[p].text, expr: Box::new(e) }, q)),
                }
            } else {
                g_primary(ts, p)
            }
        }),
{
    reveal(g_unary);
    reveal(g_primary);
}

pub proof fn unfold_level(ts: Seq<TokV>, p: int, level: nat)
    ensures
        g_level(ts, p, level) == ({
            let operand = if level == 0 { g_unary(ts, p) } else { g_level(ts, p, (level - 1) as nat) };
            match operand {
                None => None,
                Some((a, q)) => if adv(p, q, ts.len() as int) { g_level_tail(ts, q, level, a) } else { None },
            }
        }),
{
    reveal(g_level);
    reveal(g_unary);
    reveal(g_level_tail);
}

pub proof fn unfold_level_tail(ts: Seq<TokV>, p: int, level: nat, lhs: SMos)
    ensures
        g_level_tail(ts, p, level, lhs) == ({
            if level <= 2 && op_at(ts, p, level) {
                let operand = if level == 0 { g_unary(ts, p + 1) } else { g_level(ts, p + 1, (level - 1) as nat) };
                match operand {
                    None => None,
                    Some((r, q)) => if adv(p + 1, q, ts.len() as int) {
                        g_level_tail(ts, q, level, SMos::Binary { op: ts[p].text, left: Box::new(lhs), right: Box::new(r) })
                    } else {
                        None
                    },
                }
            } else {
                Some((lhs, p))
            }
        }),
{
    reveal(g_level_tail);
    reveal(g_unary);
    reveal(g_level);
}

pub proof fn unfold_mexpr(ts: Seq<TokV>, p: int)
    ensures
        g_mexpr(ts, p) == ({
            g_level(ts, p, 2)
        }),
{
    reveal(g_mexpr);
    reveal(g_level);
}

/// The number of line breaks in `s`.
pub open spec fn count_nl(s: Seq<char>) -> nat
    decreases s.len(),
{
    if s.len() == 0 {
        0
    } else {
        count_nl(s.drop_last()) + if s.last() == '\n' { 1nat } else { 0nat }
    }
}

/// Line and column (both from one) of the character at `off`.
pub open spec fn span_at(cs: Seq<char>, off: int) -> MosSpan {
    MosSpan {
        line: (1 + count_nl(cs.take(off))) as usize,
        col: (off - crate::text::last_index_of(cs.take(off), '\n')) as usize,
    }
}

/// Where the statement that starts with token `p` starts.
pub open spec fn stmt_span(cs: Seq<char>, ts: Seq<TokV>, p: int) -> MosSpan {
    span_at(cs, ts[p].start)
}

/// Past an optional `;` at `q`.
pub open spec fn opt_semi(ts: Seq<TokV>, q: int) -> int {
    if sym(ts, q, ";"@) { q + 1 } else { q }
}

/// What a `for` runs over: a range `add ":" add [":" add]`, or an expression.
pub open spec fn g_for_iter(ts: Seq<TokV>, p: int) -> Option<(SMos, int)> {
    match g_level(ts, p, 1) {
        Some((a, q)) => if adv(p, q, ts.len() as int) && sym(ts, q, ":"@) {
            match g_level(ts, q + 1, 1) {
                Some((b, r)) => if adv(q + 1, r, ts.len() as int) {
                    if sym(ts, r, ":"@) {
                        match g_level(ts, r + 1, 1) {
                            Some((c, t)) => Some((SMos::Range { start: Box::new(a), step: Some(Box::new(b)), stop: Box::new(c) }, t)),
                            None => None,
                        }
                    } else {
                        Some((SMos::Range { start: Box::new(a), step: None, stop: Box::new(b) }, r))
                    }
                } else {
                    None
                },
                None => None,
            }
        } else {
            g_mexpr(ts, p)
        },
        None => g_mexpr(ts, p),
    }
}

/// In a range `a:b:c` the operands keep their places: the first is the start,
/// the middle one the step and the last one the stop (`1:2:9` runs from 1 by 2
/// to 9).
pub proof fn law_range_step_is_the_middle_operand(ts: Seq<TokV>, p: int, a: SMos, q: int, b: SMos, r: int, c: SMos, t: int)
    requires
        g_level(ts, p, 1) == Some((a, q)),
        adv(p, q, ts.len() as int),
        sym(ts, q, ":"@),
        g_level(ts, q + 1, 1) == Some((b, r)),
        adv(q + 1, r, ts.len() as int),
        sym(ts, r, ":"@),
        g_level(ts, r + 1, 1) == Some((c, t)),
    ensures
        g_for_iter(ts, p) == Some((SMos::Range { start: Box::new(a), step: Some(Box::new(b)), stop: Box::new(c) }, t)),
{
}

/// In a range `a:b` the first operand is the start and the second the stop,
/// with no step.
pub proof fn law_range_without_step(ts: Seq<TokV>, p: int, a: SMos, q: int, b: SMos, r: int)
    requires
        g_level(ts, p, 1) == Some((a, q)),
        adv(p, q, ts.len() as int),
        sym(ts, q, ":"@),
        g_level(ts, q + 1, 1) == Some((b, r)),
        adv(q + 1, r, ts.len() as int),
        !sym(ts, r, ":"@),
    ensures
        g_for_iter(ts, p) == Some((SMos::Range { start: Box::new(a), step: None, stop: Box::new(b) }, r)),
{
}

/// `stmt`.
#[verifier::opaque]
pub open spec fn g_stmt(cs: Seq<char>, ts: Seq<TokV>, p: int) -> Option<(SMosStmt, int)>
    decreases ts.len() - p, 2int,
{
    if kw(ts, p, "if"@) {
        match g_mexpr(ts, p + 1) {
            None => None,
            Some((c, q)) => if adv(p + 1, q, ts.len() as int) && kw(ts, q, "then"@) {
                let (body, r) = g_stmts(cs, ts, q + 1, Seq::empty());
                if adv(q + 1, r, ts.len() as int) {
                    let (eifs, s) = g_elseifs(cs, ts, r, Seq::empty());
                    if adv(r, s, ts.len() as int) {
                        let (els, t) = if kw(ts, s, "else"@) { g_stmts(cs, ts, s + 1, Seq::empty()) } else { (Seq::empty(), s) };
                        if adv(s, t, ts.len() as int) && kw(ts, t, "end"@) && kw(ts, t + 1, "if"@) {
                            Some((SMosStmt::If { cond: c, then_body: body, elseif: eifs, else_body: els, span: stmt_span(cs, ts, p) }, opt_semi(ts, t + 2)))
                        } else {
                            None
                        }
                    } else {
                        None
                    }
                } else {
                    None
                }
            } else {
                None
            },
        }
    } else if kw(ts, p, "for"@) {
        if is_name(ts, p + 1) && kw(ts, p + 2, "in"@) {
            match g_for_iter(ts, p + 3) {
                None => None,
                Some((it, q)) => if adv(p + 3, q, ts.len() as int) && kw(ts, q, "loop"@) {
                    let (body, r) = g_stmts(cs, ts, q + 1, Seq::empty());
                    if adv(q + 1, r, ts.len() as int) && kw(ts, r, "end"@) && kw(ts, r + 1, "for"@) {
                        Some((SMosStmt::For { var: ts[p + 1].text, iter: it, body, span: stmt_span(cs, ts, p) }, opt_semi(ts, r + 2)))
                    } else {
                        None
                    }
                } else {
                    None
                },
            }
        } else {
            None
        }
    } else if is_name(ts, p) && sym(ts, p + 1, ":="@) {
        match g_mexpr(ts, p + 2) {
            None => None,
            Some((v, q)) => if adv(p + 2, q, ts.len() as int) {
                Some((SMosStmt::Assign { name: ts[p].text, value: v, span: stmt_span(cs, ts, p) }, opt_semi(ts, q)))
            } else {
                None
            },
        }
    } else {
        match g_mexpr(ts, p) {
            None => None,
            Some((e, q)) => if adv(p, q, ts.len() as int) {
                Some((SMosStmt::Expr { expr: e, span: stmt_span(cs, ts, p) }, opt_semi(ts, q)))
            } else {
                None
            },
        }
    }
}

/// `stmt*` from `p`, appended to `acc`: as many statements as parse.
#[verifier::opaque]
pub open spec fn g_stmts(cs: Seq<char>, ts: Seq<TokV>, p: int, acc: Seq<SMosStmt>) -> (Seq<SMosStmt>, int)
    decreases ts.len() - p, 3int,
{
    match g_stmt(cs, ts, p) {
        Some((st, q)) => if adv(p + 1, q, ts.len() as int) { g_stmts(cs, ts, q, acc.push(st)) } else { (acc, p) },
        None => (acc, p),
    }
}

/// `("elseif" expr "then" stmt*)*` from `p`, appended to `acc`.
#[verifier::opaque]
pub open spec fn g_elseifs(cs: Seq<char>, ts: Seq<TokV>, p: int, acc: Seq<(SMos, Seq<SMosStmt>)>) -> (Seq<(SMos, Seq<SMosStmt>)>, int)
    decreases ts.len() - p, 1int,
{
    if kw(ts, p, "elseif"@) {
        match g_mexpr(ts, p + 1) {
            Some((c, q)) => if adv(p + 1, q, ts.len() as int) && kw(ts, q, "then"@) {
                let (b, r) = g_stmts(cs, ts, q + 1, Seq::empty());
                if adv(q + 1, r, ts.len() as int) { g_elseifs(cs, ts, r, acc.push((c, b))) } else { (acc, p) }
            } else {
                (acc, p)
            },
            None => (acc, p),
        }
    } else {
        (acc, p)
    }
}

/// The statements of a script, or the character offset where they stop
/// (where no token can be read, or the first token that no statement takes).
pub open spec fn spec_parse_mos(cs: Seq<char>) -> Result<Seq<SMosStmt>, int> {
    match lex(cs) {
        Err(e) => Err(e),
        Ok(ts) => {
            let (ss, q) = g_stmts(cs, ts, 0, Seq::empty());
            if q >= ts.len() { Ok(ss) } else { Err(ts[q].start) }
        },
    }
}

pub proof fn unfold_stmt(cs: Seq<char>, ts: Seq<TokV>, p: int)
    ensures
        g_stmt(cs, ts, p) == ({
            if kw(ts, p, "if"@) {
                match g_mexpr(ts, p + 1) {
                    None => None,
                    Some((c, q)) => if adv(p + 1, q, ts.len() as int) && kw(ts, q, "then"@) {
                        let (body, r) = g_stmts(cs, ts, q + 1, Seq::empty());
                        if adv(q + 1, r, ts.len() as int) {
                            let (eifs, s) = g_elseifs(cs, ts, r, Seq::empty());
                            if adv(r, s, ts.len() as int) {
                                let (els, t) = if kw(ts, s, "else"@) { g_stmts(cs, ts, s + 1, Seq::empty()) } else { (Seq::empty(), s) };
                                if adv(s, t, ts.len() as int) && kw(ts, t, "end"@) && kw(ts, t + 1, "if"@) {
                                    Some((SMosStmt::If { cond: c, then_body: body, elseif: eifs, else_body: els, span: stmt_span(cs, ts, p) }, opt_semi(ts, t + 2)))
                                } else {
                                    None
                                }
                            } else {
                                None
                            }
                        } else {
                            None
                        }
                    } else {
                        None
                    },
                }
            } else if kw(ts, p, "for"@) {
                if is_name(ts, p + 1) && kw(ts, p + 2, "in"@) {
                    match g_for_iter(ts, p + 3) {
                        None => None,
                        Some((it, q)) => if adv(p + 3, q, ts.len() as int) && kw(ts, q, "loop"@) {
                            let (body, r) = g_stmts(cs, ts, q + 1, Seq::empty());
                            if adv(q + 1, r, ts.len() as int) && kw(ts, r, "end"@) && kw(ts, r + 1, "for"@) {
                                Some((SMosStmt::For { var: ts[p + 1].text, iter: it, body, span: stmt_span(cs, ts, p) }, opt_semi(ts, r + 2)))
                            } else {
                                None
                            }
                        } else {
                            None
                        },
                    }
                } else {
                    None
                }
            } else if is_name(ts, p) && sym(ts, p + 1, ":="@) {
                match g_mexpr(ts, p + 2) {
                    None => None,
                    Some((v, q)) => if adv(p + 2, q, ts.len() as int) {
                        Some((SMosStmt::Assign { name: ts[p].text, value: v, span: stmt_span(cs, ts, p) }, opt_semi(ts, q)))
                    } else {
                        None
                    },
                }
            } else {
                match g_mexpr(ts, p) {
                    None => None,
                    Some((e, q)) => if adv(p, q, ts.len() as int) {
                        Some((SMosStmt::Expr { expr: e, span: stmt_span(cs, ts, p) }, opt_semi(ts, q)))
                    } else {
                        None
                    },
                }
            }
        }),
{
    reveal(g_stmt);
    reveal(g_stmts);
    reveal(g_elseifs);
}

pub proof fn unfold_stmts(cs: Seq<char>, ts: Seq<TokV>, p: int, acc: Seq<SMosStmt>)
    ensures
        g_stmts(cs, ts, p, acc) == ({
            match g_stmt(cs, ts, p) {
                Some((st, q)) => if adv(p + 1, q, ts.len() as int) { g_stmts(cs, ts, q, acc.push(st)) } else { (acc, p) },
                None => (acc, p),
            }
        }),
{
    reveal(g_stmts);
    reveal(g_stmt);
}

pub proof fn unfold_elseifs(cs: Seq<char>, ts: Seq<TokV>, p: int, acc: Seq<(SMos, Seq<SMosStmt>)>)
    ensures
        g_elseifs(cs, ts, p, acc) == ({
            if kw(ts, p, "elseif"@) {
                match g_mexpr(ts, p + 1) {
                    Some((c, q)) => if adv(p + 1, q, ts.len() as int) && kw(ts, q, "then"@) {
                        let (b, r) = g_stmts(cs, ts, q + 1, Seq::empty());
                        if adv(q + 1, r, ts.len() as int) { g_elseifs(cs, ts, r, acc.push((c, b))) } else { (acc, p) }
                    } else {
                        (acc, p)
                    },
                    None => (acc, p),
                }
            } else {
                (acc, p)
            }
        }),
{
    reveal(g_elseifs);
    reveal(g_stmts);
}

/// A parse result holding an expression.
pub open spec fn om(r: Option<(MosExpr, usize)>) -> Option<(SMos, int)> {
    match r {
        Some((e, q)) => Some((e@, q as int)),
        None => None,
    }
}

fn trim_quotes_exec(v: &Vec<char>) -> (r: (usize, usize))
    ensures
        r.0 <= r.1 <= v@.len(),
        v@.subrange(r.0 as int, r.1 as int) == trim_quotes_end(trim_quotes_start(v@)),
{
    let n = v.len();
    let mut a: usize = 0;
    assert(v@.skip(0) =~= v@);
    while a < n && v[a] == '"'
        invariant
            a <= n == v@.len(),
            trim_quotes_start(v@) == trim_quotes_start(v@.skip(a as int)),
        decreases n - a,
    {
        assert(v@.skip(a as int).drop_first() =~= v@.skip(a + 1));
        a += 1;
    }
    let ghost t = v@.skip(a as int);
    assert(trim_quotes_start(t) == t);
    let mut b: usize = n;
    assert(t.take((b - a) as int) =~= t);
    while b > a && v[b - 1] == '"'
        invariant
            a <= b <= n == v@.len(),
            t == v@.skip(a as int),
            trim_quotes_end(t) == trim_quotes_end(t.take((b - a) as int)),
        decreases b,
    {
        assert(t.take((b - a) as int).drop_last() =~= t.take((b - 1 - a) as int));
        b -= 1;
    }
    assert(trim_quotes_end(t.take((b - a) as int)) == t.take((b - a) as int));
    assert(t.take((b - a) as int) =~= v@.subrange(a as int, b as int));
    (a, b)
}

/// The value of a string literal with the characters `text` between its quotes.
fn mos_string_exec(text: &str) -> (r: String)
    ensures
        r@ == mos_string(text@),
{
    let mut raw = String::new();
    crate::text::push_char(&mut raw, '"');
    raw.append(text);
    crate::text::push_char(&mut raw, '"');
    assert(raw@ =~= seq!['"'] + text@ + seq!['"']);
    let cs = chars_of(raw.as_str());
    let (a, b) = trim_quotes_exec(&cs);
    let inner = crate::text::string_of_range(&cs, a, b);
    proof {
        reveal_strlit("\\\"");
    }
    replace_str(inner.as_str(), "\\\"", "\"")
}

fn is_bool_exec(ts: &Vec<Token>, p: usize) -> (r: bool)
    ensures
        r == is_bool(toks_view(ts@), p as int),
{
    if p < ts.len() && ts[p].kind == TokKind::Ident {
        let cs = chars_of(ts[p].text.as_str());
        assert(cs@.subrange(0, cs@.len() as int) =~= cs@);
        range_eq_ignore_case(&cs, 0, cs.len(), "true") || range_eq_ignore_case(&cs, 0, cs.len(), "false")
    } else {
        false
    }
}

fn is_true_exec(t: &String) -> (r: bool)
    ensures
        r == eq_ignore_case(t@, "true"@),
{
    let cs = chars_of(t.as_str());
    assert(cs@.subrange(0, cs@.len() as int) =~= cs@);
    range_eq_ignore_case(&cs, 0, cs.len(), "true")
}

fn named_at_exec(ts: &Vec<Token>, p: usize) -> (r: bool)
    ensures
        r == named_at(toks_view(ts@), p as int),
{
    at_name(ts, p) && p < ts.len() && at_sym(ts, p + 1, "=")
}

fn parse_primary(ts: &Vec<Token>, p: usize) -> (r: Option<(MosExpr, usize)>)
    requires
        p <= ts.len(),
    ensures
        om(r) == g_primary(toks_view(ts@), p as int),
    decreases ts@.len() - p, 1int,
{
    proof {
        unfold_primary(toks_view(ts@), p as int);
    }
    if at_kind(ts, p, TokKind::Number) {
        Some((MosExpr::Number(ts[p].text.clone()), p + 1))
    } else if at_kind(ts, p, TokKind::Str) {
        Some((MosExpr::String(mos_string_exec(ts[p].text.as_str())), p + 1))
    } else if is_bool_exec(ts, p) {
        Some((MosExpr::Bool(is_true_exec(&ts[p].text)), p + 1))
    } else if at_sym(ts, p, "(") {
        match parse_mexpr(ts, p + 1) {
            Some((e, q)) => if p + 1 <= q && q <= ts.len() && at_sym(ts, q, ")") { Some((e, q + 1)) } else { None },
            None => None,
        }
    } else if at_sym(ts, p, "{") {
        if named_at_exec(ts, p + 1) {
            let acc: Vec<(String, MosExpr)> = Vec::new();
            assert(mos_fields_view(acc@) =~= Seq::<(Seq<char>, SMos)>::empty());
            match parse_fields(ts, p + 1, acc) {
                Some((fs, q)) => if p + 1 <= q && q <= ts.len() && at_sym(ts, q, "}") { Some((MosExpr::Record(fs), q + 1)) } else { None },
                None => None,
            }
        } else if at_sym(ts, p + 1, "}") {
            let v: Vec<MosExpr> = Vec::new();
            assert(mos_list_view(v@) =~= Seq::<SMos>::empty());
            Some((MosExpr::Array(v), p + 2))
        } else {
            let acc: Vec<MosExpr> = Vec::new();
            assert(mos_list_view(acc@) =~= Seq::<SMos>::empty());
            match parse_items(ts, p + 1, acc) {
                Some((xs, q)) => if p + 1 <= q && q <= ts.len() && at_sym(ts, q, "}") { Some((MosExpr::Array(xs), q + 1)) } else { None },
                None => None,
            }
        }
    } else {
        match parse_dotted(ts, p) {
            None => None,
            Some((n, q)) => {
                if at_sym(ts, q, "(") {
                    if at_sym(ts, q + 1, ")") {
                        let v: Vec<MosArg> = Vec::new();
                        assert(mos_args_view(v@) =~= Seq::<(Option<Seq<char>>, SMos)>::empty());
                        Some((MosExpr::Call { name: n, args: v }, q + 2))
                    } else {
                        let acc: Vec<MosArg> = Vec::new();
                        assert(mos_args_view(acc@) =~= Seq::<(Option<Seq<char>>, SMos)>::empty());
                        match parse_margs(ts, q + 1, acc) {
                            Some((a, r)) => if q + 1 <= r && r <= ts.len() && at_sym(ts, r, ")") {
                                Some((MosExpr::Call { name: n, args: a }, r + 1))
                            } else {
                                None
                            },
                            None => None,
                        }
                    }
                } else {
                    Some((MosExpr::Ident(n), q))
                }
            },
        }
    }
}

fn parse_items(ts: &Vec<Token>, p: usize, acc: Vec<MosExpr>) -> (r: Option<(Vec<MosExpr>, usize)>)
    requires
        p <= ts.len(),
    ensures
        (match r {
            Some((v, q)) => Some((mos_list_view(v@), q as int)),
            None => None,
        }) == g_items(toks_view(ts@), p as int, mos_list_view(acc@)),
    decreases ts@.len() - p, 10int,
{
    proof {
        unfold_items(toks_view(ts@), p as int, mos_list_view(acc@));
    }
    match parse_mexpr(ts, p) {
        None => None,
        Some((e, q)) => {
            if p <= q && q <= ts.len() {
                let mut acc = acc;
                proof {
                    lemma_mos_list_push(acc@, e);
                }
                acc.push(e);
                if at_sym(ts, q, ",") { parse_items(ts, q + 1, acc) } else { Some((acc, q)) }
            } else {
                None
            }
        },
    }
}

fn parse_fields(ts: &Vec<Token>, p: usize, acc: Vec<(String, MosExpr)>) -> (r: Option<(Vec<(String, MosExpr)>, usize)>)
    requires
        p <= ts.len(),
    ensures
        (match r {
            Some((v, q)) => Some((mos_fields_view(v@), q as int)),
            None => None,
        }) == g_fields(toks_view(ts@), p as int, mos_fields_view(acc@)),
    decreases ts@.len() - p, 10int,
{
    proof {
        unfold_fields(toks_view(ts@), p as int, mos_fields_view(acc@));
    }
    if named_at_exec(ts, p) {
        match parse_mexpr(ts, p + 2) {
            None => None,
            Some((e, q)) => {
                if p + 2 <= q && q <= ts.len() {
                    let mut acc = acc;
                    let item = (ts[p].text.clone(), e);
                    proof {
                        lemma_mos_fields_push(acc@, item);
                    }
                    acc.push(item);
                    if at_sym(ts, q, ",") { parse_fields(ts, q + 1, acc) } else { Some((acc, q)) }
                } else {
                    None
                }
            },
        }
    } else {
        None
    }
}

fn parse_margs(ts: &Vec<Token>, p: usize, acc: Vec<MosArg>) -> (r: Option<(Vec<MosArg>, usize)>)
    requires
        p <= ts.len(),
    ensures
        (match r {
            Some((v, q)) => Some((mos_args_view(v@), q as int)),
            None => None,
        }) == g_margs(toks_view(ts@), p as int, mos_args_view(acc@)),
    decreases ts@.len() - p, 10int,
{
    proof {
        unfold_margs(toks_view(ts@), p as int, mos_args_view(acc@));
    }
    let named = named_at_exec(ts, p);
    let name = if named { Some(ts[p].text.clone()) } else { None };
    let s = if named { p + 2 } else { p };
    match parse_mexpr(ts, s) {
        None => None,
        Some((e, q)) => {
            if s <= q && q <= ts.len() {
                let mut acc = acc;
                let arg = MosArg { name, value: e };
                proof {
                    lemma_mos_args_push(acc@, arg);
                }
                acc.push(arg);
                if at_sym(ts, q, ",") { parse_margs(ts, q + 1, acc) } else { Some((acc, q)) }
            } else {
                None
            }
        },
    }
}

fn parse_unary(ts: &Vec<Token>, p: usize) -> (r: Option<(MosExpr, usize)>)
    requires
        p <= ts.len(),
    ensures
        om(r) == g_unary(toks_view(ts@), p as int),
    decreases ts@.len() - p, 2int,
{
    proof {
        unfold_unary(toks_view(ts@), p as int);
    }
    if at_sym(ts, p, "-") || at_sym(ts, p, "+") || at_kw(ts, p, "not") {
        match parse_unary(ts, p + 1) {
            None => None,
            Some((e, q)) => Some((MosExpr::Unary { op: ts[p].text.clone(), expr: Box::new(e) }, q)),
        }
    } else {
        parse_primary(ts, p)
    }
}

fn op_at_exec(ts: &Vec<Token>, p: usize, level: usize) -> (r: bool)
    ensures
        r == op_at(toks_view(ts@), p as int, level as nat),
{
    if level == 0 {
        at_sym(ts, p, "*") || at_sym(ts, p, "/")
    } else if level == 1 {
        at_sym(ts, p, "+") || at_sym(ts, p, "-")
    } else {
        at_sym(ts, p, "==") || at_sym(ts, p, "<>") || at_sym(ts, p, "<") || at_sym(ts, p, "<=") || at_sym(ts, p, ">")
            || at_sym(ts, p, ">=")
    }
}

fn parse_level(ts: &Vec<Token>, p: usize, level: usize) -> (r: Option<(MosExpr, usize)>)
    requires
        p <= ts.len(),
        level <= 2,
    ensures
        om(r) == g_level(toks_view(ts@), p as int, level as nat),
    decreases ts@.len() - p, 4 + 2 * level,
{
    proof {
        unfold_level(toks_view(ts@), p as int, level as nat);
    }
    let operand = if level == 0 { parse_unary(ts, p) } else { parse_level(ts, p, level - 1) };
    match operand {
        None => None,
        Some((a, q)) => if p <= q && q <= ts.len() { parse_level_tail(ts, q, level, a) } else { None },
    }
}

fn parse_level_tail(ts: &Vec<Token>, p: usize, level: usize, lhs: MosExpr) -> (r: Option<(MosExpr, usize)>)
    requires
        p <= ts.len(),
        level <= 2,
    ensures
        om(r) == g_level_tail(toks_view(ts@), p as int, level as nat, lhs@),
    decreases ts@.len() - p, 3 + 2 * level,
{
    proof {
        unfold_level_tail(toks_view(ts@), p as int, level as nat, lhs@);
    }
    if op_at_exec(ts, p, level) {
        let operand = if level == 0 { parse_unary(ts, p + 1) } else { parse_level(ts, p + 1, level - 1) };
        match operand {
            None => None,
            Some((r, q)) => {
                if p + 1 <= q && q <= ts.len() {
                    let op = ts[p].text.clone();
                    parse_level_tail(ts, q, level, MosExpr::Binary { op, left: Box::new(lhs), right: Box::new(r) })
                } else {
                    None
                }
            },
        }
    } else {
        Some((lhs, p))
    }
}

fn parse_mexpr(ts: &Vec<Token>, p: usize) -> (r: Option<(MosExpr, usize)>)
    requires
        p <= ts.len(),
    ensures
        om(r) == g_mexpr(toks_view(ts@), p as int),
    decreases ts@.len() - p, 9int,
{
    proof {
        unfold_mexpr(toks_view(ts@), p as int);
    }
    parse_level(ts, p, 2)
}


fn span_exec(cs: &Vec<char>, off: usize) -> (r: MosSpan)
    requires
        off <= cs@.len() < usize::MAX,
    ensures
        r == span_at(cs@, off as int),
{
    let mut lines: usize = 1;
    let mut last: Option<usize> = None;
    let mut i: usize = 0;
    assert(cs@.take(0) =~= Seq::<char>::empty());
    while i < off
        invariant
            i <= off <= cs@.len() < usize::MAX,
            lines == 1 + count_nl(cs@.take(i as int)),
            lines <= i + 1,
            match last {
                Some(k) => k < i && k as int == crate::text::last_index_of(cs@.take(i as int), '\n'),
                None => crate::text::last_index_of(cs@.take(i as int), '\n') == -1,
            },
        decreases off - i,
    {
        assert(cs@.take(i + 1).drop_last() =~= cs@.take(i as int));
        assert(cs@.take(i + 1).last() == cs@[i as int]);
        if cs[i] == '\n' {
            lines += 1;
            last = Some(i);
        }
        i += 1;
    }
    let col = match last {
        Some(k) => off - k,
        None => off + 1,
    };
    MosSpan { line: lines, col }
}

fn opt_semi_exec(ts: &Vec<Token>, q: usize) -> (r: usize)
    requires
        q <= ts.len(),
    ensures
        r as int == opt_semi(toks_view(ts@), q as int),
        r <= ts.len(),
{
    if at_sym(ts, q, ";") { q + 1 } else { q }
}

fn parse_for_iter(ts: &Vec<Token>, p: usize) -> (r: Option<(MosExpr, usize)>)
    requires
        p <= ts.len(),
    ensures
        om(r) == g_for_iter(toks_view(ts@), p as int),
{
    match parse_level(ts, p, 1) {
        Some((a, q)) => {
            if p <= q && q <= ts.len() && at_sym(ts, q, ":") {
                match parse_level(ts, q + 1, 1) {
                    Some((b, r)) => {
                        if q + 1 <= r && r <= ts.len() {
                            if at_sym(ts, r, ":") {
                                match parse_level(ts, r + 1, 1) {
                                    Some((c, t)) => Some((MosExpr::Range { start: Box::new(a), step: Some(Box::new(b)), stop: Box::new(c) }, t)),
                                    None => None,
                                }
                            } else {
                                Some((MosExpr::Range { start: Box::new(a), step: None, stop: Box::new(b) }, r))
                            }
                        } else {
                            None
                        }
                    },
                    None => None,
                }
            } else {
                parse_mexpr(ts, p)
            }
        },
        None => parse_mexpr(ts, p),
    }
}

fn parse_stmt(cs: &Vec<char>, ts: &Vec<Token>, p: usize) -> (r: Option<(MosStmt, usize)>)
    requires
        p <= ts.len(),
        spans_ok(cs@, toks_view(ts@)),
        cs@.len() < usize::MAX,
    ensures
        (match r {
            Some((st, q)) => Some((st@, q as int)),
            None => None,
        }) == g_stmt(cs@, toks_view(ts@), p as int),
    decreases ts@.len() - p, 2int,
{
    proof {
        unfold_stmt(cs@, toks_view(ts@), p as int);
    }
    let ghost tv = toks_view(ts@);
    if at_kw(ts, p, "if") {
        assert(tv[p as int] == ts@[p as int]@);
        let span = span_exec(cs, ts[p].start);
        match parse_mexpr(ts, p + 1) {
            None => None,
            Some((c, q)) => {
                if p + 1 <= q && q <= ts.len() && at_kw(ts, q, "then") {
                    let (body, r) = parse_stmts(cs, ts, q + 1, Vec::new());
                    if q + 1 <= r && r <= ts.len() {
                        let (eifs, s) = parse_elseifs(cs, ts, r, Vec::new());
                        if r <= s && s <= ts.len() {
                            let (els, t) = if at_kw(ts, s, "else") { parse_stmts(cs, ts, s + 1, Vec::new()) } else { (Vec::new(), s) };
                            if s <= t && t <= ts.len() && at_kw(ts, t, "end") && at_kw(ts, t + 1, "if") {
                                let end = opt_semi_exec(ts, t + 2);
                                Some((MosStmt::If { cond: c, then_body: body, elseif: eifs, else_body: els, span }, end))
                            } else {
                                None
                            }
                        } else {
                            None
                        }
                    } else {
                        None
                    }
                } else {
                    None
                }
            },
        }
    } else if at_kw(ts, p, "for") {
        if at_name(ts, p + 1) && at_kw(ts, p + 2, "in") {
            assert(tv[p as int] == ts@[p as int]@);
            let span = span_exec(cs, ts[p].start);
            match parse_for_iter(ts, p + 3) {
                None => None,
                Some((it, q)) => {
                    if p + 3 <= q && q <= ts.len() && at_kw(ts, q, "loop") {
                        let (body, r) = parse_stmts(cs, ts, q + 1, Vec::new());
                        if q + 1 <= r && r <= ts.len() && at_kw(ts, r, "end") && at_kw(ts, r + 1, "for") {
                            let end = opt_semi_exec(ts, r + 2);
                            Some((MosStmt::For { var: ts[p + 1].text.clone(), iter: it, body, span }, end))
                        } else {
                            None
                        }
                    } else {
                        None
                    }
                },
            }
        } else {
            None
        }
    } else if at_name(ts, p) && at_sym(ts, p + 1, ":=") {
        assert(tv[p as int] == ts@[p as int]@);
        let span = span_exec(cs, ts[p].start);
        match parse_mexpr(ts, p + 2) {
            None => None,
            Some((v, q)) => {
                if p + 2 <= q && q <= ts.len() {
                    let end = opt_semi_exec(ts, q);
                    Some((MosStmt::Assign { name: ts[p].text.clone(), value: v, span }, end))
                } else {
                    None
                }
            },
        }
    } else {
        match parse_mexpr(ts, p) {
            None => None,
            Some((e, q)) => {
                if p <= q && q <= ts.len() {
                    assert(p < ts.len()) by {
                        reveal(g_mexpr);
                        reveal(g_level);
                        reveal(g_level_tail);
                        reveal(g_unary);
                        reveal(g_primary);
                    }
                    assert(tv[p as int] == ts@[p as int]@);
                    let span = span_exec(cs, ts[p].start);
                    let end = opt_semi_exec(ts, q);
                    Some((MosStmt::Expr { expr: e, span }, end))
                } else {
                    None
                }
            },
        }
    }
}

fn parse_stmts(cs: &Vec<char>, ts: &Vec<Token>, p: usize, acc: Vec<MosStmt>) -> (r: (Vec<MosStmt>, usize))
    requires
        p <= ts.len(),
        spans_ok(cs@, toks_view(ts@)),
        cs@.len() < usize::MAX,
    ensures
        (mos_stmts_view(r.0@), r.1 as int) == g_stmts(cs@, toks_view(ts@), p as int, mos_stmts_view(acc@)),
    decreases ts@.len() - p, 3int,
{
    proof {
        unfold_stmts(cs@, toks_view(ts@), p as int, mos_stmts_view(acc@));
    }
    match parse_stmt(cs, ts, p) {
        Some((st, q)) => {
            if p < q && q <= ts.len() {
                let mut acc = acc;
                proof {
                    lemma_mos_stmts_push(acc@, st);
                }
                acc.push(st);
                parse_stmts(cs, ts, q, acc)
            } else {
                (acc, p)
            }
        },
        None => (acc, p),
    }
}

fn parse_elseifs(cs: &Vec<char>, ts: &Vec<Token>, p: usize, acc: Vec<(MosExpr, Vec<MosStmt>)>) -> (r: (Vec<(MosExpr, Vec<MosStmt>)>, usize))
    requires
        p <= ts.len(),
        spans_ok(cs@, toks_view(ts@)),
        cs@.len() < usize::MAX,
    ensures
        (mos_branches_view(r.0@), r.1 as int) == g_elseifs(cs@, toks_view(ts@), p as int, mos_branches_view(acc@)),
    decreases ts@.len() - p, 1int,
{
    proof {
        unfold_elseifs(cs@, toks_view(ts@), p as int, mos_branches_view(acc@));
    }
    if at_kw(ts, p, "elseif") {
        match parse_mexpr(ts, p + 1) {
            Some((c, q)) => {
                if p + 1 <= q && q <= ts.len() && at_kw(ts, q, "then") {
                    let (b, r) = parse_stmts(cs, ts, q + 1, Vec::new());
                    if q + 1 <= r && r <= ts.len() {
                        let mut acc = acc;
                        let item = (c, b);
                        proof {
                            lemma_mos_branches_push(acc@, item);
                        }
                        acc.push(item);
                        parse_elseifs(cs, ts, r, acc)
                    } else {
                        (acc, p)
                    }
                } else {
                    (acc, p)
                }
            },
            None => (acc, p),
        }
    } else {
        (acc, p)
    }
}

/// The message of a script that does not parse, stopping at character `pos`.
pub open spec fn mos_error_message(pos: int) -> Seq<char> {
    "mos parse error at offset "@ + decimal(pos as nat)
}

/// Parses a script into its statements (see [`spec_parse_mos`]).
pub fn parse_mos_script(input: &str) -> (r: Result<Vec<MosStmt>, String>)
    requires
        input@.len() < usize::MAX,
    ensures
        match spec_parse_mos(input@) {
            Ok(ss) => r matches Ok(v) && mos_stmts_view(v@) == ss,
            Err(pos) => r matches Err(m) && m@ == mos_error_message(pos),
        },
{
    let cs = chars_of(input);
    match crate::lexer::tokenize_chars(&cs) {
        Err(e) => {
            let n = usize_to_string(e);
            Err(concat("mos parse error at offset ", n.as_str()))
        },
        Ok(ts) => {
            proof {
                crate::parser::lemma_lex_spans(cs@, 0);
            }
            let (stmts, q) = parse_stmts(&cs, &ts, 0, Vec::new());
            if q >= ts.len() {
                Ok(stmts)
            } else {
                assert(toks_view(ts@)[q as int] == ts@[q as int]@);
                let n = usize_to_string(ts[q].start);
                Err(concat("mos parse error at offset ", n.as_str()))
            }
        },
    }
}

impl MosParser {
    /// Parses a script into its statements (see [`parse_mos_script`]).
    pub fn parse_script(input: &str) -> (r: Result<Vec<MosStmt>, String>)
        requires
            input@.len() < usize::MAX,
        ensures
            match spec_parse_mos(input@) {
                Ok(ss) => r matches Ok(v) && mos_stmts_view(v@) == ss,
                Err(pos) => r matches Err(m) && m@ == mos_error_message(pos),
            },
    {
        parse_mos_script(input)
    }
}

} // verus!
