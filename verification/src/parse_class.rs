//! The grammar of modifications, component declarations, imports, class
//! definitions and whole source files over tokens (`g_*`), and the readers that
//! return exactly what it gives (`parse_*`). Annotations are kept as their
//! source text, so some rules also take the source characters `cs`.

use vstd::prelude::*;
use crate::ast::{Expression, SExpr, clone_expr, group_ast_views};
use crate::grammar::{adv, at_kind, at_kw, at_name, at_sym, g_dotted, is_name, kind_at, kw, parse_dotted, sym};
use crate::lexer::{TokKind, TokV, Token, toks_view};
use crate::model::{Declaration, Modification, SDecl, SMod, SModel, decls_view, mods_view, opt_expr_view, opt_str_view};
use crate::parse_eq::{close_paren, close_paren_exec, comment_end, comment_end_exec, expr_to_string, expr_to_string_exec};
use crate::parse_expr::{g_compref, g_expr, g_sub_rest, parse_compref, parse_expr};
use crate::text::{chars_of, concat, range_eq, string_of_range};

verus! {

broadcast use {vstd::std_specs::vec::axiom_spec_len, group_ast_views};

/// A name with the quotes of a quoted identifier `'...'` taken off.
pub open spec fn unquote(s: Seq<char>) -> Seq<char> {
    if s.len() >= 2 && s[0] == '\'' && s[s.len() - 1] == '\'' {
        s.subrange(1, s.len() - 1)
    } else {
        s
    }
}

/// Whether `t` occurs in `s`.
pub open spec fn has_sub(s: Seq<char>, t: Seq<char>) -> bool {
    exists|i: int| 0 <= i && i + t.len() <= s.len() && #[trigger] s.subrange(i, i + t.len()) == t
}

/// Whether `t` occurs in the characters `v`.
pub fn contains_str(v: &Vec<char>, t: &str) -> (r: bool)
    ensures
        r == has_sub(v@, t@),
{
    let tv = chars_of(t);
    let m = tv.len();
    let n = v.len();
    if m > n {
        proof {
            assert forall|i: int| 0 <= i && i + t@.len() <= v@.len() implies #[trigger] v@.subrange(i, i + t@.len()) != t@ by {}
        }
        return false;
    }
    if m == 0 {
        assert(v@.subrange(0int, 0int + t@.len()) =~= t@);
        return true;
    }
    let mut i: usize = 0;
    while i <= n - m
        invariant
            m == t@.len(),
            n == v@.len(),
            tv@ == t@,
            0 < m <= n,
            i <= n - m + 1,
            forall|j: int| 0 <= j < i ==> #[trigger] v@.subrange(j, j + m) != t@,
        decreases n - m + 1 - i,
    {
        if range_eq(v, i, i + m, t) {
            assert(v@.subrange(i as int, i + t@.len()) == t@);
            return true;
        }
        i += 1;
    }
    proof {
        assert forall|j: int| 0 <= j && j + t@.len() <= v@.len() implies #[trigger] v@.subrange(j, j + t@.len()) != t@ by {
            assert(j < i);
        }
    }
    false
}

/// The text of a source span from the start of token `a` to the end of the
/// token before `b`.
pub open spec fn span_text(cs: Seq<char>, ts: Seq<TokV>, a: int, b: int) -> Seq<char> {
    cs.subrange(ts[a].start, ts[b - 1].end)
}

/// The tokens are the lexing of `cs`: each token's span lies in `cs` and the
/// spans come in order.
pub open spec fn spans_ok(cs: Seq<char>, ts: Seq<TokV>) -> bool {
    &&& forall|i: int| #![trigger ts[i]] 0 <= i < ts.len() ==> 0 <= ts[i].start && ts[i].start <= ts[i].end && ts[i].end <= cs.len()
    &&& forall|i: int, j: int| #![trigger ts[i], ts[j]] 0 <= i < j < ts.len() ==> ts[i].end <= ts[j].start
}

fn span_text_exec(cs: &Vec<char>, ts: &Vec<Token>, a: usize, b: usize) -> (r: String)
    requires
        a < b <= ts.len(),
        spans_ok(cs@, toks_view(ts@)),
    ensures
        r@ == span_text(cs@, toks_view(ts@), a as int, b as int),
{
    let ghost tv = toks_view(ts@);
    assert(tv[a as int].start <= tv[a as int].end);
    if a < b - 1 {
        assert(tv[a as int].end <= tv[b - 1].start);
    }
    string_of_range(cs, ts[a].start, ts[b - 1].end)
}

/// The flags that `each`, `final` and `replaceable` set before a modification.
pub open spec fn mod_prefix_end(ts: Seq<TokV>, p: int) -> int
    decreases ts.len() - p,
{
    if kw(ts, p, "each"@) || kw(ts, p, "final"@) || kw(ts, p, "replaceable"@) {
        mod_prefix_end(ts, p + 1)
    } else {
        p
    }
}

/// Whether `each` occurs among the tokens `[p, q)`.
pub open spec fn has_each(ts: Seq<TokV>, p: int, q: int) -> bool {
    exists|i: int| p <= i < q && #[trigger] kw(ts, i, "each"@)
}

/// A class keyword of a `redeclare` modification.
pub open spec fn class_kw(ts: Seq<TokV>, p: int) -> bool {
    kw(ts, p, "package"@) || kw(ts, p, "model"@) || kw(ts, p, "class"@) || kw(ts, p, "block"@)
        || kw(ts, p, "connector"@) || kw(ts, p, "record"@) || kw(ts, p, "function"@) || kw(ts, p, "type"@)
}

/// After a modification's name: an optional nested modification part (skipped),
/// an optional `= e`, and an optional string comment; the value and the end.
pub open spec fn g_mod_value(ts: Seq<TokV>, p: int) -> Option<(Option<SExpr>, int)> {
    let q = if sym(ts, p, "("@) {
        match close_paren(ts, p, 0) {
            Some(q) => q,
            None => -1,
        }
    } else {
        p
    };
    if q < 0 {
        None
    } else if sym(ts, q, "="@) {
        match g_expr(ts, q + 1) {
            Some((v, q2)) => if adv(q + 1, q2, ts.len() as int) { Some((Some(v), comment_end(ts, q2))) } else { None },
            None => None,
        }
    } else {
        Some((None, comment_end(ts, q)))
    }
}

/// One modification; a modification without a value reads as nothing.
/// `each`, `final`, `replaceable` may come first; `redeclare` marks a
/// redeclaration, of a class (`redeclare package M = P`) or of a component
/// (`redeclare T x = v`, whose type is kept).
pub open spec fn g_mod(ts: Seq<TokV>, p: int) -> Option<(Option<SMod>, int)> {
    let red = kw(ts, p, "redeclare"@);
    let s = if red { p + 1 } else { p };
    let q = mod_prefix_end(ts, s);
    let each = has_each(ts, s, q);
    if red && class_kw(ts, q) && kind_at(ts, q + 1, TokKind::Ident) {
        match g_mod_value(ts, q + 2) {
            Some((v, q2)) => Some((
                match v {
                    Some(x) => Some(SMod { name: ts[q + 1].text, value: Some(x), each, redeclare: true, redeclare_type: None }),
                    None => None,
                },
                q2,
            )),
            None => None,
        }
    } else if red {
        match g_dotted(ts, q) {
            Some((tn, q1)) => if kind_at(ts, q1, TokKind::Ident) {
                match g_mod_value(ts, q1 + 1) {
                    Some((v, q2)) => Some((
                        match v {
                            Some(x) => Some(SMod { name: ts[q1].text, value: Some(x), each, redeclare: true, redeclare_type: Some(tn) }),
                            None => None,
                        },
                        q2,
                    )),
                    None => None,
                }
            } else {
                None
            },
            None => None,
        }
    } else {
        match g_compref(ts, q) {
            Some((nm, q1)) => if adv(q, q1, ts.len() as int) {
                match g_mod_value(ts, q1) {
                    Some((v, q2)) => Some((
                        match v {
                            Some(x) => Some(SMod { name: expr_to_string(nm), value: Some(x), each, redeclare: false, redeclare_type: None }),
                            None => None,
                        },
                        q2,
                    )),
                    None => None,
                }
            } else {
                None
            },
            None => None,
        }
    }
}

/// Modifications separated by commas, those without a value left out.
pub open spec fn g_mod_list(ts: Seq<TokV>, p: int) -> Option<(Seq<SMod>, int)>
    decreases ts.len() - p,
{
    match g_mod(ts, p) {
        None => None,
        Some((m, q)) => {
            let first = match m {
                Some(x) => seq![x],
                None => Seq::empty(),
            };
            if adv(p, q, ts.len() as int) && sym(ts, q, ","@) {
                match g_mod_list(ts, q + 1) {
                    Some((rest, q2)) => Some((first + rest, q2)),
                    None => None,
                }
            } else {
                Some((first, q))
            }
        },
    }
}

/// The value of the last modification named `start`, if any.
pub open spec fn last_start(ms: Seq<SMod>) -> Option<SExpr>
    decreases ms.len(),
{
    if ms.len() == 0 {
        None
    } else if ms.last().name == "start"@ {
        ms.last().value
    } else {
        last_start(ms.drop_last())
    }
}

/// A modification part `( mods )` at `p`: the modifications and the position after.
pub open spec fn g_mod_part(ts: Seq<TokV>, p: int) -> Option<(Seq<SMod>, int)> {
    if sym(ts, p, "("@) {
        if sym(ts, p + 1, ")"@) {
            Some((Seq::empty(), p + 2))
        } else {
            match g_mod_list(ts, p + 1) {
                Some((ms, q)) => if sym(ts, q, ")"@) { Some((ms, q + 1)) } else { None },
                None => None,
            }
        }
    } else {
        None
    }
}

/// An optional modification part: nothing where there is no `(`.
pub open spec fn g_opt_mods(ts: Seq<TokV>, p: int) -> Option<(Seq<SMod>, int)> {
    if sym(ts, p, "("@) {
        match g_mod_part(ts, p) {
            Some((ms, q)) => if adv(p, q, ts.len() as int) { Some((ms, q)) } else { None },
            None => None,
        }
    } else {
        Some((Seq::empty(), p))
    }
}

/// An optional dimension `[d, ...]`: the first subscript where it is an
/// expression (a `:` gives none).
pub open spec fn g_opt_dim(ts: Seq<TokV>, p: int) -> Option<(Option<SExpr>, int)> {
    if sym(ts, p, "["@) {
        let first = if sym(ts, p + 1, ":"@) {
            Some((None, p + 2))
        } else {
            match g_expr(ts, p + 1) {
                Some((e, q)) => if adv(p + 1, q, ts.len() as int) { Some((Some(e), q)) } else { None },
                None => None,
            }
        };
        match first {
            Some((d, q)) => match g_sub_rest(ts, q) {
                Some(q2) => if adv(q, q2, ts.len() as int) && sym(ts, q2, "]"@) { Some((d, q2 + 1)) } else { None },
                None => None,
            },
            None => None,
        }
    } else {
        Some((None, p))
    }
}

} // verus!

verus! {

/// A parse result holding an optional expression.
pub open spec fn ooe(r: Option<(Option<Expression>, usize)>) -> Option<(Option<SExpr>, int)> {
    match r {
        Some((e, q)) => Some((opt_expr_view(e), q as int)),
        None => None,
    }
}

/// A parse result holding modifications.
pub open spec fn oms(r: Option<(Vec<Modification>, usize)>) -> Option<(Seq<SMod>, int)> {
    match r {
        Some((m, q)) => Some((mods_view(m@), q as int)),
        None => None,
    }
}

fn parse_mod_value(ts: &Vec<Token>, p: usize) -> (r: Option<(Option<Expression>, usize)>)
    requires
        p <= ts.len(),
    ensures
        ooe(r) == g_mod_value(toks_view(ts@), p as int),
        r matches Some((_v, q)) ==> p <= q <= ts.len(),
{
    let q = if at_sym(ts, p, "(") {
        match close_paren_exec(ts, p) {
            Some(q) => q,
            None => {
                return None;
            },
        }
    } else {
        p
    };
    if at_sym(ts, q, "=") {
        match parse_expr(ts, q + 1) {
            Some((v, q2)) => {
                if q + 1 <= q2 && q2 <= ts.len() {
                    Some((Some(v), comment_end_exec(ts, q2)))
                } else {
                    None
                }
            },
            None => None,
        }
    } else {
        Some((None, comment_end_exec(ts, q)))
    }
}

} // verus!

verus! {

/// A parse result holding an optional modification.
pub open spec fn oom(r: Option<(Option<Modification>, usize)>) -> Option<(Option<SMod>, int)> {
    match r {
        Some((m, q)) => Some((
            match m {
                Some(x) => Some(x@),
                None => None,
            },
            q as int,
        )),
        None => None,
    }
}

pub proof fn lemma_mod_prefix_end(ts: Seq<TokV>, p: int)
    requires
        0 <= p <= ts.len(),
    ensures
        p <= mod_prefix_end(ts, p) <= ts.len(),
    decreases ts.len() - p,
{
    if kw(ts, p, "each"@) || kw(ts, p, "final"@) || kw(ts, p, "replaceable"@) {
        lemma_mod_prefix_end(ts, p + 1);
    }
}

fn mod_prefix_exec(ts: &Vec<Token>, s: usize) -> (r: (usize, bool))
    requires
        s <= ts.len(),
    ensures
        r.0 == mod_prefix_end(toks_view(ts@), s as int),
        r.1 == has_each(toks_view(ts@), s as int, r.0 as int),
        s <= r.0 <= ts.len(),
{
    let ghost tv = toks_view(ts@);
    let mut k = s;
    let mut each = false;
    while at_kw(ts, k, "each") || at_kw(ts, k, "final") || at_kw(ts, k, "replaceable")
        invariant
            s <= k <= ts.len(),
            tv == toks_view(ts@),
            mod_prefix_end(tv, k as int) == mod_prefix_end(tv, s as int),
            each == has_each(tv, s as int, k as int),
        decreases ts@.len() - k,
    {
        if at_kw(ts, k, "each") {
            each = true;
            assert(kw(tv, k as int, "each"@));
        }
        proof {
            if has_each(tv, s as int, k + 1) && !has_each(tv, s as int, k as int) {
                let i = choose|i: int| s <= i < k + 1 && #[trigger] kw(tv, i, "each"@);
                assert(i == k);
            }
        }
        k = k + 1;
    }
    (k, each)
}

fn class_kw_exec(ts: &Vec<Token>, p: usize) -> (r: bool)
    ensures
        r == class_kw(toks_view(ts@), p as int),
{
    at_kw(ts, p, "package") || at_kw(ts, p, "model") || at_kw(ts, p, "class") || at_kw(ts, p, "block")
        || at_kw(ts, p, "connector") || at_kw(ts, p, "record") || at_kw(ts, p, "function") || at_kw(ts, p, "type")
}

fn parse_mod(ts: &Vec<Token>, p: usize) -> (r: Option<(Option<Modification>, usize)>)
    requires
        p <= ts.len(),
    ensures
        oom(r) == g_mod(toks_view(ts@), p as int),
{
    let red = at_kw(ts, p, "redeclare");
    let s = if red { p + 1 } else { p };
    let (q, each) = mod_prefix_exec(ts, s);
    if red && class_kw_exec(ts, q) && at_kind(ts, q + 1, TokKind::Ident) {
        match parse_mod_value(ts, q + 2) {
            Some((v, q2)) => {
                let m = match v {
                    Some(x) => Some(Modification { name: ts[q + 1].text.clone(), value: Some(x), each, redeclare: true, redeclare_type: None }),
                    None => None,
                };
                Some((m, q2))
            },
            None => None,
        }
    } else if red {
        match parse_dotted(ts, q) {
            Some((tn, q1)) => if at_kind(ts, q1, TokKind::Ident) {
                match parse_mod_value(ts, q1 + 1) {
                    Some((v, q2)) => {
                        let m = match v {
                            Some(x) => Some(Modification { name: ts[q1].text.clone(), value: Some(x), each, redeclare: true, redeclare_type: Some(tn) }),
                            None => None,
                        };
                        Some((m, q2))
                    },
                    None => None,
                }
            } else {
                None
            },
            None => None,
        }
    } else {
        match parse_compref(ts, q) {
            Some((nm, q1)) => {
                if q <= q1 && q1 <= ts.len() {
                    match parse_mod_value(ts, q1) {
                        Some((v, q2)) => {
                            let m = match v {
                                Some(x) => Some(Modification { name: expr_to_string_exec(&nm), value: Some(x), each, redeclare: false, redeclare_type: None }),
                                None => None,
                            };
                            Some((m, q2))
                        },
                        None => None,
                    }
                } else {
                    None
                }
            },
            None => None,
        }
    }
}

fn parse_mod_list(ts: &Vec<Token>, p: usize) -> (r: Option<(Vec<Modification>, usize)>)
    requires
        p <= ts.len(),
    ensures
        oms(r) == g_mod_list(toks_view(ts@), p as int),
    decreases ts@.len() - p,
{
    match parse_mod(ts, p) {
        None => None,
        Some((m, q)) => {
            let ghost mo = match &m {
                Some(x) => Some(x@),
                None => None::<SMod>,
            };
            let mut first: Vec<Modification> = Vec::new();
            match m {
                Some(x) => {
                    first.push(x);
                },
                None => {},
            }
            let ghost fv = mods_view(first@);
            assert(fv =~= match mo {
                Some(x) => seq![x],
                None => Seq::<SMod>::empty(),
            });
            if p <= q && q <= ts.len() && at_sym(ts, q, ",") {
                match parse_mod_list(ts, q + 1) {
                    Some((rest, q2)) => {
                        let ghost rv = mods_view(rest@);
                        let ghost f0 = first@;
                        let ghost r0 = rest@;
                        let mut rest = rest;
                        first.append(&mut rest);
                        assert(mods_view(first@) =~= fv + rv) by {
                            assert(first@ == f0 + r0);
                        }
                        Some((first, q2))
                    },
                    None => None,
                }
            } else {
                Some((first, q))
            }
        },
    }
}

/// The value of the last modification named `start`.
pub fn last_start_exec(ms: &Vec<Modification>) -> (r: Option<Expression>)
    ensures
        opt_expr_view(r) == last_start(mods_view(ms@)),
{
    let ghost mv = mods_view(ms@);
    let mut i = ms.len();
    assert(mv.take(i as int) =~= mv);
    while i > 0
        invariant
            i <= ms@.len(),
            mv == mods_view(ms@),
            last_start(mv) == last_start(mv.take(i as int)),
        decreases i,
    {
        i = i - 1;
        assert(mv.take(i + 1).drop_last() =~= mv.take(i as int));
        assert(mv.take(i + 1).last() == ms@[i as int]@);
        if crate::text::str_eq(ms[i].name.as_str(), "start") {
            return match &ms[i].value {
                Some(e) => Some(clone_expr(e)),
                None => None,
            };
        }
    }
    assert(mv.take(0) =~= Seq::<SMod>::empty());
    None
}

fn parse_mod_part(ts: &Vec<Token>, p: usize) -> (r: Option<(Vec<Modification>, usize)>)
    requires
        p <= ts.len(),
    ensures
        oms(r) == g_mod_part(toks_view(ts@), p as int),
{
    if at_sym(ts, p, "(") {
        if at_sym(ts, p + 1, ")") {
            let v: Vec<Modification> = Vec::new();
            assert(mods_view(v@) =~= Seq::<SMod>::empty());
            Some((v, p + 2))
        } else {
            match parse_mod_list(ts, p + 1) {
                Some((ms, q)) => if at_sym(ts, q, ")") { Some((ms, q + 1)) } else { None },
                None => None,
            }
        }
    } else {
        None
    }
}

fn parse_opt_mods(ts: &Vec<Token>, p: usize) -> (r: Option<(Vec<Modification>, usize)>)
    requires
        p <= ts.len(),
    ensures
        oms(r) == g_opt_mods(toks_view(ts@), p as int),
        r matches Some((_m, q)) ==> p <= q <= ts.len(),
{
    if at_sym(ts, p, "(") {
        match parse_mod_part(ts, p) {
            Some((ms, q)) => if p <= q && q <= ts.len() { Some((ms, q)) } else { None },
            None => None,
        }
    } else {
        let v: Vec<Modification> = Vec::new();
        assert(mods_view(v@) =~= Seq::<SMod>::empty());
        Some((v, p))
    }
}

fn parse_opt_dim(ts: &Vec<Token>, p: usize) -> (r: Option<(Option<Expression>, usize)>)
    requires
        p <= ts.len(),
    ensures
        ooe(r) == g_opt_dim(toks_view(ts@), p as int),
        r matches Some((_d, q)) ==> p <= q <= ts.len(),
{
    if at_sym(ts, p, "[") {
        let first: Option<(Option<Expression>, usize)> = if at_sym(ts, p + 1, ":") {
            Some((None, p + 2))
        } else {
            match parse_expr(ts, p + 1) {
                Some((e, q)) => if p + 1 <= q && q <= ts.len() { Some((Some(e), q)) } else { None },
                None => None,
            }
        };
        match first {
            Some((d, q)) => match crate::parse_expr::parse_sub_rest(ts, q) {
                Some(q2) => if q <= q2 && q2 <= ts.len() && at_sym(ts, q2, "]") { Some((d, q2 + 1)) } else { None },
                None => None,
            },
            None => None,
        }
    } else {
        Some((None, p))
    }
}

} // verus!

verus! {

/// The flags that the prefixes of a declaration set.
#[derive(Clone, Copy, Debug, PartialEq, Eq, Structural)]
pub struct DeclFlags {
    pub parameter: bool,
    pub flow: bool,
    pub discrete: bool,
    pub input: bool,
    pub output: bool,
    pub replaceable: bool,
}

/// No prefix seen yet.
pub open spec fn no_flags() -> DeclFlags {
    DeclFlags { parameter: false, flow: false, discrete: false, input: false, output: false, replaceable: false }
}

/// A word that may stand before the type of a declaration.
pub open spec fn decl_prefix(ts: Seq<TokV>, p: int) -> bool {
    kw(ts, p, "parameter"@) || kw(ts, p, "constant"@) || kw(ts, p, "flow"@) || kw(ts, p, "stream"@)
        || kw(ts, p, "discrete"@) || kw(ts, p, "input"@) || kw(ts, p, "output"@) || kw(ts, p, "inner"@)
        || kw(ts, p, "outer"@) || kw(ts, p, "replaceable"@) || kw(ts, p, "final"@) || kw(ts, p, "redeclare"@)
        || kw(ts, p, "each"@)
}

/// The prefixes of a declaration from `p`: `parameter` and `constant` make a
/// parameter; `flow`, `discrete`, `input`, `output`, `replaceable` set their flag.
pub open spec fn g_decl_prefix(ts: Seq<TokV>, p: int, f: DeclFlags) -> (DeclFlags, int)
    decreases ts.len() - p,
{
    if decl_prefix(ts, p) {
        g_decl_prefix(
            ts,
            p + 1,
            DeclFlags {
                parameter: f.parameter || kw(ts, p, "parameter"@) || kw(ts, p, "constant"@),
                flow: f.flow || kw(ts, p, "flow"@),
                discrete: f.discrete || kw(ts, p, "discrete"@),
                input: f.input || kw(ts, p, "input"@),
                output: f.output || kw(ts, p, "output"@),
                replaceable: f.replaceable || kw(ts, p, "replaceable"@),
            },
        )
    } else {
        (f, p)
    }
}

/// One declared component: its name, dimension, modifications, value and condition.
pub struct Item {
    pub name: String,
    pub dim: Option<Expression>,
    pub mods: Vec<Modification>,
    pub value: Option<Expression>,
    pub cond: Option<Expression>,
}

/// Mathematical value of an [`Item`].
pub struct SItem {
    pub name: Seq<char>,
    pub dim: Option<SExpr>,
    pub mods: Seq<SMod>,
    pub value: Option<SExpr>,
    pub cond: Option<SExpr>,
}

impl Item {
    pub open spec fn view(&self) -> SItem {
        SItem {
            name: self.name@,
            dim: opt_expr_view(self.dim),
            mods: mods_view(self.mods@),
            value: opt_expr_view(self.value),
            cond: opt_expr_view(self.cond),
        }
    }
}

pub open spec fn items_view(s: Seq<Item>) -> Seq<SItem> {
    s.map_values(|i: Item| i@)
}

/// `NAME [dim] [mods] [= e] [if c] [comment]`.
pub open spec fn g_item(ts: Seq<TokV>, p: int) -> Option<(SItem, int)> {
    if is_name(ts, p) {
        match g_opt_dim(ts, p + 1) {
            Some((d, q1)) => match g_opt_mods(ts, q1) {
                Some((ms, q2)) => {
                    let v = if sym(ts, q2, "="@) || sym(ts, q2, ":="@) {
                        match g_expr(ts, q2 + 1) {
                            Some((e, q3)) => if adv(q2 + 1, q3, ts.len() as int) { Some((Some(e), q3)) } else { None },
                            None => None,
                        }
                    } else {
                        Some((None, q2))
                    };
                    match v {
                        Some((val, q3)) => {
                            let c = if kw(ts, q3, "if"@) {
                                match g_expr(ts, q3 + 1) {
                                    Some((e, q4)) => if adv(q3 + 1, q4, ts.len() as int) { Some((Some(e), q4)) } else { None },
                                    None => None,
                                }
                            } else {
                                Some((None, q3))
                            };
                            match c {
                                Some((cond, q4)) => Some((
                                    SItem { name: unquote(ts[p].text), dim: d, mods: ms, value: val, cond },
                                    comment_end(ts, q4),
                                )),
                                None => None,
                            }
                        },
                        None => None,
                    }
                },
                None => None,
            },
            None => None,
        }
    } else {
        None
    }
}

/// Items separated by commas.
pub open spec fn g_items(ts: Seq<TokV>, p: int) -> Option<(Seq<SItem>, int)>
    decreases ts.len() - p,
{
    match g_item(ts, p) {
        None => None,
        Some((it, q)) => if adv(p, q, ts.len() as int) && sym(ts, q, ","@) {
            match g_items(ts, q + 1) {
                Some((rest, q2)) => Some((seq![it] + rest, q2)),
                None => None,
            }
        } else {
            Some((seq![it], q))
        },
    }
}

/// The first of two optional values that is present.
pub open spec fn first_some(a: Option<SExpr>, b: Option<SExpr>) -> Option<SExpr> {
    if a is Some { a } else { b }
}

/// The declaration of one item: its value, else its own `start`, else the
/// type's `start` gives the start value; its dimension, else the type's, the
/// array size; the type's modifications come before its own.
pub open spec fn decl_of(it: SItem, tn: Seq<char>, f: DeclFlags, gm: Seq<SMod>, td: Option<SExpr>, ann: Option<Seq<char>>) -> SDecl {
    SDecl {
        type_path: tn,
        name: it.name,
        replaceable: f.replaceable,
        is_parameter: f.parameter,
        is_flow: f.flow,
        is_discrete: f.discrete,
        is_input: f.input,
        is_output: f.output,
        start_value: first_some(it.value, first_some(last_start(it.mods), last_start(gm))),
        array_size: first_some(it.dim, td),
        modifications: gm + it.mods,
        is_rest: false,
        annotation: ann,
        condition: it.cond,
    }
}

/// An optional annotation at `p`, as source text.
pub open spec fn g_opt_annotation(cs: Seq<char>, ts: Seq<TokV>, p: int) -> Option<(Option<Seq<char>>, int)> {
    if kw(ts, p, "annotation"@) && sym(ts, p + 1, "("@) {
        match close_paren(ts, p + 1, 0) {
            Some(q) => Some((Some(span_text(cs, ts, p, q)), q)),
            None => None,
        }
    } else {
        Some((None, p))
    }
}

/// A component declaration, up to its `;`: prefixes, a type with optional
/// modifications and dimension, items, and an optional annotation.
pub open spec fn g_decl(cs: Seq<char>, ts: Seq<TokV>, p: int) -> Option<(Seq<SDecl>, int)> {
    let (f, q) = g_decl_prefix(ts, p, no_flags());
    match g_dotted(ts, q) {
        Some((tn, q1)) => match g_opt_mods(ts, q1) {
            Some((gm, q2)) => match g_opt_dim(ts, q2) {
                Some((td, q3)) => match g_items(ts, q3) {
                    Some((items, q4)) => if adv(q3, q4, ts.len() as int) {
                        match g_opt_annotation(cs, ts, q4) {
                            Some((ann, q5)) => Some((
                                items.map_values(|it: SItem| decl_of(it, tn, f, gm, td, ann)),
                                q5,
                            )),
                            None => None,
                        }
                    } else {
                        None
                    },
                    None => None,
                },
                None => None,
            },
            None => None,
        },
        None => None,
    }
}

} // verus!

verus! {

/// A copy of a modification.
pub fn clone_mod(m: &Modification) -> (r: Modification)
    ensures
        r@ == m@,
{
    Modification {
        name: m.name.clone(),
        value: clone_opt_expr(&m.value),
        each: m.each,
        redeclare: m.redeclare,
        redeclare_type: clone_opt_string(&m.redeclare_type),
    }
}

/// A copy of modifications.
pub fn clone_mods(v: &Vec<Modification>) -> (r: Vec<Modification>)
    ensures
        mods_view(r@) == mods_view(v@),
{
    let mut out: Vec<Modification> = Vec::new();
    let mut i: usize = 0;
    while i < v.len()
        invariant
            i <= v@.len(),
            mods_view(out@) == mods_view(v@).take(i as int),
            out@.len() == i,
        decreases v@.len() - i,
    {
        let m = clone_mod(&v[i]);
        proof {
            assert(mods_view(v@)[i as int] == v@[i as int]@);
            assert(mods_view(out@.push(m)).len() == i + 1);
            assert forall|k: int| 0 <= k < i + 1 implies #[trigger] mods_view(out@.push(m))[k] == mods_view(v@).take(i + 1)[k] by {
                if k < i {
                    assert(mods_view(out@)[k] == mods_view(v@).take(i as int)[k]);
                }
            }
            assert(mods_view(out@.push(m)) =~= mods_view(v@).take(i + 1));
        }
        out.push(m);
        i += 1;
    }
    assert(mods_view(v@).take(v@.len() as int) =~= mods_view(v@));
    out
}

/// A copy of an optional expression.
pub fn clone_opt_expr(o: &Option<Expression>) -> (r: Option<Expression>)
    ensures
        opt_expr_view(r) == opt_expr_view(*o),
{
    match o {
        Some(e) => Some(clone_expr(e)),
        None => None,
    }
}

/// A copy of an optional string.
pub fn clone_opt_string(o: &Option<String>) -> (r: Option<String>)
    ensures
        opt_str_view(r) == opt_str_view(*o),
{
    match o {
        Some(s) => Some(s.clone()),
        None => None,
    }
}

fn decl_prefix_exec(ts: &Vec<Token>, p: usize) -> (r: bool)
    ensures
        r == decl_prefix(toks_view(ts@), p as int),
{
    at_kw(ts, p, "parameter") || at_kw(ts, p, "constant") || at_kw(ts, p, "flow") || at_kw(ts, p, "stream")
        || at_kw(ts, p, "discrete") || at_kw(ts, p, "input") || at_kw(ts, p, "output") || at_kw(ts, p, "inner")
        || at_kw(ts, p, "outer") || at_kw(ts, p, "replaceable") || at_kw(ts, p, "final") || at_kw(ts, p, "redeclare")
        || at_kw(ts, p, "each")
}

fn parse_decl_prefix(ts: &Vec<Token>, p: usize) -> (r: (DeclFlags, usize))
    requires
        p <= ts.len(),
    ensures
        (r.0, r.1 as int) == g_decl_prefix(toks_view(ts@), p as int, no_flags()),
        p <= r.1 <= ts.len(),
{
    let ghost tv = toks_view(ts@);
    let mut f = DeclFlags { parameter: false, flow: false, discrete: false, input: false, output: false, replaceable: false };
    let mut k = p;
    while decl_prefix_exec(ts, k)
        invariant
            p <= k <= ts.len(),
            tv == toks_view(ts@),
            g_decl_prefix(tv, k as int, f) == g_decl_prefix(tv, p as int, no_flags()),
        decreases ts@.len() - k,
    {
        f = DeclFlags {
            parameter: f.parameter || at_kw(ts, k, "parameter") || at_kw(ts, k, "constant"),
            flow: f.flow || at_kw(ts, k, "flow"),
            discrete: f.discrete || at_kw(ts, k, "discrete"),
            input: f.input || at_kw(ts, k, "input"),
            output: f.output || at_kw(ts, k, "output"),
            replaceable: f.replaceable || at_kw(ts, k, "replaceable"),
        };
        k = k + 1;
    }
    (f, k)
}

/// The name of an identifier with the quotes of a quoted one taken off.
fn unquote_exec(s: &String) -> (r: String)
    ensures
        r@ == unquote(s@),
{
    let cs = chars_of(s.as_str());
    let n = cs.len();
    if n >= 2 && cs[0] == '\'' && cs[n - 1] == '\'' {
        string_of_range(&cs, 1, n - 1)
    } else {
        s.clone()
    }
}

/// A parse result holding an item.
pub open spec fn oit(r: Option<(Item, usize)>) -> Option<(SItem, int)> {
    match r {
        Some((i, q)) => Some((i@, q as int)),
        None => None,
    }
}

fn parse_item(ts: &Vec<Token>, p: usize) -> (r: Option<(Item, usize)>)
    requires
        p <= ts.len(),
    ensures
        oit(r) == g_item(toks_view(ts@), p as int),
{
    if !at_name(ts, p) {
        return None;
    }
    let (d, q1) = match parse_opt_dim(ts, p + 1) {
        Some(x) => x,
        None => {
            return None;
        },
    };
    let (ms, q2) = match parse_opt_mods(ts, q1) {
        Some(x) => x,
        None => {
            return None;
        },
    };
    let (val, q3) = if at_sym(ts, q2, "=") || at_sym(ts, q2, ":=") {
        match parse_expr(ts, q2 + 1) {
            Some((e, q3)) => if q2 + 1 <= q3 && q3 <= ts.len() {
                (Some(e), q3)
            } else {
                return None;
            },
            None => {
                return None;
            },
        }
    } else {
        (None, q2)
    };
    let (cond, q4) = if at_kw(ts, q3, "if") {
        match parse_expr(ts, q3 + 1) {
            Some((e, q4)) => if q3 + 1 <= q4 && q4 <= ts.len() {
                (Some(e), q4)
            } else {
                return None;
            },
            None => {
                return None;
            },
        }
    } else {
        (None, q3)
    };
    let name = unquote_exec(&ts[p].text);
    Some((Item { name, dim: d, mods: ms, value: val, cond }, comment_end_exec(ts, q4)))
}

fn parse_items(ts: &Vec<Token>, p: usize) -> (r: Option<(Vec<Item>, usize)>)
    requires
        p <= ts.len(),
    ensures
        match r {
            Some((v, q)) => g_items(toks_view(ts@), p as int) == Some((items_view(v@), q as int)),
            None => g_items(toks_view(ts@), p as int) is None,
        },
    decreases ts@.len() - p,
{
    match parse_item(ts, p) {
        None => None,
        Some((it, q)) => {
            let ghost iv = it@;
            let mut first: Vec<Item> = Vec::new();
            first.push(it);
            assert(items_view(first@) =~= seq![iv]);
            if p <= q && q <= ts.len() && at_sym(ts, q, ",") {
                match parse_items(ts, q + 1) {
                    Some((rest, q2)) => {
                        let ghost f0 = first@;
                        let ghost r0 = rest@;
                        let mut rest = rest;
                        first.append(&mut rest);
                        assert(items_view(first@) =~= seq![iv] + items_view(r0)) by {
                            assert(first@ == f0 + r0);
                        }
                        Some((first, q2))
                    },
                    None => None,
                }
            } else {
                Some((first, q))
            }
        },
    }
}

fn first_some_exec(a: &Option<Expression>, b: Option<Expression>) -> (r: Option<Expression>)
    ensures
        opt_expr_view(r) == first_some(opt_expr_view(*a), opt_expr_view(b)),
{
    match a {
        Some(e) => Some(clone_expr(e)),
        None => b,
    }
}

fn decl_of_exec(it: &Item, tn: &String, f: DeclFlags, gm: &Vec<Modification>, td: &Option<Expression>, ann: &Option<String>) -> (r: Declaration)
    ensures
        r@ == decl_of(it@, tn@, f, mods_view(gm@), opt_expr_view(*td), opt_str_view(*ann)),
{
    let own_start = last_start_exec(&it.mods);
    let global_start = last_start_exec(gm);
    let s1 = first_some_exec(&own_start, global_start);
    let start = first_some_exec(&it.value, s1);
    let size = first_some_exec(&it.dim, clone_opt_expr(td));
    let mut mods = clone_mods(gm);
    let mut own = clone_mods(&it.mods);
    let ghost m0 = mods@;
    let ghost o0 = own@;
    mods.append(&mut own);
    assert(mods_view(mods@) =~= mods_view(gm@) + mods_view(it.mods@)) by {
        assert(mods@ == m0 + o0);
    }
    Declaration {
        type_path: tn.clone(),
        name: it.name.clone(),
        replaceable: f.replaceable,
        is_parameter: f.parameter,
        is_flow: f.flow,
        is_discrete: f.discrete,
        is_input: f.input,
        is_output: f.output,
        start_value: start,
        array_size: size,
        modifications: mods,
        is_rest: false,
        annotation: clone_opt_string(ann),
        condition: clone_opt_expr(&it.cond),
    }
}

fn parse_opt_annotation(cs: &Vec<char>, ts: &Vec<Token>, p: usize) -> (r: Option<(Option<String>, usize)>)
    requires
        p <= ts.len(),
        spans_ok(cs@, toks_view(ts@)),
    ensures
        match r {
            Some((a, q)) => g_opt_annotation(cs@, toks_view(ts@), p as int) == Some((opt_str_view(a), q as int)),
            None => g_opt_annotation(cs@, toks_view(ts@), p as int) is None,
        },
        r matches Some((_a, q)) ==> p <= q <= ts.len(),
{
    if at_kw(ts, p, "annotation") && at_sym(ts, p + 1, "(") {
        match close_paren_exec(ts, p + 1) {
            Some(q) => Some((Some(span_text_exec(cs, ts, p, q)), q)),
            None => None,
        }
    } else {
        Some((None, p))
    }
}

/// Reads a component declaration at `p`, up to its `;`.
pub fn parse_decl(cs: &Vec<char>, ts: &Vec<Token>, p: usize) -> (r: Option<(Vec<Declaration>, usize)>)
    requires
        p <= ts.len(),
        spans_ok(cs@, toks_view(ts@)),
    ensures
        match r {
            Some((v, q)) => g_decl(cs@, toks_view(ts@), p as int) == Some((decls_view(v@), q as int)),
            None => g_decl(cs@, toks_view(ts@), p as int) is None,
        },
        r matches Some((_v, q)) ==> p <= q <= ts.len(),
{
    let (f, q) = parse_decl_prefix(ts, p);
    let (tn, q1) = match parse_dotted(ts, q) {
        Some(x) => x,
        None => {
            return None;
        },
    };
    let (gm, q2) = match parse_opt_mods(ts, q1) {
        Some(x) => x,
        None => {
            return None;
        },
    };
    let (td, q3) = match parse_opt_dim(ts, q2) {
        Some(x) => x,
        None => {
            return None;
        },
    };
    let (items, q4) = match parse_items(ts, q3) {
        Some(x) => x,
        None => {
            return None;
        },
    };
    if !(q3 <= q4 && q4 <= ts.len()) {
        return None;
    }
    let (ann, q5) = match parse_opt_annotation(cs, ts, q4) {
        Some(x) => x,
        None => {
            return None;
        },
    };
    let ghost iv = items_view(items@);
    let ghost spec_decls = iv.map_values(|it: SItem| decl_of(it, tn@, f, mods_view(gm@), opt_expr_view(td), opt_str_view(ann)));
    let mut out: Vec<Declaration> = Vec::new();
    let mut i: usize = 0;
    while i < items.len()
        invariant
            i <= items@.len(),
            iv == items_view(items@),
            spec_decls == iv.map_values(|it: SItem| decl_of(it, tn@, f, mods_view(gm@), opt_expr_view(td), opt_str_view(ann))),
            decls_view(out@) == spec_decls.take(i as int),
            out@.len() == i,
            spec_decls.len() == items@.len(),
        decreases items@.len() - i,
    {
        let d = decl_of_exec(&items[i], &tn, f, &gm, &td, &ann);
        proof {
            assert(iv[i as int] == items@[i as int]@);
            assert(spec_decls[i as int] == d@);
            assert(decls_view(out@.push(d)).len() == i + 1);
            assert forall|k: int| 0 <= k < i + 1 implies #[trigger] decls_view(out@.push(d))[k] == spec_decls.take(i + 1)[k] by {
                if k < i {
                    assert(decls_view(out@)[k] == spec_decls.take(i as int)[k]);
                }
            }
            assert(decls_view(out@.push(d)) =~= spec_decls.take(i + 1));
        }
        out.push(d);
        i += 1;
    }
    assert(spec_decls.take(items@.len() as int) =~= spec_decls);
    Some((out, q5))
}

} // verus!

verus! {

/// The part after the last `.` of a dotted name (the whole name without one).
pub open spec fn last_segment(s: Seq<char>) -> Seq<char> {
    match crate::text::rsplit_once(s, '.') {
        Some((_a, b)) => b,
        None => s,
    }
}

/// Names separated by commas.
pub open spec fn g_id_list(ts: Seq<TokV>, p: int) -> Option<(Seq<Seq<char>>, int)>
    decreases ts.len() - p,
{
    if kind_at(ts, p, TokKind::Ident) {
        if sym(ts, p + 1, ","@) {
            match g_id_list(ts, p + 2) {
                Some((rest, q)) => Some((seq![unquote(ts[p].text)] + rest, q)),
                None => None,
            }
        } else {
            Some((seq![unquote(ts[p].text)], p + 1))
        }
    } else {
        None
    }
}

/// After `import`: `A = B.C` gives `(A, B.C)`; `B.{x, y}` gives `(x, B.x)`,
/// `(y, B.y)`; `B.*` gives `(*, B.*)`; `B.C` gives `(C, B.C)`.
pub open spec fn g_import(ts: Seq<TokV>, p: int) -> Option<(Seq<(Seq<char>, Seq<char>)>, int)> {
    if kind_at(ts, p, TokKind::Ident) && sym(ts, p + 1, "="@) {
        match g_dotted(ts, p + 2) {
            Some((q, e)) => Some((seq![(ts[p].text, q)], e)),
            None => None,
        }
    } else {
        match g_dotted(ts, p) {
            Some((n, e)) => if sym(ts, e, "."@) && sym(ts, e + 1, "{"@) {
                match g_id_list(ts, e + 2) {
                    Some((ids, e2)) => if sym(ts, e2, "}"@) {
                        Some((ids.map_values(|x: Seq<char>| (x, n + "."@ + x)), e2 + 1))
                    } else {
                        None
                    },
                    None => None,
                }
            } else if sym(ts, e, ".*"@) {
                Some((seq![("*"@, n + ".*"@)], e + 1))
            } else {
                Some((seq![(last_segment(n), n)], e))
            },
            None => None,
        }
    }
}

/// The right side of a short class or type definition: `enumeration(...)`
/// (base `Integer`), or a name with optional dimension and optional
/// parenthesised modifications; the base, whether it was a plain name, the end.
pub open spec fn g_class_rhs(ts: Seq<TokV>, p: int) -> Option<(Seq<char>, bool, int)> {
    let s = if kw(ts, p, "input"@) || kw(ts, p, "output"@) { p + 1 } else { p };
    if kw(ts, s, "enumeration"@) && sym(ts, s + 1, "("@) {
        match close_paren(ts, s + 1, 0) {
            Some(q) => Some(("Integer"@, false, q)),
            None => None,
        }
    } else {
        match g_dotted(ts, s) {
            Some((b, q1)) => match g_opt_dim(ts, q1) {
                Some((_d, q2)) => if sym(ts, q2, "("@) {
                    match close_paren(ts, q2, 0) {
                        Some(q3) => Some((b, false, q3)),
                        None => None,
                    }
                } else {
                    Some((b, true, q2))
                },
                None => None,
            },
            None => None,
        }
    }
}

/// The base type of a type definition: a library type whose name holds
/// `TypeInteger`, `TypeBoolean`, `TypeString` or `TypeReal` becomes that
/// primitive; any other name stays.
pub open spec fn prim_of(b: Seq<char>) -> Seq<char> {
    if has_sub(b, "TypeInteger"@) {
        "Integer"@
    } else if has_sub(b, "TypeBoolean"@) {
        "Boolean"@
    } else if has_sub(b, "TypeString"@) {
        "String"@
    } else if has_sub(b, "TypeReal"@) {
        "Real"@
    } else {
        b
    }
}

/// The primitive of a type defined by something other than a plain name:
/// `Integer`, `Boolean`, `String` as its name holds `TypeInteger`,
/// `TypeBoolean`, `TypeString`, else `Real`.
pub open spec fn prim_default(b: Seq<char>) -> Seq<char> {
    if has_sub(b, "TypeInteger"@) {
        "Integer"@
    } else if has_sub(b, "TypeBoolean"@) {
        "Boolean"@
    } else if has_sub(b, "TypeString"@) {
        "String"@
    } else {
        "Real"@
    }
}

/// What the prefixes of a class definition say.
#[derive(Clone, Copy, Debug, PartialEq, Eq, Structural)]
pub struct ClassPrefix {
    pub is_function: bool,
    pub is_operator_function: bool,
    pub is_operator_record: bool,
    pub is_connector: bool,
    pub is_record: bool,
    pub is_block: bool,
    pub is_expandable: bool,
    pub is_partial: bool,
    pub is_encapsulated: bool,
    pub is_pure: bool,
    pub is_impure: bool,
    pub is_type: bool,
}

pub open spec fn no_prefix() -> ClassPrefix {
    ClassPrefix {
        is_function: false,
        is_operator_function: false,
        is_operator_record: false,
        is_connector: false,
        is_record: false,
        is_block: false,
        is_expandable: false,
        is_partial: false,
        is_encapsulated: false,
        is_pure: false,
        is_impure: false,
        is_type: false,
    }
}

/// A word that begins a class (`model`, `class`, `package`, `block`,
/// `connector`, `record`, `function`, `type`).
pub open spec fn class_word(ts: Seq<TokV>, p: int) -> bool {
    kw(ts, p, "model"@) || kw(ts, p, "class"@) || kw(ts, p, "package"@) || kw(ts, p, "block"@)
        || kw(ts, p, "connector"@) || kw(ts, p, "record"@) || kw(ts, p, "function"@) || kw(ts, p, "type"@)
}

/// The prefixes of a class definition, up to and with its class word.
#[verifier::opaque]
pub open spec fn g_prefix(ts: Seq<TokV>, p: int, f: ClassPrefix) -> Option<(ClassPrefix, int)>
    decreases ts.len() - p,
{
    if kw(ts, p, "encapsulated"@) {
        g_prefix(ts, p + 1, ClassPrefix { is_encapsulated: true, ..f })
    } else if kw(ts, p, "partial"@) {
        g_prefix(ts, p + 1, ClassPrefix { is_partial: true, ..f })
    } else if kw(ts, p, "expandable"@) {
        g_prefix(ts, p + 1, ClassPrefix { is_expandable: true, ..f })
    } else if kw(ts, p, "pure"@) {
        g_prefix(ts, p + 1, ClassPrefix { is_pure: true, ..f })
    } else if kw(ts, p, "impure"@) {
        g_prefix(ts, p + 1, ClassPrefix { is_impure: true, ..f })
    } else if kw(ts, p, "final"@) || kw(ts, p, "replaceable"@) || kw(ts, p, "redeclare"@) || kw(ts, p, "inner"@)
        || kw(ts, p, "outer"@) {
        g_prefix(ts, p + 1, f)
    } else if kw(ts, p, "operator"@) && kw(ts, p + 1, "function"@) {
        Some((ClassPrefix { is_function: true, is_operator_function: true, ..f }, p + 2))
    } else if kw(ts, p, "operator"@) && class_word(ts, p + 1) {
        g_prefix(ts, p + 1, ClassPrefix { is_operator_record: true, ..f })
    } else if kw(ts, p, "operator"@) {
        Some((ClassPrefix { is_operator_record: true, ..f }, p + 1))
    } else if kw(ts, p, "function"@) {
        Some((ClassPrefix { is_function: true, ..f }, p + 1))
    } else if kw(ts, p, "connector"@) {
        Some((ClassPrefix { is_connector: true, ..f }, p + 1))
    } else if kw(ts, p, "record"@) {
        Some((ClassPrefix { is_record: true, ..f }, p + 1))
    } else if kw(ts, p, "block"@) {
        Some((ClassPrefix { is_block: true, ..f }, p + 1))
    } else if kw(ts, p, "type"@) {
        Some((ClassPrefix { is_type: true, ..f }, p + 1))
    } else if kw(ts, p, "model"@) || kw(ts, p, "class"@) || kw(ts, p, "package"@) {
        Some((f, p + 1))
    } else {
        None
    }
}

/// The class that a short definition `alias = base` stands for: it extends `base`.
pub open spec fn short_class(pf: ClassPrefix, alias: Seq<char>, base: Seq<char>) -> SModel {
    SModel {
        is_connector: pf.is_connector,
        is_function: pf.is_function,
        is_record: pf.is_record,
        is_block: pf.is_block,
        is_operator_record: pf.is_operator_record && pf.is_record,
        extends: seq![crate::model::SExtends { model_name: base, modifications: Seq::empty() }],
        ..crate::model::empty_model(alias)
    }
}

/// A class that only names `base` as what `alias` stands for.
pub open spec fn alias_model(alias: Seq<char>, base: Seq<char>) -> SModel {
    SModel {
        type_aliases: if alias.len() > 0 && base.len() > 0 { seq![(alias, base)] } else { Seq::empty() },
        ..crate::model::empty_model(alias)
    }
}

/// One element of a class body.
pub enum SElem {
    Decls(Seq<SDecl>),
    Ext(crate::model::SExtends),
    Imports(Seq<(Seq<char>, Seq<char>)>),
    Alias(Seq<char>, Seq<char>),
    Inner(SModel),
    Annot(Seq<char>),
    Skip,
}

/// A class body with one more element: declarations, an extends clause,
/// imports, a type alias or a nested class are appended; the first class
/// annotation is kept.
pub open spec fn apply_elem(acc: SModel, e: SElem) -> SModel {
    match e {
        SElem::Decls(ds) => SModel { declarations: acc.declarations + ds, ..acc },
        SElem::Ext(x) => SModel { extends: acc.extends.push(x), ..acc },
        SElem::Imports(l) => SModel { imports: acc.imports + l, ..acc },
        SElem::Alias(a, b) => SModel { type_aliases: acc.type_aliases.push((a, b)), ..acc },
        SElem::Inner(m) => SModel { inner_classes: acc.inner_classes.push(m), ..acc },
        SElem::Annot(t) => SModel { annotation: if acc.annotation is Some { acc.annotation } else { Some(t) }, ..acc },
        SElem::Skip => acc,
    }
}

/// The class that a top-level class stands for.
pub open spec fn item_model(c: crate::model::SClassItem) -> SModel {
    match c {
        crate::model::SClassItem::Model(m) => m,
        crate::model::SClassItem::Function(f) => crate::model::spec_model_from_function(f),
    }
}

/// The class (or function) that a parsed body `acc` gives under prefixes `pf`.
pub open spec fn build_item(pf: ClassPrefix, acc: SModel) -> crate::model::SClassItem {
    if pf.is_function {
        crate::model::SClassItem::Function(crate::model::SFunction {
            name: acc.name,
            is_operator_function: pf.is_operator_function,
            extends: acc.extends,
            declarations: acc.declarations,
            algorithms: acc.algorithms,
            initial_algorithms: acc.initial_algorithms,
            external_info: acc.external_info,
        })
    } else {
        crate::model::SClassItem::Model(SModel {
            is_connector: pf.is_connector,
            is_function: false,
            is_operator_function: false,
            is_record: pf.is_record,
            is_block: pf.is_block,
            is_expandable: pf.is_expandable,
            is_partial: pf.is_partial,
            is_encapsulated: pf.is_encapsulated,
            is_pure: pf.is_pure,
            is_impure: pf.is_impure,
            is_operator_record: pf.is_operator_record,
            external_info: None,
            ..acc
        })
    }
}

/// After `external`: an optional language string, an optional call
/// `[ref =] f(...)` naming the C function, and an optional annotation.
pub open spec fn g_external(ts: Seq<TokV>, p: int) -> Option<(crate::model::SExternal, int)> {
    let (lang, q) = if kind_at(ts, p, TokKind::Str) { (Some(ts[p].text), p + 1) } else { (None, p) };
    let s = match g_compref(ts, q) {
        Some((_r, q1)) => if sym(ts, q1, "="@) { q1 + 1 } else { q },
        None => q,
    };
    let (c, q2) = match g_dotted(ts, s) {
        Some((n, q1)) => if sym(ts, q1, "("@) {
            match close_paren(ts, q1, 0) {
                Some(q2) => (Some(n), q2),
                None => (None, q),
            }
        } else {
            (None, q)
        },
        None => (None, q),
    };
    Some((crate::model::SExternal { language: lang, c_name: c }, q2))
}

/// Statements of an algorithm section, with declarations among them set apart.
pub open spec fn g_alg_items(cs: Seq<char>, ts: Seq<TokV>, p: int) -> Option<(Seq<crate::model::SStmt>, Seq<SDecl>, int)>
    decreases ts.len() - p,
{
    match crate::parse_eq::g_stmt(ts, p) {
        Some((s, q)) => if p < q && q <= ts.len() {
            match g_alg_items(cs, ts, q) {
                Some((ss, ds, q2)) => Some((seq![s] + ss, ds, q2)),
                None => None,
            }
        } else {
            None
        },
        None => match g_decl(cs, ts, p) {
            Some((d, q)) => if p <= q && q < ts.len() && sym(ts, q, ";"@) {
                match g_alg_items(cs, ts, q + 1) {
                    Some((ss, ds, q2)) => Some((ss, d + ds, q2)),
                    None => None,
                }
            } else {
                Some((Seq::empty(), Seq::empty(), p))
            },
            None => Some((Seq::empty(), Seq::empty(), p)),
        },
    }
}

/// One element of a class body, with its `;`.
#[verifier::opaque]
pub open spec fn g_element(cs: Seq<char>, ts: Seq<TokV>, p: int) -> Option<(SElem, int)>
    decreases ts.len() - p, 2int,
{
    if kw(ts, p, "public"@) || kw(ts, p, "protected"@) {
        Some((SElem::Skip, p + 1))
    } else if kw(ts, p, "import"@) {
        match g_import(ts, p + 1) {
            Some((l, q)) => match crate::parse_eq::stmt_end(ts, q) {
                Some(q2) => Some((SElem::Imports(l), q2)),
                None => None,
            },
            None => None,
        }
    } else if kw(ts, p, "extends"@) {
        match g_dotted(ts, p + 1) {
            Some((n, q)) => match g_opt_mods(ts, q) {
                Some((ms, q1)) => match crate::parse_eq::stmt_end(ts, q1) {
                    Some(q2) => Some((SElem::Ext(crate::model::SExtends { model_name: n, modifications: ms }), q2)),
                    None => None,
                },
                None => None,
            },
            None => None,
        }
    } else if kw(ts, p, "annotation"@) && sym(ts, p + 1, "("@) {
        match close_paren(ts, p + 1, 0) {
            Some(q) => if sym(ts, q, ";"@) { Some((SElem::Annot(span_text(cs, ts, p, q)), q + 1)) } else { None },
            None => None,
        }
    } else if kw(ts, p, "type"@) && kind_at(ts, p + 1, TokKind::Ident) && sym(ts, p + 2, "="@) {
        match g_class_rhs(ts, p + 3) {
            Some((b, _plain, q)) => match crate::parse_eq::stmt_end(ts, q) {
                Some(q2) => Some((SElem::Alias(ts[p + 1].text, prim_of(b)), q2)),
                None => None,
            },
            None => None,
        }
    } else if kw(ts, p, "connector"@) && kind_at(ts, p + 1, TokKind::Ident) && sym(ts, p + 2, "="@) && (kw(
        ts,
        p + 3,
        "input"@,
    ) || kw(ts, p + 3, "output"@)) {
        match g_class_rhs(ts, p + 3) {
            Some((b, _plain, q)) => match crate::parse_eq::stmt_end(ts, q) {
                Some(q2) => Some((SElem::Alias(ts[p + 1].text, b), q2)),
                None => None,
            },
            None => None,
        }
    } else {
        match g_prefix(ts, p, no_prefix()) {
            Some((pf, q)) => if kind_at(ts, q, TokKind::Ident) && sym(ts, q + 1, "="@) {
                match g_class_rhs(ts, q + 2) {
                    Some((b, plain, q2)) => match crate::parse_eq::stmt_end(ts, q2) {
                        Some(q3) => Some((
                            if pf.is_type {
                                SElem::Alias(ts[q].text, if plain { b } else { prim_default(b) })
                            } else {
                                SElem::Inner(short_class(pf, ts[q].text, b))
                            },
                            q3,
                        )),
                        None => None,
                    },
                    None => None,
                }
            } else {
                match g_class(cs, ts, p) {
                    Some((c, q2)) => Some((SElem::Inner(item_model(c)), q2)),
                    None => None,
                }
            },
            None => match g_decl(cs, ts, p) {
                Some((ds, q)) => if sym(ts, q, ";"@) { Some((SElem::Decls(ds), q + 1)) } else { None },
                None => None,
            },
        }
    }
}

/// A section of a class body at `p` (`equation`, `initial equation`,
/// `algorithm`, `initial algorithm`, `external ...;`), added to `acc`.
pub open spec fn g_section(cs: Seq<char>, ts: Seq<TokV>, p: int, acc: SModel) -> Option<(SModel, int)> {
    if kw(ts, p, "equation"@) || (kw(ts, p, "initial"@) && kw(ts, p + 1, "equation"@)) {
        let init = kw(ts, p, "initial"@) && kw(ts, p + 1, "equation"@);
        let s = if init { p + 2 } else { p + 1 };
        match crate::parse_eq::g_eq_list(ts, s) {
            Some((eqs, q)) => Some((
                if init {
                    SModel { initial_equations: acc.initial_equations + eqs, ..acc }
                } else {
                    SModel { equations: acc.equations + eqs, ..acc }
                },
                q,
            )),
            None => None,
        }
    } else if kw(ts, p, "algorithm"@) || (kw(ts, p, "initial"@) && kw(ts, p + 1, "algorithm"@)) {
        let init = kw(ts, p, "initial"@) && kw(ts, p + 1, "algorithm"@);
        let s = if init { p + 2 } else { p + 1 };
        match g_alg_items(cs, ts, s) {
            Some((ss, ds, q)) => Some((
                if init {
                    SModel { initial_algorithms: acc.initial_algorithms + ss, declarations: acc.declarations + ds, ..acc }
                } else {
                    SModel { algorithms: acc.algorithms + ss, declarations: acc.declarations + ds, ..acc }
                },
                q,
            )),
            None => None,
        }
    } else if kw(ts, p, "external"@) {
        match g_external(ts, p + 1) {
            Some((x, q)) => match crate::parse_eq::stmt_end(ts, q) {
                Some(q2) => Some((SModel { external_info: Some(x), ..acc }, q2)),
                None => None,
            },
            None => None,
        }
    } else {
        None
    }
}

/// A class body from `p` up to its `end`, added to `acc`: sections and elements.
#[verifier::opaque]
pub open spec fn g_comp(cs: Seq<char>, ts: Seq<TokV>, p: int, acc: SModel) -> Option<(SModel, int)>
    decreases ts.len() - p, 3int,
{
    if kw(ts, p, "end"@) {
        Some((acc, p))
    } else {
        match g_section(cs, ts, p, acc) {
            Some((a2, q)) => if p < q && q <= ts.len() { g_comp(cs, ts, q, a2) } else { None },
            None => match g_element(cs, ts, p) {
                Some((e, q)) => if p < q && q <= ts.len() { g_comp(cs, ts, q, apply_elem(acc, e)) } else { None },
                None => None,
            },
        }
    }
}

/// A class definition: prefixes, name, optional comment, body, `end NAME;`.
#[verifier::opaque]
pub open spec fn g_class(cs: Seq<char>, ts: Seq<TokV>, p: int) -> Option<(crate::model::SClassItem, int)>
    decreases ts.len() - p, 1int,
{
    match g_prefix(ts, p, no_prefix()) {
        Some((pf, q)) => if p < q && is_name(ts, q) {
            let q1 = comment_end(ts, q + 1);
            if p < q1 && q1 <= ts.len() {
                match g_comp(cs, ts, q1, crate::model::empty_model(ts[q].text)) {
                    Some((acc, q2)) => if kw(ts, q2, "end"@) && kind_at(ts, q2 + 1, TokKind::Ident) && sym(ts, q2 + 2, ";"@) {
                        Some((build_item(pf, acc), q2 + 3))
                    } else {
                        None
                    },
                    None => None,
                }
            } else {
                None
            }
        } else {
            None
        },
        None => None,
    }
}

pub proof fn unfold_element(cs: Seq<char>, ts: Seq<TokV>, p: int)
    ensures
        g_element(cs, ts, p) == ({
            if kw(ts, p, "public"@) || kw(ts, p, "protected"@) {
                Some((SElem::Skip, p + 1))
            } else if kw(ts, p, "import"@) {
                match g_import(ts, p + 1) {
                    Some((l, q)) => match crate::parse_eq::stmt_end(ts, q) {
                        Some(q2) => Some((SElem::Imports(l), q2)),
                        None => None,
                    },
                    None => None,
                }
            } else if kw(ts, p, "extends"@) {
                match g_dotted(ts, p + 1) {
                    Some((n, q)) => match g_opt_mods(ts, q) {
                        Some((ms, q1)) => match crate::parse_eq::stmt_end(ts, q1) {
                            Some(q2) => Some((SElem::Ext(crate::model::SExtends { model_name: n, modifications: ms }), q2)),
                            None => None,
                        },
                        None => None,
                    },
                    None => None,
                }
            } else if kw(ts, p, "annotation"@) && sym(ts, p + 1, "("@) {
                match close_paren(ts, p + 1, 0) {
                    Some(q) => if sym(ts, q, ";"@) { Some((SElem::Annot(span_text(cs, ts, p, q)), q + 1)) } else { None },
                    None => None,
                }
            } else if kw(ts, p, "type"@) && kind_at(ts, p + 1, TokKind::Ident) && sym(ts, p + 2, "="@) {
                match g_class_rhs(ts, p + 3) {
                    Some((b, _plain, q)) => match crate::parse_eq::stmt_end(ts, q) {
                        Some(q2) => Some((SElem::Alias(ts[p + 1].text, prim_of(b)), q2)),
                        None => None,
                    },
                    None => None,
                }
            } else if kw(ts, p, "connector"@) && kind_at(ts, p + 1, TokKind::Ident) && sym(ts, p + 2, "="@) && (kw(
                ts,
                p + 3,
                "input"@,
            ) || kw(ts, p + 3, "output"@)) {
                match g_class_rhs(ts, p + 3) {
                    Some((b, _plain, q)) => match crate::parse_eq::stmt_end(ts, q) {
                        Some(q2) => Some((SElem::Alias(ts[p + 1].text, b), q2)),
                        None => None,
                    },
                    None => None,
                }
            } else {
                match g_prefix(ts, p, no_prefix()) {
                    Some((pf, q)) => if kind_at(ts, q, TokKind::Ident) && sym(ts, q + 1, "="@) {
                        match g_class_rhs(ts, q + 2) {
                            Some((b, plain, q2)) => match crate::parse_eq::stmt_end(ts, q2) {
                                Some(q3) => Some((
                                    if pf.is_type {
                                        SElem::Alias(ts[q].text, if plain { b } else { prim_default(b) })
                                    } else {
                                        SElem::Inner(short_class(pf, ts[q].text, b))
                                    },
                                    q3,
                                )),
                                None => None,
                            },
                            None => None,
                        }
                    } else {
                        match g_class(cs, ts, p) {
                            Some((c, q2)) => Some((SElem::Inner(item_model(c)), q2)),
                            None => None,
                        }
                    },
                    None => match g_decl(cs, ts, p) {
                        Some((ds, q)) => if sym(ts, q, ";"@) { Some((SElem::Decls(ds), q + 1)) } else { None },
                        None => None,
                    },
                }
            }
        }),
{
    reveal(g_element);
    reveal(g_class);
}

pub proof fn unfold_comp(cs: Seq<char>, ts: Seq<TokV>, p: int, acc: SModel)
    ensures
        g_comp(cs, ts, p, acc) == ({
            if kw(ts, p, "end"@) {
                Some((acc, p))
            } else {
                match g_section(cs, ts, p, acc) {
                    Some((a2, q)) => if p < q && q <= ts.len() { g_comp(cs, ts, q, a2) } else { None },
                    None => match g_element(cs, ts, p) {
                        Some((e, q)) => if p < q && q <= ts.len() { g_comp(cs, ts, q, apply_elem(acc, e)) } else { None },
                        None => None,
                    },
                }
            }
        }),
{
    reveal(g_comp);
    reveal(g_element);
}

pub proof fn unfold_class(cs: Seq<char>, ts: Seq<TokV>, p: int)
    ensures
        g_class(cs, ts, p) == ({
            match g_prefix(ts, p, no_prefix()) {
                Some((pf, q)) => if p < q && is_name(ts, q) {
                    let q1 = comment_end(ts, q + 1);
                    if p < q1 && q1 <= ts.len() {
                        match g_comp(cs, ts, q1, crate::model::empty_model(ts[q].text)) {
                            Some((acc, q2)) => if kw(ts, q2, "end"@) && kind_at(ts, q2 + 1, TokKind::Ident) && sym(ts, q2 + 2, ";"@) {
                                Some((build_item(pf, acc), q2 + 3))
                            } else {
                                None
                            },
                            None => None,
                        }
                    } else {
                        None
                    }
                } else {
                    None
                },
                None => None,
            }
        }),
{
    reveal(g_class);
    reveal(g_comp);
}



pub proof fn unfold_prefix(ts: Seq<TokV>, p: int, f: ClassPrefix)
    ensures
        g_prefix(ts, p, f) == ({
            if kw(ts, p, "encapsulated"@) {
                g_prefix(ts, p + 1, ClassPrefix { is_encapsulated: true, ..f })
            } else if kw(ts, p, "partial"@) {
                g_prefix(ts, p + 1, ClassPrefix { is_partial: true, ..f })
            } else if kw(ts, p, "expandable"@) {
                g_prefix(ts, p + 1, ClassPrefix { is_expandable: true, ..f })
            } else if kw(ts, p, "pure"@) {
                g_prefix(ts, p + 1, ClassPrefix { is_pure: true, ..f })
            } else if kw(ts, p, "impure"@) {
                g_prefix(ts, p + 1, ClassPrefix { is_impure: true, ..f })
            } else if kw(ts, p, "final"@) || kw(ts, p, "replaceable"@) || kw(ts, p, "redeclare"@) || kw(ts, p, "inner"@)
                || kw(ts, p, "outer"@) {
                g_prefix(ts, p + 1, f)
            } else if kw(ts, p, "operator"@) && kw(ts, p + 1, "function"@) {
                Some((ClassPrefix { is_function: true, is_operator_function: true, ..f }, p + 2))
            } else if kw(ts, p, "operator"@) && class_word(ts, p + 1) {
                g_prefix(ts, p + 1, ClassPrefix { is_operator_record: true, ..f })
            } else if kw(ts, p, "operator"@) {
                Some((ClassPrefix { is_operator_record: true, ..f }, p + 1))
            } else if kw(ts, p, "function"@) {
                Some((ClassPrefix { is_function: true, ..f }, p + 1))
            } else if kw(ts, p, "connector"@) {
                Some((ClassPrefix { is_connector: true, ..f }, p + 1))
            } else if kw(ts, p, "record"@) {
                Some((ClassPrefix { is_record: true, ..f }, p + 1))
            } else if kw(ts, p, "block"@) {
                Some((ClassPrefix { is_block: true, ..f }, p + 1))
            } else if kw(ts, p, "type"@) {
                Some((ClassPrefix { is_type: true, ..f }, p + 1))
            } else if kw(ts, p, "model"@) || kw(ts, p, "class"@) || kw(ts, p, "package"@) {
                Some((f, p + 1))
            } else {
                None
            }
        }),
{
    reveal(g_prefix);
}

} // verus!

verus! {

fn last_segment_exec(n: &String) -> (r: String)
    ensures
        r@ == last_segment(n@),
{
    let cs = chars_of(n.as_str());
    match crate::text::find_last(&cs, '.') {
        Some(k) => {
            proof {
                crate::text::lemma_last_index_of(cs@, '.');
            }
            let r = string_of_range(&cs, k + 1, cs.len());
            assert(cs@.subrange(k + 1, cs@.len() as int) =~= cs@.skip(k + 1));
            r
        },
        None => n.clone(),
    }
}

fn parse_id_list(ts: &Vec<Token>, p: usize) -> (r: Option<(Vec<String>, usize)>)
    requires
        p <= ts.len(),
    ensures
        match r {
            Some((v, q)) => g_id_list(toks_view(ts@), p as int) == Some((crate::text::strings_view(v@), q as int)),
            None => g_id_list(toks_view(ts@), p as int) is None,
        },
        r matches Some((_v, q)) ==> q <= ts.len(),
    decreases ts@.len() - p,
{
    if at_kind(ts, p, TokKind::Ident) {
        let first = unquote_exec(&ts[p].text);
        if at_sym(ts, p + 1, ",") {
            match parse_id_list(ts, p + 2) {
                Some((rest, q)) => {
                    let ghost fv = first@;
                    let ghost r0 = rest@;
                    let v = crate::parse_eq::prepend(first, rest);
                    assert(crate::text::strings_view(v@) =~= seq![fv] + crate::text::strings_view(r0));
                    Some((v, q))
                },
                None => None,
            }
        } else {
            let ghost fv = first@;
            let mut v: Vec<String> = Vec::new();
            v.push(first);
            assert(crate::text::strings_view(v@) =~= seq![fv]);
            Some((v, p + 1))
        }
    } else {
        None
    }
}

fn parse_import(ts: &Vec<Token>, p: usize) -> (r: Option<(Vec<(String, String)>, usize)>)
    requires
        p <= ts.len(),
    ensures
        match r {
            Some((v, q)) => g_import(toks_view(ts@), p as int) == Some((crate::model::pairs_view(v@), q as int)),
            None => g_import(toks_view(ts@), p as int) is None,
        },
        r matches Some((_v, q)) ==> q <= ts.len(),
{
    if at_kind(ts, p, TokKind::Ident) && at_sym(ts, p + 1, "=") {
        match parse_dotted(ts, p + 2) {
            Some((q, e)) => {
                let a = ts[p].text.clone();
                let ghost pv = (a@, q@);
                let mut v: Vec<(String, String)> = Vec::new();
                v.push((a, q));
                assert(crate::model::pairs_view(v@) =~= seq![pv]);
                Some((v, e))
            },
            None => None,
        }
    } else {
        match parse_dotted(ts, p) {
            Some((n, e)) => {
                if at_sym(ts, e, ".") && at_sym(ts, e + 1, "{") {
                    match parse_id_list(ts, e + 2) {
                        Some((ids, e2)) => if at_sym(ts, e2, "}") {
                            let ghost iv = crate::text::strings_view(ids@);
                            let prefix = concat(n.as_str(), ".");
                            let mut out: Vec<(String, String)> = Vec::new();
                            let mut i: usize = 0;
                            while i < ids.len()
                                invariant
                                    i <= ids@.len(),
                                    iv == crate::text::strings_view(ids@),
                                    prefix@ == n@ + "."@,
                                    out@.len() == i,
                                    crate::model::pairs_view(out@) == iv.take(i as int).map_values(|x: Seq<char>| (x, n@ + "."@ + x)),
                                decreases ids@.len() - i,
                            {
                                let full = concat(prefix.as_str(), ids[i].as_str());
                                let pr = (ids[i].clone(), full);
                                proof {
                                    let f = |x: Seq<char>| (x, n@ + "."@ + x);
                                    assert(iv[i as int] == ids@[i as int]@);
                                    let lhs = crate::model::pairs_view(out@.push(pr));
                                    let rhs = iv.take(i + 1).map_values(f);
                                    assert(lhs.len() == rhs.len());
                                    assert forall|k: int| 0 <= k < lhs.len() implies lhs[k] == rhs[k] by {
                                        if k < i {
                                            assert(crate::model::pairs_view(out@)[k] == iv.take(i as int).map_values(f)[k]);
                                        }
                                    }
                                    assert(lhs =~= rhs);
                                }
                                out.push(pr);
                                i += 1;
                            }
                            assert(iv.take(ids@.len() as int) =~= iv);
                            Some((out, e2 + 1))
                        } else {
                            None
                        },
                        None => None,
                    }
                } else if at_sym(ts, e, ".*") {
                    let full = concat(n.as_str(), ".*");
                    let pr = ("*".to_owned(), full);
                    let ghost pv = (pr.0@, pr.1@);
                    let mut v: Vec<(String, String)> = Vec::new();
                    v.push(pr);
                    assert(crate::model::pairs_view(v@) =~= seq![pv]);
                    Some((v, e + 1))
                } else {
                    let pr = (last_segment_exec(&n), n);
                    let ghost pv = (pr.0@, pr.1@);
                    let mut v: Vec<(String, String)> = Vec::new();
                    v.push(pr);
                    assert(crate::model::pairs_view(v@) =~= seq![pv]);
                    Some((v, e))
                }
            },
            None => None,
        }
    }
}

fn parse_class_rhs(ts: &Vec<Token>, p: usize) -> (r: Option<(String, bool, usize)>)
    requires
        p <= ts.len(),
    ensures
        match r {
            Some((b, plain, q)) => g_class_rhs(toks_view(ts@), p as int) == Some((b@, plain, q as int)),
            None => g_class_rhs(toks_view(ts@), p as int) is None,
        },
        r matches Some((_b, _plain, q)) ==> q <= ts.len(),
{
    let s = if at_kw(ts, p, "input") || at_kw(ts, p, "output") { p + 1 } else { p };
    if at_kw(ts, s, "enumeration") && at_sym(ts, s + 1, "(") {
        match close_paren_exec(ts, s + 1) {
            Some(q) => Some(("Integer".to_owned(), false, q)),
            None => None,
        }
    } else {
        match parse_dotted(ts, s) {
            Some((b, q1)) => match parse_opt_dim(ts, q1) {
                Some((_d, q2)) => if at_sym(ts, q2, "(") {
                    match close_paren_exec(ts, q2) {
                        Some(q3) => Some((b, false, q3)),
                        None => None,
                    }
                } else {
                    Some((b, true, q2))
                },
                None => None,
            },
            None => None,
        }
    }
}

fn prim_of_exec(b: String) -> (r: String)
    ensures
        r@ == prim_of(b@),
{
    let cs = chars_of(b.as_str());
    if contains_str(&cs, "TypeInteger") {
        "Integer".to_owned()
    } else if contains_str(&cs, "TypeBoolean") {
        "Boolean".to_owned()
    } else if contains_str(&cs, "TypeString") {
        "String".to_owned()
    } else if contains_str(&cs, "TypeReal") {
        "Real".to_owned()
    } else {
        b
    }
}

fn prim_default_exec(b: &String) -> (r: String)
    ensures
        r@ == prim_default(b@),
{
    let cs = chars_of(b.as_str());
    if contains_str(&cs, "TypeInteger") {
        "Integer".to_owned()
    } else if contains_str(&cs, "TypeBoolean") {
        "Boolean".to_owned()
    } else if contains_str(&cs, "TypeString") {
        "String".to_owned()
    } else {
        "Real".to_owned()
    }
}

fn class_word_exec(ts: &Vec<Token>, p: usize) -> (r: bool)
    ensures
        r == class_word(toks_view(ts@), p as int),
{
    at_kw(ts, p, "model") || at_kw(ts, p, "class") || at_kw(ts, p, "package") || at_kw(ts, p, "block")
        || at_kw(ts, p, "connector") || at_kw(ts, p, "record") || at_kw(ts, p, "function") || at_kw(ts, p, "type")
}

#[verifier::rlimit(40)]
fn parse_prefix(ts: &Vec<Token>, p: usize, f: ClassPrefix) -> (r: Option<(ClassPrefix, usize)>)
    requires
        p <= ts.len(),
    ensures
        match r {
            Some((pf, q)) => g_prefix(toks_view(ts@), p as int, f) == Some((pf, q as int)),
            None => g_prefix(toks_view(ts@), p as int, f) is None,
        },
        r matches Some((_pf, q)) ==> p < q <= ts.len(),
    decreases ts@.len() - p,
{
    proof {
        unfold_prefix(toks_view(ts@), p as int, f);
    }
    if at_kw(ts, p, "encapsulated") {
        parse_prefix(ts, p + 1, ClassPrefix { is_encapsulated: true, ..f })
    } else if at_kw(ts, p, "partial") {
        parse_prefix(ts, p + 1, ClassPrefix { is_partial: true, ..f })
    } else if at_kw(ts, p, "expandable") {
        parse_prefix(ts, p + 1, ClassPrefix { is_expandable: true, ..f })
    } else if at_kw(ts, p, "pure") {
        parse_prefix(ts, p + 1, ClassPrefix { is_pure: true, ..f })
    } else if at_kw(ts, p, "impure") {
        parse_prefix(ts, p + 1, ClassPrefix { is_impure: true, ..f })
    } else if at_kw(ts, p, "final") || at_kw(ts, p, "replaceable") || at_kw(ts, p, "redeclare") || at_kw(ts, p, "inner")
        || at_kw(ts, p, "outer") {
        parse_prefix(ts, p + 1, f)
    } else if at_kw(ts, p, "operator") && at_kw(ts, p + 1, "function") {
        Some((ClassPrefix { is_function: true, is_operator_function: true, ..f }, p + 2))
    } else if at_kw(ts, p, "operator") && class_word_exec(ts, p + 1) {
        parse_prefix(ts, p + 1, ClassPrefix { is_operator_record: true, ..f })
    } else if at_kw(ts, p, "operator") {
        Some((ClassPrefix { is_operator_record: true, ..f }, p + 1))
    } else if at_kw(ts, p, "function") {
        Some((ClassPrefix { is_function: true, ..f }, p + 1))
    } else if at_kw(ts, p, "connector") {
        Some((ClassPrefix { is_connector: true, ..f }, p + 1))
    } else if at_kw(ts, p, "record") {
        Some((ClassPrefix { is_record: true, ..f }, p + 1))
    } else if at_kw(ts, p, "block") {
        Some((ClassPrefix { is_block: true, ..f }, p + 1))
    } else if at_kw(ts, p, "type") {
        Some((ClassPrefix { is_type: true, ..f }, p + 1))
    } else if at_kw(ts, p, "model") || at_kw(ts, p, "class") || at_kw(ts, p, "package") {
        Some((f, p + 1))
    } else {
        None
    }
}

fn empty_prefix() -> (r: ClassPrefix)
    ensures
        r == no_prefix(),
{
    ClassPrefix {
        is_function: false,
        is_operator_function: false,
        is_operator_record: false,
        is_connector: false,
        is_record: false,
        is_block: false,
        is_expandable: false,
        is_partial: false,
        is_encapsulated: false,
        is_pure: false,
        is_impure: false,
        is_type: false,
    }
}

fn short_class_exec(pf: ClassPrefix, alias: String, base: String) -> (r: crate::model::Model)
    ensures
        r@ == short_class(pf, alias@, base@),
{
    let mut m = crate::model::new_model(alias);
    m.is_connector = pf.is_connector;
    m.is_function = pf.is_function;
    m.is_record = pf.is_record;
    m.is_block = pf.is_block;
    m.is_operator_record = pf.is_operator_record && pf.is_record;
    let ext = crate::model::ExtendsClause { model_name: base, modifications: Vec::new() };
    assert(mods_view(ext.modifications@) =~= Seq::<SMod>::empty());
    let ghost ev = ext@;
    m.extends.push(ext);
    assert(crate::model::extends_view(m.extends@) =~= seq![ev]);
    m
}

/// The class that stands for `alias = base`: named `alias`, recording
/// `(alias, base)` as a type alias where both are non-empty.
pub fn make_alias_model(alias: String, base: String) -> (r: crate::model::ClassItem)
    ensures
        r@ == crate::model::SClassItem::Model(alias_model(alias@, base@)),
{
    let both = !alias.as_str().is_empty() && !base.as_str().is_empty();
    let a2 = alias.clone();
    let mut m = crate::model::new_model(alias);
    if both {
        let ghost pv = (a2@, base@);
        m.type_aliases.push((a2, base));
        assert(crate::model::pairs_view(m.type_aliases@) =~= seq![pv]);
    }
    crate::model::ClassItem::Model(m)
}

} // verus!

verus! {

/// One element of a class body.
pub enum Elem {
    Decls(Vec<Declaration>),
    Ext(crate::model::ExtendsClause),
    Imports(Vec<(String, String)>),
    Alias(String, String),
    Inner(crate::model::Model),
    Annot(String),
    Skip,
}

impl Elem {
    pub open spec fn view(&self) -> SElem {
        match self {
            Elem::Decls(d) => SElem::Decls(decls_view(d@)),
            Elem::Ext(x) => SElem::Ext(x@),
            Elem::Imports(l) => SElem::Imports(crate::model::pairs_view(l@)),
            Elem::Alias(a, b) => SElem::Alias(a@, b@),
            Elem::Inner(m) => SElem::Inner(m@),
            Elem::Annot(t) => SElem::Annot(t@),
            Elem::Skip => SElem::Skip,
        }
    }
}

pub proof fn lemma_eqs_view_concat(a: Seq<crate::ast::Equation>, b: Seq<crate::ast::Equation>)
    ensures
        crate::ast::eqs_view(a + b) == crate::ast::eqs_view(a) + crate::ast::eqs_view(b),
{
    let s = a + b;
    crate::ast::lemma_eqs_view(s);
    crate::ast::lemma_eqs_view(a);
    crate::ast::lemma_eqs_view(b);
    assert forall|k: int| 0 <= k < s.len() implies #[trigger] crate::ast::eqs_view(s)[k] == (crate::ast::eqs_view(a) + crate::ast::eqs_view(b))[k] by {
        if k < a.len() {
            assert(s[k] == a[k]);
            assert(crate::ast::eqs_view(a)[k] == a[k]@);
        } else {
            assert(s[k] == b[k - a.len()]);
            assert(crate::ast::eqs_view(b)[k - a.len()] == b[k - a.len()]@);
        }
        assert(crate::ast::eqs_view(s)[k] == s[k]@);
    }
    assert(crate::ast::eqs_view(s) =~= crate::ast::eqs_view(a) + crate::ast::eqs_view(b));
}

fn add_decls(acc: crate::model::Model, ds: Vec<Declaration>) -> (r: crate::model::Model)
    ensures
        r@ == (SModel { declarations: acc@.declarations + decls_view(ds@), ..acc@ }),
{
    let mut acc = acc;
    let ghost a0 = acc.declarations@;
    let ghost d0 = ds@;
    let mut ds = ds;
    acc.declarations.append(&mut ds);
    assert(decls_view(acc.declarations@) =~= decls_view(a0) + decls_view(d0));
    acc
}

fn add_ext(acc: crate::model::Model, x: crate::model::ExtendsClause) -> (r: crate::model::Model)
    ensures
        r@ == (SModel { extends: acc@.extends.push(x@), ..acc@ }),
{
    let mut acc = acc;
    let ghost a0 = acc.extends@;
    let ghost xv = x@;
    acc.extends.push(x);
    assert(crate::model::extends_view(acc.extends@) =~= crate::model::extends_view(a0).push(xv));
    acc
}

fn add_imports(acc: crate::model::Model, l: Vec<(String, String)>) -> (r: crate::model::Model)
    ensures
        r@ == (SModel { imports: acc@.imports + crate::model::pairs_view(l@), ..acc@ }),
{
    let mut acc = acc;
    let ghost a0 = acc.imports@;
    let ghost l0 = l@;
    let mut l = l;
    acc.imports.append(&mut l);
    assert(crate::model::pairs_view(acc.imports@) =~= crate::model::pairs_view(a0) + crate::model::pairs_view(l0));
    acc
}

fn add_alias(acc: crate::model::Model, a: String, b: String) -> (r: crate::model::Model)
    ensures
        r@ == (SModel { type_aliases: acc@.type_aliases.push((a@, b@)), ..acc@ }),
{
    let mut acc = acc;
    let ghost a0 = acc.type_aliases@;
    let ghost pv = (a@, b@);
    acc.type_aliases.push((a, b));
    assert(crate::model::pairs_view(acc.type_aliases@) =~= crate::model::pairs_view(a0).push(pv));
    acc
}

fn add_inner(acc: crate::model::Model, m: crate::model::Model) -> (r: crate::model::Model)
    ensures
        r@ == (SModel { inner_classes: acc@.inner_classes.push(m@), ..acc@ }),
{
    let mut acc = acc;
    proof {
        crate::model::lemma_models_view_push(acc.inner_classes@, m);
    }
    acc.inner_classes.push(m);
    acc
}

fn apply_elem_exec(acc: crate::model::Model, e: Elem) -> (r: crate::model::Model)
    ensures
        r@ == apply_elem(acc@, e@),
{
    match e {
        Elem::Decls(ds) => add_decls(acc, ds),
        Elem::Ext(x) => add_ext(acc, x),
        Elem::Imports(l) => add_imports(acc, l),
        Elem::Alias(a, b) => add_alias(acc, a, b),
        Elem::Inner(m) => add_inner(acc, m),
        Elem::Annot(t) => {
            let mut acc = acc;
            if acc.annotation.is_none() {
                acc.annotation = Some(t);
            }
            acc
        },
        Elem::Skip => acc,
    }
}

fn build_item_exec(pf: ClassPrefix, acc: crate::model::Model) -> (r: crate::model::ClassItem)
    ensures
        r@ == build_item(pf, acc@),
{
    if pf.is_function {
        crate::model::ClassItem::Function(crate::model::Function {
            name: acc.name,
            is_operator_function: pf.is_operator_function,
            extends: acc.extends,
            declarations: acc.declarations,
            algorithms: acc.algorithms,
            initial_algorithms: acc.initial_algorithms,
            external_info: acc.external_info,
        })
    } else {
        let mut m = acc;
        m.is_connector = pf.is_connector;
        m.is_function = false;
        m.is_operator_function = false;
        m.is_record = pf.is_record;
        m.is_block = pf.is_block;
        m.is_expandable = pf.is_expandable;
        m.is_partial = pf.is_partial;
        m.is_encapsulated = pf.is_encapsulated;
        m.is_pure = pf.is_pure;
        m.is_impure = pf.is_impure;
        m.is_operator_record = pf.is_operator_record;
        m.external_info = None;
        crate::model::ClassItem::Model(m)
    }
}

fn parse_external(ts: &Vec<Token>, p: usize) -> (r: Option<(crate::model::ExternalDecl, usize)>)
    requires
        p <= ts.len(),
    ensures
        match r {
            Some((x, q)) => g_external(toks_view(ts@), p as int) == Some((x@, q as int)),
            None => g_external(toks_view(ts@), p as int) is None,
        },
        r matches Some((_x, q)) ==> q <= ts.len(),
{
    let (lang, q) = if at_kind(ts, p, TokKind::Str) { (Some(ts[p].text.clone()), p + 1) } else { (None, p) };
    let s = match parse_compref(ts, q) {
        Some((_r, q1)) => if at_sym(ts, q1, "=") { q1 + 1 } else { q },
        None => q,
    };
    let (c, q2) = match parse_dotted(ts, s) {
        Some((n, q1)) => if at_sym(ts, q1, "(") {
            match close_paren_exec(ts, q1) {
                Some(q2) => (Some(n), q2),
                None => (None, q),
            }
        } else {
            (None, q)
        },
        None => (None, q),
    };
    Some((crate::model::ExternalDecl { language: lang, c_name: c }, q2))
}

fn parse_alg_items(cs: &Vec<char>, ts: &Vec<Token>, p: usize) -> (r: Option<(Vec<crate::model::AlgorithmStatement>, Vec<Declaration>, usize)>)
    requires
        p <= ts.len(),
        spans_ok(cs@, toks_view(ts@)),
    ensures
        match r {
            Some((ss, ds, q)) => g_alg_items(cs@, toks_view(ts@), p as int) == Some((crate::model::stmts_view(ss@), decls_view(ds@), q as int)),
            None => g_alg_items(cs@, toks_view(ts@), p as int) is None,
        },
    decreases ts@.len() - p,
{
    match crate::parse_eq::parse_statement(ts, p) {
        Some((s, q)) => {
            if p < q && q <= ts.len() {
                match parse_alg_items(cs, ts, q) {
                    Some((ss, ds, q2)) => {
                        let ghost sv = s@;
                        let ghost s0 = ss@;
                        let mut one: Vec<crate::model::AlgorithmStatement> = Vec::new();
                        one.push(s);
                        proof {
                            crate::model::lemma_stmts_view(one@);
                            assert(crate::model::stmts_view(one@) =~= seq![sv]);
                            crate::parse_eq::lemma_stmts_view_concat(one@, s0);
                        }
                        let ghost o0 = one@;
                        let mut ss = ss;
                        one.append(&mut ss);
                        assert(one@ == o0 + s0);
                        Some((one, ds, q2))
                    },
                    None => None,
                }
            } else {
                None
            }
        },
        None => match parse_decl(cs, ts, p) {
            Some((d, q)) => {
                if p <= q && q < ts.len() && at_sym(ts, q, ";") {
                    match parse_alg_items(cs, ts, q + 1) {
                        Some((ss, ds, q2)) => {
                            let ghost d0 = d@;
                            let ghost ds0 = ds@;
                            let mut d = d;
                            let mut ds = ds;
                            d.append(&mut ds);
                            assert(decls_view(d@) =~= decls_view(d0) + decls_view(ds0));
                            Some((ss, d, q2))
                        },
                        None => None,
                    }
                } else {
                    let a: Vec<crate::model::AlgorithmStatement> = Vec::new();
                    let b: Vec<Declaration> = Vec::new();
                    assert(crate::model::stmts_view(a@) =~= Seq::<crate::model::SStmt>::empty());
                    assert(decls_view(b@) =~= Seq::<SDecl>::empty());
                    Some((a, b, p))
                }
            },
            None => {
                let a: Vec<crate::model::AlgorithmStatement> = Vec::new();
                let b: Vec<Declaration> = Vec::new();
                assert(crate::model::stmts_view(a@) =~= Seq::<crate::model::SStmt>::empty());
                assert(decls_view(b@) =~= Seq::<SDecl>::empty());
                Some((a, b, p))
            },
        },
    }
}

} // verus!

verus! {

fn add_eqs(acc: crate::model::Model, eqs: Vec<crate::ast::Equation>, init: bool) -> (r: crate::model::Model)
    ensures
        r@ == (if init {
            SModel { initial_equations: acc@.initial_equations + crate::ast::eqs_view(eqs@), ..acc@ }
        } else {
            SModel { equations: acc@.equations + crate::ast::eqs_view(eqs@), ..acc@ }
        }),
{
    let mut acc = acc;
    let ghost e0 = eqs@;
    let mut eqs = eqs;
    if init {
        let ghost a0 = acc.initial_equations@;
        acc.initial_equations.append(&mut eqs);
        proof {
            lemma_eqs_view_concat(a0, e0);
        }
    } else {
        let ghost a0 = acc.equations@;
        acc.equations.append(&mut eqs);
        proof {
            lemma_eqs_view_concat(a0, e0);
        }
    }
    acc
}

fn add_algs(acc: crate::model::Model, ss: Vec<crate::model::AlgorithmStatement>, ds: Vec<Declaration>, init: bool) -> (r: crate::model::Model)
    ensures
        r@ == (if init {
            SModel {
                initial_algorithms: acc@.initial_algorithms + crate::model::stmts_view(ss@),
                declarations: acc@.declarations + decls_view(ds@),
                ..acc@
            }
        } else {
            SModel {
                algorithms: acc@.algorithms + crate::model::stmts_view(ss@),
                declarations: acc@.declarations + decls_view(ds@),
                ..acc@
            }
        }),
{
    let acc = add_decls(acc, ds);
    let mut acc = acc;
    let ghost s0 = ss@;
    let mut ss = ss;
    if init {
        let ghost a0 = acc.initial_algorithms@;
        acc.initial_algorithms.append(&mut ss);
        proof {
            crate::parse_eq::lemma_stmts_view_concat(a0, s0);
        }
    } else {
        let ghost a0 = acc.algorithms@;
        acc.algorithms.append(&mut ss);
        proof {
            crate::parse_eq::lemma_stmts_view_concat(a0, s0);
        }
    }
    acc
}

#[verifier::rlimit(80)]
fn parse_element(cs: &Vec<char>, ts: &Vec<Token>, p: usize) -> (r: Option<(Elem, usize)>)
    requires
        p <= ts.len(),
        spans_ok(cs@, toks_view(ts@)),
    ensures
        match r {
            Some((e, q)) => g_element(cs@, toks_view(ts@), p as int) == Some((e@, q as int)),
            None => g_element(cs@, toks_view(ts@), p as int) is None,
        },
    decreases ts@.len() - p, 2int,
{
    proof {
        unfold_element(cs@, toks_view(ts@), p as int);
    }
    if at_kw(ts, p, "public") || at_kw(ts, p, "protected") {
        Some((Elem::Skip, p + 1))
    } else if at_kw(ts, p, "import") {
        match parse_import(ts, p + 1) {
            Some((l, q)) => match crate::parse_eq::stmt_end_exec(ts, q) {
                Some(q2) => Some((Elem::Imports(l), q2)),
                None => None,
            },
            None => None,
        }
    } else if at_kw(ts, p, "extends") {
        match parse_dotted(ts, p + 1) {
            Some((n, q)) => match parse_opt_mods(ts, q) {
                Some((ms, q1)) => match crate::parse_eq::stmt_end_exec(ts, q1) {
                    Some(q2) => Some((Elem::Ext(crate::model::ExtendsClause { model_name: n, modifications: ms }), q2)),
                    None => None,
                },
                None => None,
            },
            None => None,
        }
    } else if at_kw(ts, p, "annotation") && at_sym(ts, p + 1, "(") {
        match close_paren_exec(ts, p + 1) {
            Some(q) => if at_sym(ts, q, ";") { Some((Elem::Annot(span_text_exec(cs, ts, p, q)), q + 1)) } else { None },
            None => None,
        }
    } else if at_kw(ts, p, "type") && at_kind(ts, p + 1, TokKind::Ident) && at_sym(ts, p + 2, "=") {
        match parse_class_rhs(ts, p + 3) {
            Some((b, _plain, q)) => match crate::parse_eq::stmt_end_exec(ts, q) {
                Some(q2) => Some((Elem::Alias(ts[p + 1].text.clone(), prim_of_exec(b)), q2)),
                None => None,
            },
            None => None,
        }
    } else if at_kw(ts, p, "connector") && at_kind(ts, p + 1, TokKind::Ident) && at_sym(ts, p + 2, "=") && (at_kw(
        ts,
        p + 3,
        "input",
    ) || at_kw(ts, p + 3, "output")) {
        match parse_class_rhs(ts, p + 3) {
            Some((b, _plain, q)) => match crate::parse_eq::stmt_end_exec(ts, q) {
                Some(q2) => Some((Elem::Alias(ts[p + 1].text.clone(), b), q2)),
                None => None,
            },
            None => None,
        }
    } else {
        match parse_prefix(ts, p, empty_prefix()) {
            Some((pf, q)) => if at_kind(ts, q, TokKind::Ident) && at_sym(ts, q + 1, "=") {
                match parse_class_rhs(ts, q + 2) {
                    Some((b, plain, q2)) => match crate::parse_eq::stmt_end_exec(ts, q2) {
                        Some(q3) => {
                            let name = ts[q].text.clone();
                            let e = if pf.is_type {
                                let base = if plain { b } else { prim_default_exec(&b) };
                                Elem::Alias(name, base)
                            } else {
                                Elem::Inner(short_class_exec(pf, name, b))
                            };
                            Some((e, q3))
                        },
                        None => None,
                    },
                    None => None,
                }
            } else {
                match parse_class_def(cs, ts, p) {
                    Some((c, q2)) => Some((Elem::Inner(crate::model::class_item_model(c)), q2)),
                    None => None,
                }
            },
            None => match parse_decl(cs, ts, p) {
                Some((ds, q)) => if at_sym(ts, q, ";") { Some((Elem::Decls(ds), q + 1)) } else { None },
                None => None,
            },
        }
    }
}

#[verifier::rlimit(80)]
fn parse_section(cs: &Vec<char>, ts: &Vec<Token>, p: usize, acc: crate::model::Model) -> (r: Result<(crate::model::Model, usize), crate::model::Model>)
    requires
        p <= ts.len(),
        spans_ok(cs@, toks_view(ts@)),
    ensures
        match r {
            Ok((m, q)) => g_section(cs@, toks_view(ts@), p as int, acc@) == Some((m@, q as int)),
            Err(a) => g_section(cs@, toks_view(ts@), p as int, acc@) is None && a@ == acc@,
        },
{
    if at_kw(ts, p, "equation") || (at_kw(ts, p, "initial") && at_kw(ts, p + 1, "equation")) {
        let init = at_kw(ts, p, "initial") && at_kw(ts, p + 1, "equation");
        let s = if init { p + 2 } else { p + 1 };
        let (eqs, q) = crate::parse_eq::parse_equations(ts, s);
        Ok((add_eqs(acc, eqs, init), q))
    } else if at_kw(ts, p, "algorithm") || (at_kw(ts, p, "initial") && at_kw(ts, p + 1, "algorithm")) {
        let init = at_kw(ts, p, "initial") && at_kw(ts, p + 1, "algorithm");
        let s = if init { p + 2 } else { p + 1 };
        match parse_alg_items(cs, ts, s) {
            Some((ss, ds, q)) => Ok((add_algs(acc, ss, ds, init), q)),
            None => Err(acc),
        }
    } else if at_kw(ts, p, "external") {
        match parse_external(ts, p + 1) {
            Some((x, q)) => match crate::parse_eq::stmt_end_exec(ts, q) {
                Some(q2) => {
                    let mut acc = acc;
                    acc.external_info = Some(x);
                    Ok((acc, q2))
                },
                None => Err(acc),
            },
            None => Err(acc),
        }
    } else {
        Err(acc)
    }
}

fn parse_comp(cs: &Vec<char>, ts: &Vec<Token>, p: usize, acc: crate::model::Model) -> (r: Option<(crate::model::Model, usize)>)
    requires
        p <= ts.len(),
        spans_ok(cs@, toks_view(ts@)),
    ensures
        match r {
            Some((m, q)) => g_comp(cs@, toks_view(ts@), p as int, acc@) == Some((m@, q as int)),
            None => g_comp(cs@, toks_view(ts@), p as int, acc@) is None,
        },
    decreases ts@.len() - p, 3int,
{
    proof {
        unfold_comp(cs@, toks_view(ts@), p as int, acc@);
    }
    if at_kw(ts, p, "end") {
        return Some((acc, p));
    }
    match parse_section(cs, ts, p, acc) {
        Ok((a2, q)) => {
            if p < q && q <= ts.len() {
                parse_comp(cs, ts, q, a2)
            } else {
                None
            }
        },
        Err(acc) => match parse_element(cs, ts, p) {
            Some((e, q)) => {
                if p < q && q <= ts.len() {
                    parse_comp(cs, ts, q, apply_elem_exec(acc, e))
                } else {
                    None
                }
            },
            None => None,
        },
    }
}

/// Reads a class definition at `p`, through its `end NAME;`.
pub fn parse_class_def(cs: &Vec<char>, ts: &Vec<Token>, p: usize) -> (r: Option<(crate::model::ClassItem, usize)>)
    requires
        p <= ts.len(),
        spans_ok(cs@, toks_view(ts@)),
    ensures
        match r {
            Some((c, q)) => g_class(cs@, toks_view(ts@), p as int) == Some((c@, q as int)),
            None => g_class(cs@, toks_view(ts@), p as int) is None,
        },
    decreases ts@.len() - p, 1int,
{
    proof {
        unfold_class(cs@, toks_view(ts@), p as int);
    }
    match parse_prefix(ts, p, empty_prefix()) {
        Some((pf, q)) => {
            if p < q && at_name(ts, q) {
                let q1 = comment_end_exec(ts, q + 1);
                if p < q1 && q1 <= ts.len() {
                    let acc = crate::model::new_model(ts[q].text.clone());
                    match parse_comp(cs, ts, q1, acc) {
                        Some((m, q2)) => {
                            if at_kw(ts, q2, "end") && at_kind(ts, q2 + 1, TokKind::Ident) && at_sym(ts, q2 + 2, ";") {
                                Some((build_item_exec(pf, m), q2 + 3))
                            } else {
                                None
                            }
                        },
                        None => None,
                    }
                } else {
                    None
                }
            } else {
                None
            }
        },
        None => None,
    }
}

} // verus!

verus! {

/// Reads the right side of a short class definition at `p`.
pub fn parse_class_rhs_pub(ts: &Vec<Token>, p: usize) -> (r: Option<(String, bool, usize)>)
    requires
        p <= ts.len(),
    ensures
        match r {
            Some((b, plain, q)) => g_class_rhs(toks_view(ts@), p as int) == Some((b@, plain, q as int)),
            None => g_class_rhs(toks_view(ts@), p as int) is None,
        },
        r matches Some((_b, _plain, q)) ==> q <= ts.len(),
{
    parse_class_rhs(ts, p)
}

/// Reads the prefixes of a class definition at `p`.
pub fn parse_prefix_pub(ts: &Vec<Token>, p: usize) -> (r: Option<(ClassPrefix, usize)>)
    requires
        p <= ts.len(),
    ensures
        match r {
            Some((pf, q)) => g_prefix(toks_view(ts@), p as int, no_prefix()) == Some((pf, q as int)),
            None => g_prefix(toks_view(ts@), p as int, no_prefix()) is None,
        },
        r matches Some((_pf, q)) ==> p < q <= ts.len(),
{
    parse_prefix(ts, p, empty_prefix())
}

} // verus!

verus! {

/// Past the last token no class begins.
pub proof fn lemma_class_past_end(cs: Seq<char>, ts: Seq<TokV>, p: int)
    requires
        p > ts.len(),
    ensures
        g_class(cs, ts, p) is None,
{
    unfold_class(cs, ts, p);
    unfold_prefix(ts, p, no_prefix());
}

} // verus!
