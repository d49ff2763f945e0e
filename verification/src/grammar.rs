//! Token-level building blocks shared by the Modelica grammar: tests for a
//! keyword, a symbol or a name at a position, the reserved words, and dotted
//! names.

use vstd::prelude::*;
use crate::lexer::{TokKind, TokV, Token, toks_view};
use crate::text::{concat, str_eq};

verus! {

broadcast use vstd::std_specs::vec::axiom_spec_len;

/// The token at `p` has kind `k` and text `s`.
pub open spec fn tok_at(ts: Seq<TokV>, p: int, k: TokKind, s: Seq<char>) -> bool {
    0 <= p < ts.len() && ts[p].kind == k && ts[p].text == s
}

/// The token at `p` is the word `s`.
pub open spec fn kw(ts: Seq<TokV>, p: int, s: Seq<char>) -> bool {
    tok_at(ts, p, TokKind::Ident, s)
}

/// The token at `p` is the symbol `s`.
pub open spec fn sym(ts: Seq<TokV>, p: int, s: Seq<char>) -> bool {
    tok_at(ts, p, TokKind::Sym, s)
}

/// The token at `p` has kind `k`.
pub open spec fn kind_at(ts: Seq<TokV>, p: int, k: TokKind) -> bool {
    0 <= p < ts.len() && ts[p].kind == k
}

/// The words that cannot name a component, a class or a function.
pub open spec fn reserved(s: Seq<char>) -> bool {
    s == "and"@ || s == "or"@ || s == "not"@ || s == "if"@ || s == "then"@ || s == "else"@
        || s == "elseif"@ || s == "elsewhen"@ || s == "when"@ || s == "for"@ || s == "loop"@
        || s == "in"@ || s == "while"@ || s == "end"@ || s == "equation"@ || s == "algorithm"@
        || s == "protected"@ || s == "public"@ || s == "annotation"@ || s == "external"@
        || s == "true"@ || s == "false"@ || s == "import"@ || s == "extends"@ || s == "within"@
        || s == "break"@ || s == "return"@ || s == "each"@ || s == "final"@ || s == "redeclare"@
        || s == "replaceable"@ || s == "constant"@ || s == "parameter"@ || s == "input"@
        || s == "output"@ || s == "flow"@ || s == "stream"@ || s == "discrete"@ || s == "inner"@
        || s == "outer"@ || s == "model"@ || s == "class"@ || s == "block"@ || s == "connector"@
        || s == "record"@ || s == "package"@ || s == "function"@ || s == "type"@ || s == "operator"@
        || s == "partial"@ || s == "encapsulated"@ || s == "expandable"@ || s == "pure"@
        || s == "impure"@ || s == "constrainedby"@ || s == "enumeration"@
}

/// The token at `p` is an identifier that is not a reserved word.
pub open spec fn is_name(ts: Seq<TokV>, p: int) -> bool {
    kind_at(ts, p, TokKind::Ident) && !reserved(ts[p].text)
}

/// `p <= q <= n`: a position `q` reached from `p` that stays in the tokens.
pub open spec fn adv(p: int, q: int, n: int) -> bool {
    p <= q <= n
}

/// Whether `s` is a reserved word.
pub fn is_reserved(s: &str) -> (r: bool)
    ensures
        r == reserved(s@),
{
    str_eq(s, "and") || str_eq(s, "or") || str_eq(s, "not") || str_eq(s, "if") || str_eq(s, "then")
        || str_eq(s, "else") || str_eq(s, "elseif") || str_eq(s, "elsewhen") || str_eq(s, "when")
        || str_eq(s, "for") || str_eq(s, "loop") || str_eq(s, "in") || str_eq(s, "while")
        || str_eq(s, "end") || str_eq(s, "equation") || str_eq(s, "algorithm")
        || str_eq(s, "protected") || str_eq(s, "public") || str_eq(s, "annotation")
        || str_eq(s, "external") || str_eq(s, "true") || str_eq(s, "false") || str_eq(s, "import")
        || str_eq(s, "extends") || str_eq(s, "within") || str_eq(s, "break") || str_eq(s, "return")
        || str_eq(s, "each") || str_eq(s, "final") || str_eq(s, "redeclare")
        || str_eq(s, "replaceable") || str_eq(s, "constant") || str_eq(s, "parameter")
        || str_eq(s, "input") || str_eq(s, "output") || str_eq(s, "flow") || str_eq(s, "stream")
        || str_eq(s, "discrete") || str_eq(s, "inner") || str_eq(s, "outer") || str_eq(s, "model")
        || str_eq(s, "class") || str_eq(s, "block") || str_eq(s, "connector") || str_eq(s, "record")
        || str_eq(s, "package") || str_eq(s, "function") || str_eq(s, "type")
        || str_eq(s, "operator") || str_eq(s, "partial") || str_eq(s, "encapsulated")
        || str_eq(s, "expandable") || str_eq(s, "pure") || str_eq(s, "impure")
        || str_eq(s, "constrainedby") || str_eq(s, "enumeration")
}

/// Whether the token at `p` is the word `s`.
pub fn at_kw(ts: &Vec<Token>, p: usize, s: &str) -> (r: bool)
    ensures
        r == kw(toks_view(ts@), p as int, s@),
{
    if p < ts.len() {
        ts[p].kind == TokKind::Ident && str_eq(ts[p].text.as_str(), s)
    } else {
        false
    }
}

/// Whether the token at `p` is the symbol `s`.
pub fn at_sym(ts: &Vec<Token>, p: usize, s: &str) -> (r: bool)
    ensures
        r == sym(toks_view(ts@), p as int, s@),
{
    if p < ts.len() {
        ts[p].kind == TokKind::Sym && str_eq(ts[p].text.as_str(), s)
    } else {
        false
    }
}

/// Whether the token at `p` has kind `k`.
pub fn at_kind(ts: &Vec<Token>, p: usize, k: TokKind) -> (r: bool)
    ensures
        r == kind_at(toks_view(ts@), p as int, k),
{
    p < ts.len() && ts[p].kind == k
}

/// Whether the token at `p` is a name (an identifier that is not reserved).
pub fn at_name(ts: &Vec<Token>, p: usize) -> (r: bool)
    ensures
        r == is_name(toks_view(ts@), p as int),
{
    p < ts.len() && ts[p].kind == TokKind::Ident && !is_reserved(ts[p].text.as_str())
}

/// The rest of a dotted name after its first part `acc`: `("." IDENT)*`, the
/// parts joined with dots.
pub open spec fn g_name_tail(ts: Seq<TokV>, p: int, acc: Seq<char>) -> (Seq<char>, int)
    decreases ts.len() - p,
{
    if sym(ts, p, "."@) && kind_at(ts, p + 1, TokKind::Ident) {
        g_name_tail(ts, p + 2, acc + "."@ + ts[p + 1].text)
    } else {
        (acc, p)
    }
}

/// A dotted name `["."] NAME ("." IDENT)*`, without a leading dot.
pub open spec fn g_dotted(ts: Seq<TokV>, p: int) -> Option<(Seq<char>, int)> {
    let s = if sym(ts, p, "."@) { p + 1 } else { p };
    if is_name(ts, s) {
        Some(g_name_tail(ts, s + 1, ts[s].text))
    } else {
        None
    }
}

pub proof fn lemma_name_tail(ts: Seq<TokV>, p: int, acc: Seq<char>)
    requires
        0 <= p <= ts.len(),
    ensures
        p <= g_name_tail(ts, p, acc).1 <= ts.len(),
    decreases ts.len() - p,
{
    if sym(ts, p, "."@) && kind_at(ts, p + 1, TokKind::Ident) {
        lemma_name_tail(ts, p + 2, acc + "."@ + ts[p + 1].text);
    }
}

fn parse_name_tail(ts: &Vec<Token>, p: usize, acc: String) -> (r: (String, usize))
    requires
        p <= ts.len(),
    ensures
        (r.0@, r.1 as int) == g_name_tail(toks_view(ts@), p as int, acc@),
{
    let ghost acc0 = acc@;
    let mut acc = acc;
    let mut k = p;
    while at_sym(ts, k, ".") && at_kind(ts, k + 1, TokKind::Ident)
        invariant
            p <= k <= ts.len(),
            g_name_tail(toks_view(ts@), k as int, acc@) == g_name_tail(toks_view(ts@), p as int, acc0),
        decreases ts@.len() - k,
    {
        let with_dot = concat(acc.as_str(), ".");
        acc = concat(with_dot.as_str(), ts[k + 1].text.as_str());
        k = k + 2;
    }
    (acc, k)
}

/// A dotted name starting at `p`, without its leading dot.
pub fn parse_dotted(ts: &Vec<Token>, p: usize) -> (r: Option<(String, usize)>)
    requires
        p <= ts.len(),
    ensures
        match r {
            Some((s, q)) => g_dotted(toks_view(ts@), p as int) == Some((s@, q as int)),
            None => g_dotted(toks_view(ts@), p as int) is None,
        },
        r matches Some((s, q)) ==> p < q <= ts@.len(),
{
    let s = if at_sym(ts, p, ".") { p + 1 } else { p };
    if at_name(ts, s) {
        proof {
            lemma_name_tail(toks_view(ts@), s + 1, ts@[s as int].text@);
        }
        Some(parse_name_tail(ts, s + 1, ts[s].text.clone()))
    } else {
        None
    }
}

} // verus!
