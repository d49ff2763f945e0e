//! Reading Modelica source text: a whole file into its classes, one class
//! definition, or one expression. A file that holds nothing but a connector
//! alias line (`connector A = input B;`) is read by that line alone.

use vstd::prelude::*;
use crate::ast::{Expression, SExpr};
use crate::grammar::{kind_at, kw, sym};
use crate::lexer::{TokKind, TokV, Token, lex, lex_from, line_end, next_token, skip_trivia, tokenize_chars, toks_view, lemma_next_token, lemma_skip_trivia};
use crate::model::{ClassItem, SClassItem, SModel, items_view};
use crate::parse_class::{ClassPrefix, alias_model, g_class, g_class_rhs, g_prefix, no_prefix, spans_ok, unquote};
use crate::parse_expr::{g_expr};
use crate::text::{chars_of, is_ws, split_once, starts_with, string_of_chars, trim};

verus! {

broadcast use vstd::std_specs::vec::axiom_spec_len;

/// Why reading failed.
#[derive(Debug, Clone, Copy, PartialEq, Eq, Structural)]
pub enum ParseError {
    /// No token can begin at this character offset (or a block comment opened
    /// there is never closed).
    Lex(usize),
    /// The tokens do not form what was asked for.
    Syntax,
    /// The file holds no class.
    Empty,
}

/// The tokens of a lexing lie in order inside the source.
pub proof fn lemma_lex_spans(cs: Seq<char>, i: int)
    requires
        0 <= i <= cs.len(),
    ensures
        lex_from(cs, i) matches Ok(ts) ==> spans_ok(cs, ts) && forall|k: int| #![trigger ts[k]] 0 <= k < ts.len() ==> i <= ts[k].start,
    decreases cs.len() - i,
{
    lemma_skip_trivia(cs, i);
    match skip_trivia(cs, i) {
        Ok(j) => {
            if j < cs.len() {
                lemma_next_token(cs, j);
                match next_token(cs, j) {
                    Some(t) => {
                        lemma_lex_spans(cs, t.end);
                        match lex_from(cs, t.end) {
                            Ok(rest) => {
                                let ts = seq![t] + rest;
                                assert(lex_from(cs, i) == Ok::<Seq<TokV>, int>(ts));
                                assert forall|k: int| #![trigger ts[k]] 0 <= k < ts.len() implies 0 <= ts[k].start && ts[k].start <= ts[k].end && ts[k].end <= cs.len() by {
                                    if k > 0 {
                                        assert(ts[k] == rest[k - 1]);
                                    }
                                }
                                assert forall|a: int, b: int| #![trigger ts[a], ts[b]] 0 <= a < b < ts.len() implies ts[a].end <= ts[b].start by {
                                    assert(ts[b] == rest[b - 1]);
                                    if a > 0 {
                                        assert(ts[a] == rest[a - 1]);
                                    }
                                }
                                assert forall|k: int| #![trigger ts[k]] 0 <= k < ts.len() implies i <= ts[k].start by {
                                    if k > 0 {
                                        assert(ts[k] == rest[k - 1]);
                                    }
                                }
                            },
                            Err(_) => {},
                        }
                    },
                    None => {},
                }
            }
        },
        Err(_) => {},
    }
}

/// After an optional `within [name];` at the start.
pub open spec fn g_within_end(ts: Seq<TokV>) -> Option<int> {
    if kw(ts, 0, "within"@) {
        if sym(ts, 1, ";"@) {
            Some(2)
        } else {
            match crate::grammar::g_dotted(ts, 1) {
                Some((_n, q)) => if sym(ts, q, ";"@) { Some(q + 1) } else { None },
                None => None,
            }
        }
    } else {
        Some(0)
    }
}

/// A top-level short definition `alias = base` as a class of its own.
pub open spec fn top_alias(pf: ClassPrefix, alias: Seq<char>, base: Seq<char>) -> SModel {
    SModel {
        is_function: pf.is_function,
        is_operator_function: pf.is_operator_function,
        is_record: pf.is_record,
        is_expandable: pf.is_expandable,
        is_partial: pf.is_partial,
        is_encapsulated: pf.is_encapsulated,
        is_pure: pf.is_pure,
        is_impure: pf.is_impure,
        ..alias_model(alias, base)
    }
}

/// One class of a file: a connector alias `connector A = input B ...;`, a
/// short definition `... A = B ...;`, or a full class definition.
pub open spec fn g_top_item(cs: Seq<char>, ts: Seq<TokV>, p: int) -> Option<(SClassItem, int)> {
    if kw(ts, p, "connector"@) && kind_at(ts, p + 1, TokKind::Ident) && sym(ts, p + 2, "="@) && (kw(ts, p + 3, "input"@)
        || kw(ts, p + 3, "output"@)) {
        match g_class_rhs(ts, p + 3) {
            Some((b, _plain, q)) => match crate::parse_eq::stmt_end(ts, q) {
                Some(q2) => Some((SClassItem::Model(alias_model(ts[p + 1].text, b)), q2)),
                None => None,
            },
            None => None,
        }
    } else {
        match g_prefix(ts, p, no_prefix()) {
            Some((pf, q)) => if kind_at(ts, q, TokKind::Ident) && sym(ts, q + 1, "="@) {
                match g_class_rhs(ts, q + 2) {
                    Some((b, _plain, q2)) => match crate::parse_eq::stmt_end(ts, q2) {
                        Some(q3) => Some((SClassItem::Model(top_alias(pf, ts[q].text, b)), q3)),
                        None => None,
                    },
                    None => None,
                }
            } else {
                g_class(cs, ts, p)
            },
            None => None,
        }
    }
}

/// The classes of a file from `p` to the end of the tokens.
pub open spec fn g_top_items(cs: Seq<char>, ts: Seq<TokV>, p: int) -> Option<Seq<SClassItem>>
    decreases ts.len() - p,
{
    if p >= ts.len() {
        Some(Seq::empty())
    } else {
        match g_top_item(cs, ts, p) {
            Some((it, q)) => if p < q && q <= ts.len() {
                match g_top_items(cs, ts, q) {
                    Some(rest) => Some(seq![it] + rest),
                    None => None,
                }
            } else {
                None
            },
            None => None,
        }
    }
}

/// The classes of a whole file of tokens.
pub open spec fn g_file(cs: Seq<char>, ts: Seq<TokV>) -> Option<Seq<SClassItem>> {
    match g_within_end(ts) {
        Some(p) => g_top_items(cs, ts, p),
        None => None,
    }
}

/// A connector alias read from one trimmed line: `connector A = [input|output] B...`,
/// `B` ending at white space, `;` or `(`.
pub open spec fn alias_of_line(line: Seq<char>) -> Option<(Seq<char>, Seq<char>)> {
    if !starts_with(line, "connector "@) {
        None
    } else {
        let rest = trim(line.skip("connector "@.len() as int));
        match split_once(rest, '=') {
            None => None,
            Some((a, r)) => {
                let alias = trim(a);
                let rhs0 = trim(r);
                let rhs = if starts_with(rhs0, "input "@) {
                    trim(rhs0.skip("input "@.len() as int))
                } else if starts_with(rhs0, "output "@) {
                    trim(rhs0.skip("output "@.len() as int))
                } else {
                    rhs0
                };
                let base = rhs.take(name_run(rhs, 0));
                if alias.len() == 0 || base.len() == 0 {
                    None
                } else {
                    Some((alias, base))
                }
            },
        }
    }
}

/// The end of the run of characters from `i` that are neither white space nor
/// `;` nor `(`.
pub open spec fn name_run(s: Seq<char>, i: int) -> int
    decreases s.len() - i,
{
    if 0 <= i < s.len() && !is_ws(s[i]) && s[i] != ';' && s[i] != '(' {
        name_run(s, i + 1)
    } else {
        i
    }
}

/// The first line from `i` that is not empty, not a `within` clause and not a
/// `//` comment decides: a connector alias line gives the alias and its base.
pub open spec fn alias_from(cs: Seq<char>, i: int) -> Option<(Seq<char>, Seq<char>)>
    decreases cs.len() - i,
{
    if i < 0 || i > cs.len() {
        None
    } else {
        let e = line_end(cs, i);
        let line = trim(cs.subrange(i, e));
        if line.len() == 0 || starts_with(line, "within "@) || starts_with(line, "//"@) {
            proof {
                crate::lexer::lemma_line_end(cs, i);
            }
            if e >= cs.len() {
                None
            } else {
                alias_from(cs, e + 1)
            }
        } else {
            alias_of_line(line)
        }
    }
}

/// What reading a whole file gives.
pub open spec fn spec_parse_all(cs: Seq<char>) -> Result<Seq<SClassItem>, ParseError> {
    match alias_from(cs, 0) {
        Some((a, b)) => Ok(seq![SClassItem::Model(alias_model(a, b))]),
        None => match lex(cs) {
            Err(p) => Err(ParseError::Lex(p as usize)),
            Ok(ts) => match g_file(cs, ts) {
                Some(items) => Ok(items),
                None => Err(ParseError::Syntax),
            },
        },
    }
}

} // verus!

verus! {

/// The characters `v[a..b]`.
fn slice(v: &Vec<char>, a: usize, b: usize) -> (r: Vec<char>)
    requires
        a <= b <= v@.len(),
    ensures
        r@ == v@.subrange(a as int, b as int),
{
    let mut out: Vec<char> = Vec::new();
    let mut i = a;
    while i < b
        invariant
            a <= i <= b <= v@.len(),
            out@ == v@.subrange(a as int, i as int),
        decreases b - i,
    {
        out.push(v[i]);
        assert(out@ =~= v@.subrange(a as int, i + 1));
        i += 1;
    }
    out
}

/// The characters of `v` without leading and trailing white space.
fn trimmed(v: &Vec<char>) -> (r: Vec<char>)
    ensures
        r@ == trim(v@),
{
    let (a, b) = crate::text::trim_bounds(v);
    slice(v, a, b)
}

/// Whether `v` begins with `p`.
fn begins(v: &Vec<char>, p: &str) -> (r: bool)
    ensures
        r == starts_with(v@, p@),
{
    crate::text::vec_starts_with(v, p)
}

fn name_run_exec(s: &Vec<char>) -> (r: usize)
    ensures
        r == name_run(s@, 0),
        r <= s@.len(),
{
    let mut k: usize = 0;
    while k < s.len() && !crate::text::is_ws_exec(s[k]) && s[k] != ';' && s[k] != '('
        invariant
            k <= s@.len(),
            name_run(s@, k as int) == name_run(s@, 0),
        decreases s@.len() - k,
    {
        k += 1;
    }
    k
}

fn alias_of_line_exec(line: &Vec<char>) -> (r: Option<(Vec<char>, Vec<char>)>)
    ensures
        match r {
            Some((a, b)) => alias_of_line(line@) == Some((a@, b@)),
            None => alias_of_line(line@) is None,
        },
{
    proof {
        reveal_strlit("connector ");
        reveal_strlit("input ");
        reveal_strlit("output ");
    }
    if !begins(line, "connector ") {
        return None;
    }
    let rest0 = slice(line, 10, line.len());
    assert(rest0@ =~= line@.skip("connector "@.len() as int));
    let rest = trimmed(&rest0);
    match crate::text::find_first(&rest, '=') {
        None => None,
        Some(k) => {
            proof {
                crate::text::lemma_first_index_of(rest@, '=');
            }
            assert(k < rest.len());
            let a0 = slice(&rest, 0, k);
            let r0 = slice(&rest, k + 1, rest.len());
            assert(a0@ =~= rest@.take(k as int));
            assert(r0@ =~= rest@.skip(k + 1));
            let alias = trimmed(&a0);
            let rhs0 = trimmed(&r0);
            let rhs = if begins(&rhs0, "input ") {
                let t = slice(&rhs0, 6, rhs0.len());
                assert(t@ =~= rhs0@.skip("input "@.len() as int));
                trimmed(&t)
            } else if begins(&rhs0, "output ") {
                let t = slice(&rhs0, 7, rhs0.len());
                assert(t@ =~= rhs0@.skip("output "@.len() as int));
                trimmed(&t)
            } else {
                rhs0
            };
            let n = name_run_exec(&rhs);
            let base = slice(&rhs, 0, n);
            assert(base@ =~= rhs@.take(n as int));
            if alias.len() == 0 || base.len() == 0 {
                None
            } else {
                Some((alias, base))
            }
        },
    }
}

/// The alias and base of a file that consists of a connector alias line
/// (`connector A = input B;`), after any empty, `within` or `//` lines.
pub fn try_parse_connector_alias_file(input: &str) -> (r: Option<(String, String)>)
    ensures
        match r {
            Some((a, b)) => alias_from(input@, 0) == Some((a@, b@)),
            None => alias_from(input@, 0) is None,
        },
{
    proof {
        reveal_strlit("within ");
        reveal_strlit("//");
    }
    let cs = chars_of(input);
    let n = cs.len();
    let mut i: usize = 0;
    while i <= n
        invariant
            n == cs@.len(),
            cs@ == input@,
            i <= n + 1,
            alias_from(cs@, i as int) == alias_from(cs@, 0),
        decreases n + 1 - i,
    {
        proof {
            crate::lexer::lemma_line_end(cs@, i as int);
        }
        let e = crate::lexer::line_end_exec(&cs, i);
        let raw = slice(&cs, i, e);
        let line = trimmed(&raw);
        if line.len() == 0 || begins(&line, "within ") || begins(&line, "//") {
            if e >= n {
                return None;
            }
            i = e + 1;
        } else {
            return match alias_of_line_exec(&line) {
                Some((a, b)) => Some((string_of_chars(&a), string_of_chars(&b))),
                None => None,
            };
        }
    }
    None
}

} // verus!

verus! {

fn parse_within_end(ts: &Vec<Token>) -> (r: Option<usize>)
    ensures
        match r {
            Some(p) => g_within_end(toks_view(ts@)) == Some(p as int) && p <= ts.len(),
            None => g_within_end(toks_view(ts@)) is None,
        },
{
    if crate::grammar::at_kw(ts, 0, "within") {
        if crate::grammar::at_sym(ts, 1, ";") {
            Some(2)
        } else {
            match crate::grammar::parse_dotted(ts, 1) {
                Some((_n, q)) => if crate::grammar::at_sym(ts, q, ";") { Some(q + 1) } else { None },
                None => None,
            }
        }
    } else {
        Some(0)
    }
}

fn top_alias_exec(pf: ClassPrefix, alias: String, base: String) -> (r: ClassItem)
    ensures
        r@ == SClassItem::Model(top_alias(pf, alias@, base@)),
{
    match crate::parse_class::make_alias_model(alias, base) {
        ClassItem::Model(m) => {
            let mut m = m;
            m.is_function = pf.is_function;
            m.is_operator_function = pf.is_operator_function;
            m.is_record = pf.is_record;
            m.is_expandable = pf.is_expandable;
            m.is_partial = pf.is_partial;
            m.is_encapsulated = pf.is_encapsulated;
            m.is_pure = pf.is_pure;
            m.is_impure = pf.is_impure;
            ClassItem::Model(m)
        },
        ClassItem::Function(f) => ClassItem::Function(f),
    }
}

fn parse_top_item(cs: &Vec<char>, ts: &Vec<Token>, p: usize) -> (r: Option<(ClassItem, usize)>)
    requires
        p <= ts.len(),
        spans_ok(cs@, toks_view(ts@)),
    ensures
        match r {
            Some((c, q)) => g_top_item(cs@, toks_view(ts@), p as int) == Some((c@, q as int)),
            None => g_top_item(cs@, toks_view(ts@), p as int) is None,
        },
{
    if crate::grammar::at_kw(ts, p, "connector") && crate::grammar::at_kind(ts, p + 1, TokKind::Ident)
        && crate::grammar::at_sym(ts, p + 2, "=") && (crate::grammar::at_kw(ts, p + 3, "input")
        || crate::grammar::at_kw(ts, p + 3, "output")) {
        match crate::parse_class::parse_class_rhs_pub(ts, p + 3) {
            Some((b, _plain, q)) => match crate::parse_eq::stmt_end_exec(ts, q) {
                Some(q2) => Some((crate::parse_class::make_alias_model(ts[p + 1].text.clone(), b), q2)),
                None => None,
            },
            None => None,
        }
    } else {
        match crate::parse_class::parse_prefix_pub(ts, p) {
            Some((pf, q)) => if crate::grammar::at_kind(ts, q, TokKind::Ident) && crate::grammar::at_sym(ts, q + 1, "=") {
                match crate::parse_class::parse_class_rhs_pub(ts, q + 2) {
                    Some((b, _plain, q2)) => match crate::parse_eq::stmt_end_exec(ts, q2) {
                        Some(q3) => Some((top_alias_exec(pf, ts[q].text.clone(), b), q3)),
                        None => None,
                    },
                    None => None,
                }
            } else {
                crate::parse_class::parse_class_def(cs, ts, p)
            },
            None => None,
        }
    }
}

fn parse_top_items(cs: &Vec<char>, ts: &Vec<Token>, p: usize) -> (r: Option<Vec<ClassItem>>)
    requires
        p <= ts.len(),
        spans_ok(cs@, toks_view(ts@)),
    ensures
        match r {
            Some(v) => g_top_items(cs@, toks_view(ts@), p as int) == Some(items_view(v@)),
            None => g_top_items(cs@, toks_view(ts@), p as int) is None,
        },
    decreases ts@.len() - p,
{
    if p >= ts.len() {
        let v: Vec<ClassItem> = Vec::new();
        assert(items_view(v@) =~= Seq::<SClassItem>::empty());
        return Some(v);
    }
    match parse_top_item(cs, ts, p) {
        Some((it, q)) => {
            if p < q && q <= ts.len() {
                match parse_top_items(cs, ts, q) {
                    Some(rest) => {
                        let ghost iv = it@;
                        let ghost r0 = rest@;
                        let v = crate::parse_eq::prepend(it, rest);
                        assert(items_view(v@) =~= seq![iv] + items_view(r0));
                        Some(v)
                    },
                    None => None,
                }
            } else {
                None
            }
        },
        None => None,
    }
}

/// Reads every class of a Modelica file. A file that is a connector alias line
/// gives the one alias class; otherwise the file is split into tokens and read
/// by the file grammar, which must take all of them.
pub fn parse_all(input: &str) -> (r: Result<Vec<ClassItem>, ParseError>)
    ensures
        match r {
            Ok(v) => spec_parse_all(input@) == Ok::<Seq<SClassItem>, ParseError>(items_view(v@)),
            Err(e) => spec_parse_all(input@) == Err::<Seq<SClassItem>, ParseError>(e),
        },
{
    match try_parse_connector_alias_file(input) {
        Some((a, b)) => {
            let m = crate::parse_class::make_alias_model(a, b);
            let ghost mv = m@;
            let mut v: Vec<ClassItem> = Vec::new();
            v.push(m);
            assert(items_view(v@) =~= seq![mv]);
            return Ok(v);
        },
        None => {},
    }
    let cs = chars_of(input);
    match tokenize_chars(&cs) {
        Err(p) => Err(ParseError::Lex(p)),
        Ok(ts) => {
            proof {
                lemma_lex_spans(cs@, 0);
            }
            match parse_within_end(&ts) {
                Some(p) => match parse_top_items(&cs, &ts, p) {
                    Some(items) => Ok(items),
                    None => Err(ParseError::Syntax),
                },
                None => Err(ParseError::Syntax),
            }
        },
    }
}

/// Reads the first class of a Modelica file; a file without a class is `Empty`.
pub fn parse(input: &str) -> (r: Result<ClassItem, ParseError>)
    ensures
        match spec_parse_all(input@) {
            Ok(items) => if items.len() > 0 {
                r matches Ok(c) && c@ == items[0]
            } else {
                r == Err::<ClassItem, ParseError>(ParseError::Empty)
            },
            Err(e) => r == Err::<ClassItem, ParseError>(e),
        },
{
    match parse_all(input) {
        Ok(v) => {
            let mut v = v;
            if v.len() > 0 {
                let ghost v0 = v@;
                let c = v.remove(0);
                assert(c == v0[0]);
                Ok(c)
            } else {
                Err(ParseError::Empty)
            }
        },
        Err(e) => Err(e),
    }
}

/// What reading an expression from the start of a text gives: the expression
/// that the grammar reads from its first token (tokens after it are left).
pub open spec fn spec_parse_expression(cs: Seq<char>) -> Result<SExpr, ParseError> {
    match lex(cs) {
        Err(p) => Err(ParseError::Lex(p as usize)),
        Ok(ts) => match g_expr(ts, 0) {
            Some((e, _q)) => Ok(e),
            None => Err(ParseError::Syntax),
        },
    }
}

/// Reads an expression from the start of `input`.
pub fn parse_expression_from_str(input: &str) -> (r: Result<Expression, ParseError>)
    ensures
        match r {
            Ok(e) => spec_parse_expression(input@) == Ok::<SExpr, ParseError>(e@),
            Err(x) => spec_parse_expression(input@) == Err::<SExpr, ParseError>(x),
        },
{
    let cs = chars_of(input);
    match tokenize_chars(&cs) {
        Err(p) => Err(ParseError::Lex(p)),
        Ok(ts) => match crate::parse_expr::parse_expr(&ts, 0) {
            Some((e, _q)) => Ok(e),
            None => Err(ParseError::Syntax),
        },
    }
}

/// A name with surrounding white space and the quotes of a quoted identifier
/// `'...'` taken off.
pub fn normalize_identifier(s: &str) -> (r: String)
    ensures
        r@ == unquote(trim(s@)),
{
    let cs = chars_of(s);
    let t = trimmed(&cs);
    let n = t.len();
    if n >= 2 && t[0] == '\'' && t[n - 1] == '\'' {
        let inner = slice(&t, 1, n - 1);
        string_of_chars(&inner)
    } else {
        string_of_chars(&t)
    }
}

} // verus!

verus! {

/// What [`ModelicaParser::parse`] is asked to read.
#[allow(non_camel_case_types)]
#[derive(Clone, Copy, Debug, PartialEq, Eq, Structural)]
pub enum Rule {
    /// A whole file: its classes, through the last token.
    model_file,
    /// One class definition at the start.
    model_definition,
    /// One expression at the start.
    expression,
}

/// A match of a rule: the source, its tokens and the token range `[start, end)`.
pub struct Pair {
    pub rule: Rule,
    pub src: Vec<char>,
    pub toks: Vec<Token>,
    pub start: usize,
    pub end: usize,
}

/// The matches of one call of [`ModelicaParser::parse`], handed out in order.
pub struct Pairs {
    pub first: Option<Pair>,
}

impl Pairs {
    /// The next match, if one is left.
    pub fn next(&mut self) -> (r: Option<Pair>)
        ensures
            r == old(self).first,
            final(self).first is None,
    {
        let mut taken: Option<Pair> = None;
        std::mem::swap(&mut taken, &mut self.first);
        taken
    }
}

/// Where rule `rule` ends when read from the first token, if it reads.
pub open spec fn rule_end(rule: Rule, cs: Seq<char>, ts: Seq<TokV>) -> Option<int> {
    match rule {
        Rule::model_file => match g_file(cs, ts) {
            Some(_items) => Some(ts.len() as int),
            None => None,
        },
        Rule::model_definition => match g_class(cs, ts, 0) {
            Some((_c, q)) => Some(q),
            None => None,
        },
        Rule::expression => match g_expr(ts, 0) {
            Some((_e, q)) => Some(q),
            None => None,
        },
    }
}

/// Reader of Modelica source by rule.
pub struct ModelicaParser;

impl ModelicaParser {
    /// Reads `rule` at the start of `input`: one match from the first token to
    /// where the rule ends, or why it does not read.
    pub fn parse(rule: Rule, input: &str) -> (r: Result<Pairs, ParseError>)
        ensures
            match lex(input@) {
                Err(p) => r == Err::<Pairs, ParseError>(ParseError::Lex(p as usize)),
                Ok(ts) => match rule_end(rule, input@, ts) {
                    Some(q) => r matches Ok(ps) && ps.first matches Some(pair) && pair.rule == rule
                        && pair.src@ == input@ && toks_view(pair.toks@) == ts && pair.start == 0
                        && pair.end == q,
                    None => r == Err::<Pairs, ParseError>(ParseError::Syntax),
                },
            },
    {
        let cs = chars_of(input);
        let ts = match tokenize_chars(&cs) {
            Err(p) => {
                return Err(ParseError::Lex(p));
            },
            Ok(ts) => ts,
        };
        proof {
            lemma_lex_spans(cs@, 0);
        }
        let end: Option<usize> = match rule {
            Rule::model_file => match parse_within_end(&ts) {
                Some(p) => match parse_top_items(&cs, &ts, p) {
                    Some(_items) => Some(ts.len()),
                    None => None,
                },
                None => None,
            },
            Rule::model_definition => match crate::parse_class::parse_class_def(&cs, &ts, 0) {
                Some((_c, q)) => Some(q),
                None => None,
            },
            Rule::expression => match crate::parse_expr::parse_expr(&ts, 0) {
                Some((_e, q)) => Some(q),
                None => None,
            },
        };
        match end {
            Some(q) => Ok(Pairs { first: Some(Pair { rule, src: cs, toks: ts, start: 0, end: q }) }),
            None => Err(ParseError::Syntax),
        }
    }
}

/// Whether the token spans lie in order inside the source.
fn spans_check(cs: &Vec<char>, ts: &Vec<Token>) -> (r: bool)
    ensures
        r == spans_ok(cs@, toks_view(ts@)),
{
    let ghost tv = toks_view(ts@);
    let n = ts.len();
    let mut k: usize = 0;
    while k < n
        invariant
            n == ts@.len(),
            tv == toks_view(ts@),
            tv.len() == n,
            k <= n,
            forall|i: int| #![trigger tv[i]] 0 <= i < k ==> 0 <= tv[i].start && tv[i].start <= tv[i].end && tv[i].end <= cs@.len(),
            forall|a: int, b: int| #![trigger tv[a], tv[b]] 0 <= a < b < k ==> tv[a].end <= tv[b].start,
        decreases n - k,
    {
        let t = &ts[k];
        if !(t.start <= t.end && t.end <= cs.len()) {
            assert(!(0 <= tv[k as int].start <= tv[k as int].end <= cs@.len()));
            assert(!spans_ok(cs@, tv)) by {
                if spans_ok(cs@, tv) {
                    assert(0 <= tv[k as int].start <= tv[k as int].end <= cs@.len());
                }
            }
            return false;
        }
        if k > 0 && ts[k - 1].end > t.start {
            assert(!(tv[k - 1].end <= tv[k as int].start));
            assert(!spans_ok(cs@, tv)) by {
                if spans_ok(cs@, tv) {
                    assert(tv[k - 1].end <= tv[k as int].start);
                }
            }
            return false;
        }
        proof {
            assert forall|a: int, b: int| #![trigger tv[a], tv[b]] 0 <= a < b < k + 1 implies tv[a].end <= tv[b].start by {
                if b == k && a < k - 1 {
                    assert(tv[a].end <= tv[k - 1].start);
                    assert(tv[k - 1].start <= tv[k - 1].end);
                }
            }
        }
        k += 1;
    }
    assert(spans_ok(cs@, tv));
    true
}

/// Reads the class definition that a match of `model_definition` (or any
/// match) starts with.
pub fn parse_model(pair: Pair) -> (r: Result<ClassItem, ParseError>)
    ensures
        !spans_ok(pair.src@, toks_view(pair.toks@)) ==> r == Err::<ClassItem, ParseError>(ParseError::Syntax),
        spans_ok(pair.src@, toks_view(pair.toks@)) ==> match g_class(pair.src@, toks_view(pair.toks@), pair.start as int) {
            Some((c, _q)) => r matches Ok(x) && x@ == c,
            None => r == Err::<ClassItem, ParseError>(ParseError::Syntax),
        },
{
    if !spans_check(&pair.src, &pair.toks) || pair.start > pair.toks.len() {
        if pair.start > pair.toks.len() {
            proof {
                crate::parse_class::lemma_class_past_end(pair.src@, toks_view(pair.toks@), pair.start as int);
            }
        }
        return Err(ParseError::Syntax);
    }
    match crate::parse_class::parse_class_def(&pair.src, &pair.toks, pair.start) {
        Some((c, _q)) => Ok(c),
        None => Err(ParseError::Syntax),
    }
}

} // verus!
