//! Splitting Modelica source text into tokens: identifiers (plain and quoted),
//! numbers, string literals and operator symbols. White space, line comments
//! and block comments separate tokens and are dropped.

use vstd::prelude::*;
use crate::text::{is_digit, is_ws, is_ws_exec, string_of_range};

verus! {

/// The class of a token.
#[derive(Clone, Copy, Debug, PartialEq, Eq, Structural)]
pub enum TokKind {
    /// A plain identifier (keywords included) or a quoted identifier, quotes kept.
    Ident,
    /// A numeric literal, as written.
    Number,
    /// A string literal; the text is what stands between the quotes, escapes kept.
    Str,
    /// An operator or punctuation symbol.
    Sym,
}

/// A token with its text and its character span `[start, end)` in the source.
#[derive(Debug)]
pub struct Token {
    pub kind: TokKind,
    pub text: String,
    pub start: usize,
    pub end: usize,
}

/// Mathematical value of a [`Token`].
pub struct TokV {
    pub kind: TokKind,
    pub text: Seq<char>,
    pub start: int,
    pub end: int,
}

impl Token {
    pub open spec fn view(&self) -> TokV {
        TokV { kind: self.kind, text: self.text@, start: self.start as int, end: self.end as int }
    }
}

/// The views of a sequence of tokens.
pub open spec fn toks_view(s: Seq<Token>) -> Seq<TokV> {
    s.map_values(|t: Token| t@)
}

/// A character that may begin an identifier.
pub open spec fn is_letter(c: char) -> bool {
    ('a' <= c && c <= 'z') || ('A' <= c && c <= 'Z') || c == '_'
}

/// A character that may continue an identifier.
pub open spec fn is_ident_char(c: char) -> bool {
    is_letter(c) || is_digit(c)
}

/// The end of the run of identifier characters that starts at `i`.
pub open spec fn ident_end(cs: Seq<char>, i: int) -> int
    decreases cs.len() - i,
{
    if 0 <= i < cs.len() && is_ident_char(cs[i]) {
        ident_end(cs, i + 1)
    } else {
        i
    }
}

/// The end of the run of decimal digits that starts at `i`.
pub open spec fn digits_end(cs: Seq<char>, i: int) -> int
    decreases cs.len() - i,
{
    if 0 <= i < cs.len() && is_digit(cs[i]) {
        digits_end(cs, i + 1)
    } else {
        i
    }
}

/// The end of a numeric literal that starts at `i`: digits, then an optional
/// fraction (`.` and digits), then an optional exponent (`e` or `E`, an optional
/// sign, and at least one digit).
pub open spec fn number_end(cs: Seq<char>, i: int) -> int {
    let a = digits_end(cs, i);
    let b = if 0 <= a < cs.len() && cs[a] == '.' { digits_end(cs, a + 1) } else { a };
    if 0 <= b < cs.len() && (cs[b] == 'e' || cs[b] == 'E') {
        let c = if b + 1 < cs.len() && (cs[b + 1] == '+' || cs[b + 1] == '-') { b + 2 } else { b + 1 };
        if c < cs.len() && is_digit(cs[c]) {
            digits_end(cs, c)
        } else {
            b
        }
    } else {
        b
    }
}

/// The index of the quote `q` that closes a literal whose body starts at `i`;
/// a backslash escapes the character after it.
pub open spec fn closing_quote(cs: Seq<char>, i: int, q: char) -> Option<int>
    decreases cs.len() - i,
{
    if i < 0 || i >= cs.len() {
        None
    } else if cs[i] == q {
        Some(i)
    } else if cs[i] == '\\' {
        if i + 1 < cs.len() {
            closing_quote(cs, i + 2, q)
        } else {
            None
        }
    } else {
        closing_quote(cs, i + 1, q)
    }
}

/// The index of the first line feed at or after `i`, or the length.
pub open spec fn line_end(cs: Seq<char>, i: int) -> int
    decreases cs.len() - i,
{
    if 0 <= i < cs.len() && cs[i] != '\n' {
        line_end(cs, i + 1)
    } else {
        i
    }
}

/// The index just after the first `*/` at or after `i`.
pub open spec fn block_end(cs: Seq<char>, i: int) -> Option<int>
    decreases cs.len() - i,
{
    if i < 0 || i + 1 >= cs.len() {
        None
    } else if cs[i] == '*' && cs[i + 1] == '/' {
        Some(i + 2)
    } else {
        block_end(cs, i + 1)
    }
}

pub proof fn lemma_ident_end(cs: Seq<char>, i: int)
    requires
        0 <= i <= cs.len(),
    ensures
        i <= ident_end(cs, i) <= cs.len(),
    decreases cs.len() - i,
{
    if i < cs.len() && is_ident_char(cs[i]) {
        lemma_ident_end(cs, i + 1);
    }
}

pub proof fn lemma_digits_end(cs: Seq<char>, i: int)
    requires
        0 <= i <= cs.len(),
    ensures
        i <= digits_end(cs, i) <= cs.len(),
    decreases cs.len() - i,
{
    if i < cs.len() && is_digit(cs[i]) {
        lemma_digits_end(cs, i + 1);
    }
}

pub proof fn lemma_number_end(cs: Seq<char>, i: int)
    requires
        0 <= i < cs.len(),
        is_digit(cs[i]) || (cs[i] == '.' && i + 1 < cs.len() && is_digit(cs[i + 1])),
    ensures
        i < number_end(cs, i) <= cs.len(),
{
    lemma_digits_end(cs, i);
    let a = digits_end(cs, i);
    let b = if 0 <= a < cs.len() && cs[a] == '.' { digits_end(cs, a + 1) } else { a };
    if 0 <= a < cs.len() && cs[a] == '.' {
        lemma_digits_end(cs, a + 1);
        if a == i {
            lemma_digits_end(cs, a + 2);
            assert(digits_end(cs, a + 1) == digits_end(cs, a + 2));
        }
        assert(b > i);
    } else {
        if a == i {
            assert(digits_end(cs, i) == digits_end(cs, i + 1));
            lemma_digits_end(cs, i + 1);
        }
        assert(b > i);
    }
    if 0 <= b < cs.len() && (cs[b] == 'e' || cs[b] == 'E') {
        let c = if b + 1 < cs.len() && (cs[b + 1] == '+' || cs[b + 1] == '-') { b + 2 } else { b + 1 };
        if c < cs.len() && is_digit(cs[c]) {
            lemma_digits_end(cs, c);
        }
    }
}

pub proof fn lemma_closing_quote(cs: Seq<char>, i: int, q: char)
    ensures
        closing_quote(cs, i, q) matches Some(k) ==> i <= k < cs.len() && cs[k] == q,
    decreases cs.len() - i,
{
    if 0 <= i < cs.len() && cs[i] != q {
        if cs[i] == '\\' {
            if i + 1 < cs.len() {
                lemma_closing_quote(cs, i + 2, q);
            }
        } else {
            lemma_closing_quote(cs, i + 1, q);
        }
    }
}

pub proof fn lemma_line_end(cs: Seq<char>, i: int)
    requires
        0 <= i <= cs.len(),
    ensures
        i <= line_end(cs, i) <= cs.len(),
    decreases cs.len() - i,
{
    if i < cs.len() && cs[i] != '\n' {
        lemma_line_end(cs, i + 1);
    }
}

pub proof fn lemma_block_end(cs: Seq<char>, i: int)
    ensures
        block_end(cs, i) matches Some(k) ==> i + 2 <= k <= cs.len(),
    decreases cs.len() - i,
{
    if 0 <= i && i + 1 < cs.len() && !(cs[i] == '*' && cs[i + 1] == '/') {
        lemma_block_end(cs, i + 1);
    }
}

/// Skipping white space and comments from `i`: the position of the next token,
/// or `Err` at the start of a block comment that is never closed.
pub open spec fn skip_trivia(cs: Seq<char>, i: int) -> Result<int, int>
    decreases cs.len() - i,
{
    if i < 0 || i >= cs.len() {
        Ok(i)
    } else if is_ws(cs[i]) {
        skip_trivia(cs, i + 1)
    } else if cs[i] == '/' && i + 1 < cs.len() && cs[i + 1] == '/' {
        proof {
            lemma_line_end(cs, i + 2);
        }
        skip_trivia(cs, line_end(cs, i + 2))
    } else if cs[i] == '/' && i + 1 < cs.len() && cs[i + 1] == '*' {
        match block_end(cs, i + 2) {
            Some(k) => {
                proof {
                    lemma_block_end(cs, i + 2);
                }
                skip_trivia(cs, k)
            },
            None => Err(i),
        }
    } else {
        Ok(i)
    }
}

pub proof fn lemma_skip_trivia(cs: Seq<char>, i: int)
    requires
        0 <= i <= cs.len(),
    ensures
        skip_trivia(cs, i) matches Ok(j) ==> i <= j <= cs.len(),
    decreases cs.len() - i,
{
    if i < cs.len() {
        if is_ws(cs[i]) {
            lemma_skip_trivia(cs, i + 1);
        } else if cs[i] == '/' && i + 1 < cs.len() && cs[i + 1] == '/' {
            lemma_line_end(cs, i + 2);
            lemma_skip_trivia(cs, line_end(cs, i + 2));
        } else if cs[i] == '/' && i + 1 < cs.len() && cs[i + 1] == '*' {
            lemma_block_end(cs, i + 2);
            if let Some(k) = block_end(cs, i + 2) {
                lemma_skip_trivia(cs, k);
            }
        }
    }
}

/// Whether the two characters at `j` form a two-character symbol.
pub open spec fn is_sym2(a: char, b: char) -> bool {
    (a == ':' && b == '=') || (a == '<' && b == '=') || (a == '>' && b == '=') || (a == '=' && b == '=')
        || (a == '<' && b == '>') || (a == '.' && (b == '*' || b == '/' || b == '^' || b == '+' || b == '-'))
}

/// Whether `c` is a one-character symbol.
pub open spec fn is_sym1(c: char) -> bool {
    c == '(' || c == ')' || c == '[' || c == ']' || c == '{' || c == '}' || c == ',' || c == ';'
        || c == ':' || c == '=' || c == '.' || c == '+' || c == '-' || c == '*' || c == '/'
        || c == '^' || c == '<' || c == '>'
}

/// The length of the symbol at `j`: two characters where they form one, else one
/// where the character is a symbol, else zero.
pub open spec fn sym_len(cs: Seq<char>, j: int) -> int {
    if 0 <= j && j + 1 < cs.len() && is_sym2(cs[j], cs[j + 1]) {
        2
    } else if 0 <= j < cs.len() && is_sym1(cs[j]) {
        1
    } else {
        0
    }
}

/// The token that starts at `j`, if one does.
pub open spec fn next_token(cs: Seq<char>, j: int) -> Option<TokV> {
    if j < 0 || j >= cs.len() {
        None
    } else if is_letter(cs[j]) {
        let e = ident_end(cs, j + 1);
        Some(TokV { kind: TokKind::Ident, text: cs.subrange(j, e), start: j, end: e })
    } else if cs[j] == '\'' {
        match closing_quote(cs, j + 1, '\'') {
            Some(k) => Some(TokV { kind: TokKind::Ident, text: cs.subrange(j, k + 1), start: j, end: k + 1 }),
            None => None,
        }
    } else if is_digit(cs[j]) || (cs[j] == '.' && j + 1 < cs.len() && is_digit(cs[j + 1])) {
        let e = number_end(cs, j);
        Some(TokV { kind: TokKind::Number, text: cs.subrange(j, e), start: j, end: e })
    } else if cs[j] == '"' {
        match closing_quote(cs, j + 1, '"') {
            Some(k) => Some(TokV { kind: TokKind::Str, text: cs.subrange(j + 1, k), start: j, end: k + 1 }),
            None => None,
        }
    } else if sym_len(cs, j) > 0 {
        Some(TokV { kind: TokKind::Sym, text: cs.subrange(j, j + sym_len(cs, j)), start: j, end: j + sym_len(cs, j) })
    } else {
        None
    }
}

pub proof fn lemma_next_token(cs: Seq<char>, j: int)
    requires
        0 <= j < cs.len(),
    ensures
        next_token(cs, j) matches Some(t) ==> t.start == j && j < t.end <= cs.len(),
{
    if is_letter(cs[j]) {
        lemma_ident_end(cs, j + 1);
    } else if cs[j] == '\'' {
        lemma_closing_quote(cs, j + 1, '\'');
    } else if is_digit(cs[j]) || (cs[j] == '.' && j + 1 < cs.len() && is_digit(cs[j + 1])) {
        lemma_number_end(cs, j);
    } else if cs[j] == '"' {
        lemma_closing_quote(cs, j + 1, '"');
    }
}

/// The tokens of `cs` from position `i` on, or the position where no token can
/// begin (or where an unclosed block comment begins).
pub open spec fn lex_from(cs: Seq<char>, i: int) -> Result<Seq<TokV>, int>
    decreases cs.len() - i,
{
    if i < 0 || i > cs.len() {
        Err(i)
    } else {
        match skip_trivia(cs, i) {
            Err(p) => Err(p),
            Ok(j) => {
                if j >= cs.len() {
                    Ok(Seq::empty())
                } else {
                    match next_token(cs, j) {
                        None => Err(j),
                        Some(t) => {
                            proof {
                                lemma_skip_trivia(cs, i);
                                lemma_next_token(cs, j);
                            }
                            match lex_from(cs, t.end) {
                                Ok(rest) => Ok(seq![t] + rest),
                                Err(p) => Err(p),
                            }
                        },
                    }
                }
            },
        }
    }
}

/// The tokens of a whole source text.
pub open spec fn lex(cs: Seq<char>) -> Result<Seq<TokV>, int> {
    lex_from(cs, 0)
}

/// Prefixing a result of [`lex_from`] with tokens already read.
pub open spec fn prefixed(acc: Seq<TokV>, r: Result<Seq<TokV>, int>) -> Result<Seq<TokV>, int> {
    match r {
        Ok(rest) => Ok(acc + rest),
        Err(p) => Err(p),
    }
}

fn ident_end_exec(cs: &Vec<char>, i: usize) -> (r: usize)
    requires
        i <= cs@.len(),
    ensures
        r == ident_end(cs@, i as int),
{
    let mut k = i;
    while k < cs.len() && (is_letter_exec(cs[k]) || is_digit_exec(cs[k]))
        invariant
            i <= k <= cs@.len(),
            ident_end(cs@, k as int) == ident_end(cs@, i as int),
        decreases cs@.len() - k,
    {
        k += 1;
    }
    k
}

fn digits_end_exec(cs: &Vec<char>, i: usize) -> (r: usize)
    requires
        i <= cs@.len(),
    ensures
        r == digits_end(cs@, i as int),
{
    let mut k = i;
    while k < cs.len() && is_digit_exec(cs[k])
        invariant
            i <= k <= cs@.len(),
            digits_end(cs@, k as int) == digits_end(cs@, i as int),
        decreases cs@.len() - k,
    {
        k += 1;
    }
    k
}

fn is_letter_exec(c: char) -> (r: bool)
    ensures
        r == is_letter(c),
{
    ('a' <= c && c <= 'z') || ('A' <= c && c <= 'Z') || c == '_'
}

fn is_digit_exec(c: char) -> (r: bool)
    ensures
        r == is_digit(c),
{
    '0' <= c && c <= '9'
}

fn number_end_exec(cs: &Vec<char>, i: usize) -> (r: usize)
    requires
        i <= cs@.len(),
    ensures
        r == number_end(cs@, i as int),
{
    proof {
        lemma_digits_end(cs@, i as int);
    }
    let a = digits_end_exec(cs, i);
    let b = if a < cs.len() && cs[a] == '.' {
        proof {
            lemma_digits_end(cs@, a + 1);
        }
        digits_end_exec(cs, a + 1)
    } else {
        a
    };
    if b < cs.len() && (cs[b] == 'e' || cs[b] == 'E') {
        let c = if b + 1 < cs.len() && (cs[b + 1] == '+' || cs[b + 1] == '-') { b + 2 } else { b + 1 };
        if c < cs.len() && is_digit_exec(cs[c]) {
            digits_end_exec(cs, c)
        } else {
            b
        }
    } else {
        b
    }
}

fn closing_quote_exec(cs: &Vec<char>, i: usize, q: char) -> (r: Option<usize>)
    requires
        i <= cs@.len(),
    ensures
        match r {
            Some(k) => closing_quote(cs@, i as int, q) == Some(k as int),
            None => closing_quote(cs@, i as int, q) is None,
        },
{
    let mut k = i;
    while k < cs.len()
        invariant
            i <= k <= cs@.len(),
            closing_quote(cs@, k as int, q) == closing_quote(cs@, i as int, q),
        decreases cs@.len() - k,
    {
        if cs[k] == q {
            return Some(k);
        } else if cs[k] == '\\' {
            if k + 1 < cs.len() {
                k = k + 2;
            } else {
                return None;
            }
        } else {
            k = k + 1;
        }
    }
    None
}

pub fn line_end_exec(cs: &Vec<char>, i: usize) -> (r: usize)
    requires
        i <= cs@.len(),
    ensures
        r == line_end(cs@, i as int),
{
    let mut k = i;
    while k < cs.len() && cs[k] != '\n'
        invariant
            i <= k <= cs@.len(),
            line_end(cs@, k as int) == line_end(cs@, i as int),
        decreases cs@.len() - k,
    {
        k += 1;
    }
    k
}

fn block_end_exec(cs: &Vec<char>, i: usize) -> (r: Option<usize>)
    requires
        i <= cs@.len(),
    ensures
        match r {
            Some(k) => block_end(cs@, i as int) == Some(k as int),
            None => block_end(cs@, i as int) is None,
        },
{
    let n = cs.len();
    let mut k = i;
    while k < n && k + 1 < n
        invariant
            i <= k <= cs@.len(),
            n == cs@.len(),
            block_end(cs@, k as int) == block_end(cs@, i as int),
        decreases cs@.len() - k,
    {
        if cs[k] == '*' && cs[k + 1] == '/' {
            return Some(k + 2);
        }
        k += 1;
    }
    None
}

fn skip_trivia_exec(cs: &Vec<char>, i: usize) -> (r: Result<usize, usize>)
    requires
        i <= cs@.len(),
    ensures
        match r {
            Ok(j) => skip_trivia(cs@, i as int) == Ok::<int, int>(j as int),
            Err(p) => skip_trivia(cs@, i as int) == Err::<int, int>(p as int),
        },
{
    let mut k = i;
    while k < cs.len()
        invariant
            i <= k <= cs@.len(),
            skip_trivia(cs@, k as int) == skip_trivia(cs@, i as int),
        decreases cs@.len() - k,
    {
        if is_ws_exec(cs[k]) {
            k += 1;
        } else if cs[k] == '/' && k + 1 < cs.len() && cs[k + 1] == '/' {
            proof {
                lemma_line_end(cs@, k + 2);
            }
            k = line_end_exec(cs, k + 2);
        } else if cs[k] == '/' && k + 1 < cs.len() && cs[k + 1] == '*' {
            proof {
                lemma_block_end(cs@, k + 2);
            }
            match block_end_exec(cs, k + 2) {
                Some(e) => {
                    k = e;
                },
                None => {
                    return Err(k);
                },
            }
        } else {
            return Ok(k);
        }
    }
    Ok(k)
}

fn sym_len_exec(cs: &Vec<char>, j: usize) -> (r: usize)
    requires
        j < cs@.len(),
    ensures
        r == sym_len(cs@, j as int),
{
    let n = cs.len();
    if j + 1 < n {
        let a = cs[j];
        let b = cs[j + 1];
        if (a == ':' && b == '=') || (a == '<' && b == '=') || (a == '>' && b == '=') || (a == '=' && b == '=')
            || (a == '<' && b == '>') || (a == '.' && (b == '*' || b == '/' || b == '^' || b == '+' || b == '-'))
        {
            return 2;
        }
    }
    let c = cs[j];
    if c == '(' || c == ')' || c == '[' || c == ']' || c == '{' || c == '}' || c == ',' || c == ';'
        || c == ':' || c == '=' || c == '.' || c == '+' || c == '-' || c == '*' || c == '/'
        || c == '^' || c == '<' || c == '>'
    {
        1
    } else {
        0
    }
}

fn next_token_exec(cs: &Vec<char>, j: usize) -> (r: Option<Token>)
    requires
        j < cs@.len(),
    ensures
        match r {
            Some(t) => next_token(cs@, j as int) == Some(t@),
            None => next_token(cs@, j as int) is None,
        },
{
    let n = cs.len();
    let c = cs[j];
    if is_letter_exec(c) {
        proof {
            lemma_ident_end(cs@, j + 1);
        }
        let e = ident_end_exec(cs, j + 1);
        let text = string_of_range(cs, j, e);
        Some(Token { kind: TokKind::Ident, text, start: j, end: e })
    } else if c == '\'' {
        match closing_quote_exec(cs, j + 1, '\'') {
            Some(k) => {
                proof {
                    lemma_closing_quote(cs@, j + 1, '\'');
                }
                let text = string_of_range(cs, j, k + 1);
                Some(Token { kind: TokKind::Ident, text, start: j, end: k + 1 })
            },
            None => None,
        }
    } else if is_digit_exec(c) || (c == '.' && j + 1 < cs.len() && is_digit_exec(cs[j + 1])) {
        proof {
            lemma_number_end(cs@, j as int);
        }
        let e = number_end_exec(cs, j);
        let text = string_of_range(cs, j, e);
        Some(Token { kind: TokKind::Number, text, start: j, end: e })
    } else if c == '"' {
        match closing_quote_exec(cs, j + 1, '"') {
            Some(k) => {
                proof {
                    lemma_closing_quote(cs@, j + 1, '"');
                }
                let text = string_of_range(cs, j + 1, k);
                Some(Token { kind: TokKind::Str, text, start: j, end: k + 1 })
            },
            None => None,
        }
    } else {
        let n = sym_len_exec(cs, j);
        if n > 0 {
            let text = string_of_range(cs, j, j + n);
            Some(Token { kind: TokKind::Sym, text, start: j, end: j + n })
        } else {
            None
        }
    }
}

/// The tokens of the characters `cs`, or the position where lexing stops.
pub fn tokenize_chars(cs: &Vec<char>) -> (r: Result<Vec<Token>, usize>)
    ensures
        match r {
            Ok(v) => lex(cs@) == Ok::<Seq<TokV>, int>(toks_view(v@)),
            Err(p) => lex(cs@) == Err::<Seq<TokV>, int>(p as int),
        },
{
    let mut out: Vec<Token> = Vec::new();
    let mut i: usize = 0;
    assert(prefixed(Seq::empty(), lex_from(cs@, 0)) == lex_from(cs@, 0)) by {
        match lex_from(cs@, 0) {
            Ok(rest) => {
                assert(Seq::<TokV>::empty() + rest =~= rest);
            },
            Err(p) => {},
        }
    }
    while i < cs.len()
        invariant
            i <= cs@.len(),
            prefixed(toks_view(out@), lex_from(cs@, i as int)) == lex(cs@),
        decreases cs@.len() - i,
    {
        proof {
            lemma_skip_trivia(cs@, i as int);
        }
        match skip_trivia_exec(cs, i) {
            Err(p) => {
                return Err(p);
            },
            Ok(j) => {
                if j >= cs.len() {
                    assert(toks_view(out@) + Seq::<TokV>::empty() =~= toks_view(out@));
                    return Ok(out);
                }
                match next_token_exec(cs, j) {
                    None => {
                        return Err(j);
                    },
                    Some(t) => {
                        proof {
                            lemma_next_token(cs@, j as int);
                            let old_acc = toks_view(out@);
                            assert(toks_view(out@.push(t)) =~= old_acc.push(t@));
                            match lex_from(cs@, t.end as int) {
                                Ok(rest) => {
                                    assert(old_acc + (seq![t@] + rest) =~= old_acc.push(t@) + rest);
                                },
                                Err(p) => {},
                            }
                        }
                        i = t.end;
                        out.push(t);
                    },
                }
            },
        }
    }
    assert(toks_view(out@) + Seq::<TokV>::empty() =~= toks_view(out@));
    Ok(out)
}

} // verus!
