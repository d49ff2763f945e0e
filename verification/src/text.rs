//! Character-level helpers on names and literals: splitting, decimal digits,
//! prefixes and suffixes, each with a specification over `Seq<char>`.

use vstd::prelude::*;

verus! {

/// Appends one character to a string (`String::push`).
#[verifier::external_body]
pub fn push_char(s: &mut String, c: char)
    ensures
        final(s)@ == old(s)@.push(c),
{
    s.push(c);
}

/// The characters of a string, in order.
pub fn chars_of(s: &str) -> (v: Vec<char>)
    ensures
        v@ == s@,
{
    let n = s.unicode_len();
    let mut v: Vec<char> = Vec::new();
    let mut it = s.chars();
    broadcast use vstd::string::group_string_axioms;
    assert(vstd::std_specs::iter::IteratorSpec::remaining(&it) == s@);
    while v.len() < n
        invariant
            n == s@.len(),
            v@.len() <= n,
            v@ + vstd::std_specs::iter::IteratorSpec::remaining(&it) == s@,
            vstd::std_specs::iter::IteratorSpec::obeys_prophetic_iter_laws(&it),
        decreases n - v@.len(),
    {
        let ghost before = vstd::std_specs::iter::IteratorSpec::remaining(&it);
        assert(before.len() > 0) by {
            assert((v@ + before).len() == v@.len() + before.len());
        }
        let c = it.next();
        match c {
            Some(ch) => {
                v.push(ch);
                assert(v@ + vstd::std_specs::iter::IteratorSpec::remaining(&it) =~= s@) by {
                    assert(before =~= seq![ch] + before.drop_first());
                    assert(v@ =~= v@.drop_last().push(ch));
                }
            },
            None => {
                assert(false);
            },
        }
    }
    assert(v@.len() == n);
    assert(vstd::std_specs::iter::IteratorSpec::remaining(&it).len() == 0) by {
        assert((v@ + vstd::std_specs::iter::IteratorSpec::remaining(&it)).len() == v@.len() + vstd::std_specs::iter::IteratorSpec::remaining(&it).len());
    }
    assert(v@ =~= s@);
    v
}

/// A string holding the characters `v[from..to]`.
pub fn string_of_range(v: &Vec<char>, from: usize, to: usize) -> (s: String)
    requires
        from <= to <= v@.len(),
    ensures
        s@ == v@.subrange(from as int, to as int),
{
    let mut s = String::new();
    let mut i = from;
    while i < to
        invariant
            from <= i <= to <= v@.len(),
            s@ == v@.subrange(from as int, i as int),
        decreases to - i,
    {
        push_char(&mut s, v[i]);
        assert(s@ =~= v@.subrange(from as int, (i + 1) as int));
        i += 1;
    }
    s
}

/// A string holding all the characters of `v`.
pub fn string_of_chars(v: &Vec<char>) -> (s: String)
    ensures
        s@ == v@,
{
    let s = string_of_range(v, 0, v.len());
    assert(v@.subrange(0, v@.len() as int) =~= v@);
    s
}

/// `a` followed by `b`.
pub fn concat(a: &str, b: &str) -> (s: String)
    ensures
        s@ == a@ + b@,
{
    let mut s = a.to_owned();
    s.append(b);
    s
}

/// The largest index of `c` in `s`, or -1 when `c` does not occur.
pub open spec fn last_index_of(s: Seq<char>, c: char) -> int
    decreases s.len(),
{
    if s.len() == 0 {
        -1
    } else if s.last() == c {
        s.len() - 1
    } else {
        last_index_of(s.drop_last(), c)
    }
}

pub proof fn lemma_last_index_of(s: Seq<char>, c: char)
    ensures
        -1 <= last_index_of(s, c) < s.len(),
        last_index_of(s, c) >= 0 ==> s[last_index_of(s, c)] == c,
        forall|j: int| last_index_of(s, c) < j < s.len() ==> s[j] != c,
    decreases s.len(),
{
    if s.len() > 0 && s.last() != c {
        lemma_last_index_of(s.drop_last(), c);
        assert forall|j: int| last_index_of(s, c) < j < s.len() implies s[j] != c by {
            if j < s.len() - 1 {
                assert(s[j] == s.drop_last()[j]);
            }
        }
    }
}

/// Whether `c` occurs in `s`.
pub open spec fn has_char(s: Seq<char>, c: char) -> bool {
    exists|i: int| 0 <= i < s.len() && s[i] == c
}

/// `s` split at its last occurrence of `c` (the separator itself dropped), as `str::rsplit_once`.
pub open spec fn rsplit_once(s: Seq<char>, c: char) -> Option<(Seq<char>, Seq<char>)> {
    let k = last_index_of(s, c);
    if k < 0 {
        None
    } else {
        Some((s.take(k), s.skip(k + 1)))
    }
}

/// `s` split at its first occurrence of `c`, as `str::split_once`.
pub open spec fn split_once(s: Seq<char>, c: char) -> Option<(Seq<char>, Seq<char>)> {
    let k = first_index_of(s, c);
    if k < 0 {
        None
    } else {
        Some((s.take(k), s.skip(k + 1)))
    }
}

/// The smallest index of `c` in `s`, or -1 when `c` does not occur.
pub open spec fn first_index_of(s: Seq<char>, c: char) -> int
    decreases s.len(),
{
    if s.len() == 0 {
        -1
    } else if s[0] == c {
        0
    } else {
        let r = first_index_of(s.drop_first(), c);
        if r < 0 {
            -1
        } else {
            r + 1
        }
    }
}

pub proof fn lemma_first_index_of(s: Seq<char>, c: char)
    ensures
        -1 <= first_index_of(s, c) < s.len(),
        first_index_of(s, c) >= 0 ==> s[first_index_of(s, c)] == c,
        forall|j: int|
            0 <= j < s.len() && (first_index_of(s, c) < 0 || j < first_index_of(s, c)) ==> s[j] != c,
    decreases s.len(),
{
    if s.len() > 0 && s[0] != c {
        lemma_first_index_of(s.drop_first(), c);
        assert forall|j: int|
            0 <= j < s.len() && (first_index_of(s, c) < 0 || j < first_index_of(s, c)) implies s[j] != c by {
            if j > 0 {
                assert(s[j] == s.drop_first()[j - 1]);
            }
        }
    }
}

/// Index of the last `c` in `v`, or -1.
pub fn find_last(v: &Vec<char>, c: char) -> (k: Option<usize>)
    ensures
        match k {
            Some(k) => k as int == last_index_of(v@, c),
            None => last_index_of(v@, c) == -1,
        },
{
    proof {
        lemma_last_index_of(v@, c);
    }
    let mut i = v.len();
    while i > 0
        invariant
            i <= v@.len(),
            forall|j: int| i <= j < v@.len() ==> v@[j] != c,
        decreases i,
    {
        if v[i - 1] == c {
            proof {
                lemma_last_index_is(v@, c, i - 1);
            }
            return Some(i - 1);
        }
        i -= 1;
    }
    proof {
        lemma_last_index_none(v@, c);
    }
    None
}

pub proof fn lemma_last_index_is(s: Seq<char>, c: char, k: int)
    requires
        0 <= k < s.len(),
        s[k] == c,
        forall|j: int| k < j < s.len() ==> s[j] != c,
    ensures
        last_index_of(s, c) == k,
    decreases s.len(),
{
    if s.last() != c {
        lemma_last_index_is(s.drop_last(), c, k);
    }
}

pub proof fn lemma_last_index_none(s: Seq<char>, c: char)
    requires
        forall|j: int| 0 <= j < s.len() ==> s[j] != c,
    ensures
        last_index_of(s, c) == -1,
    decreases s.len(),
{
    if s.len() > 0 {
        lemma_last_index_none(s.drop_last(), c);
    }
}

/// Index of the first `c` in `v`, or -1.
pub fn find_first(v: &Vec<char>, c: char) -> (k: Option<usize>)
    ensures
        match k {
            Some(k) => k as int == first_index_of(v@, c),
            None => first_index_of(v@, c) == -1,
        },
{
    proof {
        lemma_first_index_of(v@, c);
    }
    let mut i: usize = 0;
    while i < v.len()
        invariant
            i <= v@.len(),
            forall|j: int| 0 <= j < i ==> v@[j] != c,
        decreases v@.len() - i,
    {
        if v[i] == c {
            proof {
                lemma_first_index_is(v@, c, i as int);
            }
            return Some(i);
        }
        i += 1;
    }
    proof {
        lemma_first_index_none(v@, c);
    }
    None
}

pub proof fn lemma_first_index_is(s: Seq<char>, c: char, k: int)
    requires
        0 <= k < s.len(),
        s[k] == c,
        forall|j: int| 0 <= j < k ==> s[j] != c,
    ensures
        first_index_of(s, c) == k,
    decreases s.len(),
{
    if s[0] != c {
        lemma_first_index_is(s.drop_first(), c, k - 1);
    }
}

pub proof fn lemma_first_index_none(s: Seq<char>, c: char)
    requires
        forall|j: int| 0 <= j < s.len() ==> s[j] != c,
    ensures
        first_index_of(s, c) == -1,
    decreases s.len(),
{
    if s.len() > 0 {
        lemma_first_index_none(s.drop_first(), c);
    }
}

/// Whether `c` is an ASCII decimal digit.
pub open spec fn is_digit(c: char) -> bool {
    '0' <= c && c <= '9'
}

/// The value of the decimal digits `s` (most significant first).
pub open spec fn digits_value(s: Seq<char>) -> nat
    decreases s.len(),
{
    if s.len() == 0 {
        0
    } else {
        digits_value(s.drop_last()) * 10 + ((s.last() as nat) - ('0' as nat)) as nat
    }
}

/// Whether every character of `s` is a decimal digit.
pub open spec fn all_digits(s: Seq<char>) -> bool {
    forall|i: int| 0 <= i < s.len() ==> is_digit(#[trigger] s[i])
}

/// What `str::parse::<usize>` gives for `s`: an optional `+` sign, then one or
/// more decimal digits whose value fits in `usize`.
pub open spec fn parse_usize(s: Seq<char>) -> Option<nat> {
    let d = if s.len() > 0 && s[0] == '+' {
        s.skip(1)
    } else {
        s
    };
    if d.len() > 0 && all_digits(d) && digits_value(d) <= usize::MAX {
        Some(digits_value(d))
    } else {
        None
    }
}

/// `str::parse::<usize>` on the characters `v[from..to]`.
pub fn parse_usize_range(v: &Vec<char>, from: usize, to: usize) -> (r: Option<usize>)
    requires
        from <= to <= v@.len(),
    ensures
        match r {
            Some(n) => parse_usize(v@.subrange(from as int, to as int)) == Some(n as nat),
            None => parse_usize(v@.subrange(from as int, to as int)) is None,
        },
{
    let ghost s = v@.subrange(from as int, to as int);
    let mut start = from;
    if from < to && v[from] == '+' {
        start = from + 1;
    }
    let ghost d = v@.subrange(start as int, to as int);
    assert(d =~= (if s.len() > 0 && s[0] == '+' { s.skip(1) } else { s }));
    if start == to {
        return None;
    }
    let mut acc: usize = 0;
    let mut i = start;
    while i < to
        invariant
            start <= i <= to <= v@.len(),
            start < to,
            s == v@.subrange(from as int, to as int),
            d == v@.subrange(start as int, to as int),
            d =~= (if s.len() > 0 && s[0] == '+' { s.skip(1) } else { s }),
            all_digits(v@.subrange(start as int, i as int)),
            acc as nat == digits_value(v@.subrange(start as int, i as int)),
        decreases to - i,
    {
        let c = v[i];
        let ghost pre = v@.subrange(start as int, i as int);
        let ghost nxt = v@.subrange(start as int, (i + 1) as int);
        assert(nxt.drop_last() =~= pre);
        assert(nxt.last() == c);
        if !('0' <= c && c <= '9') {
            assert(!all_digits(d)) by {
                assert(d[i - start] == c);
            }
            return None;
        }
        let dv = (c as u32 - '0' as u32) as usize;
        if acc > (usize::MAX - dv) / 10 {
            proof {
                assert(acc * 10 + dv > usize::MAX) by (nonlinear_arith)
                    requires
                        acc > (usize::MAX - dv) / 10,
                        dv <= 9,
                ;
                assert(digits_value(nxt) == acc * 10 + dv);
                assert(d.take((i + 1 - start) as int) =~= nxt);
                if all_digits(d) {
                    lemma_digits_value_prefix_mono(d, (i + 1 - start) as int);
                }
            }
            return None;
        }
        acc = acc * 10 + dv;
        i += 1;
    }
    assert(v@.subrange(start as int, i as int) =~= d);
    Some(acc)
}

pub proof fn lemma_digits_value_prefix_mono(s: Seq<char>, k: int)
    requires
        0 <= k <= s.len(),
        all_digits(s),
    ensures
        digits_value(s.take(k)) <= digits_value(s),
    decreases s.len(),
{
    if k < s.len() {
        assert(s.drop_last().take(k) =~= s.take(k));
        assert(all_digits(s.drop_last())) by {
            assert forall|i: int| 0 <= i < s.drop_last().len() implies is_digit(#[trigger] s.drop_last()[i]) by {
                assert(s.drop_last()[i] == s[i]);
            }
        }
        lemma_digits_value_prefix_mono(s.drop_last(), k);
    } else {
        assert(s.take(k) =~= s);
    }
}

/// The decimal digits of `n`, most significant first, without leading zeros ("0" for zero).
pub open spec fn decimal(n: nat) -> Seq<char>
    decreases n,
{
    if n < 10 {
        seq![digit_char(n)]
    } else {
        decimal(n / 10).push(digit_char(n % 10))
    }
}

/// The character of the decimal digit `d`.
pub open spec fn digit_char(d: nat) -> char {
    if d == 0 { '0' }
    else if d == 1 { '1' }
    else if d == 2 { '2' }
    else if d == 3 { '3' }
    else if d == 4 { '4' }
    else if d == 5 { '5' }
    else if d == 6 { '6' }
    else if d == 7 { '7' }
    else if d == 8 { '8' }
    else { '9' }
}

/// The decimal text of an integer, with a leading '-' when it is negative (as `format!("{}", i)`).
pub open spec fn int_decimal(i: int) -> Seq<char> {
    if i < 0 {
        seq!['-'] + decimal((-i) as nat)
    } else {
        decimal(i as nat)
    }
}

/// The decimal text of `n`.
pub fn usize_to_string(n: usize) -> (s: String)
    ensures
        s@ == decimal(n as nat),
{
    let mut digits: Vec<char> = Vec::new();
    let mut m = n;
    let ghost mut rest: Seq<char> = Seq::empty();
    // digits holds the low decimal digits in reverse
    assert(rev(digits@) =~= Seq::<char>::empty());
    assert(decimal(n as nat) =~= decimal(n as nat) + rev(digits@));
    while m >= 10
        invariant
            decimal(n as nat) == decimal(m as nat) + rev(digits@),
            m <= n,
        decreases m,
    {
        let d = m % 10;
        let c = char_of_digit(d);
        proof {
            assert(decimal(m as nat) == decimal((m / 10) as nat).push(digit_char((m % 10) as nat)));
            assert(rev(digits@.push(c)) =~= seq![c] + rev(digits@)) by {
                lemma_rev_push(digits@, c);
            }
            assert(decimal((m / 10) as nat).push(c) + rev(digits@) =~= decimal((m / 10) as nat) + (seq![c] + rev(digits@)));
        }
        digits.push(c);
        m = m / 10;
    }
    assert(digits@.take(digits@.len() as int) =~= digits@);
    let first = char_of_digit(m);
    let mut s = String::new();
    push_char(&mut s, first);
    assert(s@ == decimal(m as nat));
    let mut i = digits.len();
    while i > 0
        invariant
            i <= digits@.len(),
            s@ + rev(digits@.take(i as int)) == decimal(n as nat),
        decreases i,
    {
        let ghost before = s@;
        push_char(&mut s, digits[i - 1]);
        proof {
            let t = digits@.take(i as int);
            assert(t =~= digits@.take((i - 1) as int).push(digits@[i - 1]));
            lemma_rev_push(digits@.take((i - 1) as int), digits@[i - 1]);
            assert(before.push(digits@[i - 1]) + rev(digits@.take((i - 1) as int)) =~= before + rev(t));
        }
        i -= 1;
    }
    assert(rev(digits@.take(0)) =~= Seq::<char>::empty());
    assert(s@ + Seq::<char>::empty() =~= s@);
    s
}

/// The character of the decimal digit `d`.
pub fn char_of_digit(d: usize) -> (c: char)
    requires
        d < 10,
    ensures
        c == digit_char(d as nat),
{
    if d == 0 { '0' }
    else if d == 1 { '1' }
    else if d == 2 { '2' }
    else if d == 3 { '3' }
    else if d == 4 { '4' }
    else if d == 5 { '5' }
    else if d == 6 { '6' }
    else if d == 7 { '7' }
    else if d == 8 { '8' }
    else { '9' }
}

/// `s` reversed.
pub open spec fn rev(s: Seq<char>) -> Seq<char>
    decreases s.len(),
{
    if s.len() == 0 {
        s
    } else {
        seq![s.last()] + rev(s.drop_last())
    }
}

pub proof fn lemma_rev_push(s: Seq<char>, c: char)
    ensures
        rev(s.push(c)) == seq![c] + rev(s),
{
    assert(s.push(c).drop_last() =~= s);
}

} // verus!

verus! {

/// Whether two character sequences are equal.
pub fn chars_eq(a: &Vec<char>, b: &Vec<char>) -> (r: bool)
    ensures
        r == (a@ == b@),
{
    if a.len() != b.len() {
        return false;
    }
    let mut i: usize = 0;
    while i < a.len()
        invariant
            a@.len() == b@.len(),
            i <= a@.len(),
            forall|j: int| 0 <= j < i ==> a@[j] == b@[j],
        decreases a@.len() - i,
    {
        if a[i] != b[i] {
            return false;
        }
        i += 1;
    }
    assert(a@ =~= b@);
    true
}

/// Whether two strings hold the same characters.
pub fn str_eq(a: &str, b: &str) -> (r: bool)
    ensures
        r == (a@ == b@),
{
    let va = chars_of(a);
    let vb = chars_of(b);
    chars_eq(&va, &vb)
}

/// The views of a sequence of strings.
pub open spec fn strings_view(s: Seq<String>) -> Seq<Seq<char>> {
    s.map_values(|x: String| x@)
}

/// Whether two vectors of strings hold the same strings, in order.
pub fn strings_eq(a: &Vec<String>, b: &Vec<String>) -> (r: bool)
    ensures
        r == (strings_view(a@) == strings_view(b@)),
{
    if a.len() != b.len() {
        proof {
            assert(strings_view(a@).len() != strings_view(b@).len());
        }
        return false;
    }
    let mut i: usize = 0;
    while i < a.len()
        invariant
            a@.len() == b@.len(),
            i <= a@.len(),
            forall|j: int| 0 <= j < i ==> a@[j]@ == b@[j]@,
        decreases a@.len() - i,
    {
        if !(a[i] == b[i]) {
            proof {
                assert(strings_view(a@)[i as int] != strings_view(b@)[i as int]);
            }
            return false;
        }
        i += 1;
    }
    assert(strings_view(a@) =~= strings_view(b@));
    true
}

/// The decimal text of `i`, with a '-' when it is negative.
pub fn i64_to_string(i: i64) -> (s: String)
    ensures
        s@ == int_decimal(i as int),
{
    if i < 0 {
        let m: u64 = if i == i64::MIN {
            9223372036854775808u64
        } else {
            (-i) as u64
        };
        let d = u64_to_string(m);
        let mut s = String::new();
        push_char(&mut s, '-');
        s.append(d.as_str());
        assert(s@ =~= seq!['-'] + decimal((-(i as int)) as nat));
        s
    } else {
        u64_to_string(i as u64)
    }
}

/// The decimal text of `n`.
pub fn u64_to_string(n: u64) -> (s: String)
    ensures
        s@ == decimal(n as nat),
{
    let mut digits: Vec<char> = Vec::new();
    let mut m = n;
    assert(rev(digits@) =~= Seq::<char>::empty());
    assert(decimal(n as nat) =~= decimal(n as nat) + rev(digits@));
    while m >= 10
        invariant
            decimal(n as nat) == decimal(m as nat) + rev(digits@),
            m <= n,
        decreases m,
    {
        let d = (m % 10) as usize;
        let c = char_of_digit(d);
        proof {
            assert(decimal(m as nat) == decimal((m / 10) as nat).push(digit_char((m % 10) as nat)));
            lemma_rev_push(digits@, c);
            assert(decimal((m / 10) as nat).push(c) + rev(digits@) =~= decimal((m / 10) as nat) + (seq![c] + rev(digits@)));
        }
        digits.push(c);
        m = m / 10;
    }
    assert(digits@.take(digits@.len() as int) =~= digits@);
    let first = char_of_digit(m as usize);
    let mut s = String::new();
    push_char(&mut s, first);
    assert(s@ =~= decimal(m as nat));
    let mut i = digits.len();
    while i > 0
        invariant
            i <= digits@.len(),
            s@ + rev(digits@.take(i as int)) == decimal(n as nat),
        decreases i,
    {
        let ghost before = s@;
        push_char(&mut s, digits[i - 1]);
        proof {
            let t = digits@.take(i as int);
            assert(t =~= digits@.take((i - 1) as int).push(digits@[i - 1]));
            lemma_rev_push(digits@.take((i - 1) as int), digits@[i - 1]);
            assert(before.push(digits@[i - 1]) + rev(digits@.take((i - 1) as int)) =~= before + rev(t));
        }
        i -= 1;
    }
    assert(rev(digits@.take(0)) =~= Seq::<char>::empty());
    assert(s@ + Seq::<char>::empty() =~= s@);
    s
}

/// What an integer parse gives for `s`: an optional sign, then one or more
/// decimal digits whose value fits in `i64`.
pub open spec fn parse_i64(s: Seq<char>) -> Option<int> {
    let neg = s.len() > 0 && s[0] == '-';
    let d = if s.len() > 0 && (s[0] == '+' || s[0] == '-') {
        s.skip(1)
    } else {
        s
    };
    if d.len() > 0 && all_digits(d) {
        let v: int = if neg {
            -(digits_value(d) as int)
        } else {
            digits_value(d) as int
        };
        if i64::MIN <= v <= i64::MAX {
            Some(v)
        } else {
            None
        }
    } else {
        None
    }
}

/// Integer parse of the characters `v[from..to]`.
pub fn parse_i64_range(v: &Vec<char>, from: usize, to: usize) -> (r: Option<i64>)
    requires
        from <= to <= v@.len(),
    ensures
        match r {
            Some(n) => parse_i64(v@.subrange(from as int, to as int)) == Some(n as int),
            None => parse_i64(v@.subrange(from as int, to as int)) is None,
        },
{
    let ghost s = v@.subrange(from as int, to as int);
    let mut start = from;
    let mut neg = false;
    if from < to && (v[from] == '+' || v[from] == '-') {
        neg = v[from] == '-';
        start = from + 1;
    }
    let ghost d = v@.subrange(start as int, to as int);
    assert(d =~= (if s.len() > 0 && (s[0] == '+' || s[0] == '-') { s.skip(1) } else { s }));
    if start == to {
        return None;
    }
    let mut acc: u64 = 0;
    let mut i = start;
    let limit: u64 = if neg { 9223372036854775808u64 } else { 9223372036854775807u64 };
    while i < to
        invariant
            start <= i <= to <= v@.len(),
            start < to,
            s == v@.subrange(from as int, to as int),
            d == v@.subrange(start as int, to as int),
            d =~= (if s.len() > 0 && (s[0] == '+' || s[0] == '-') { s.skip(1) } else { s }),
            neg == (s.len() > 0 && s[0] == '-'),
            limit == (if neg { 9223372036854775808u64 } else { 9223372036854775807u64 }),
            all_digits(v@.subrange(start as int, i as int)),
            acc as nat == digits_value(v@.subrange(start as int, i as int)),
            acc <= limit,
        decreases to - i,
    {
        let c = v[i];
        let ghost pre = v@.subrange(start as int, i as int);
        let ghost nxt = v@.subrange(start as int, (i + 1) as int);
        assert(nxt.drop_last() =~= pre);
        assert(nxt.last() == c);
        if !('0' <= c && c <= '9') {
            assert(!all_digits(d)) by {
                assert(d[i - start] == c);
            }
            return None;
        }
        let dv = (c as u32 - '0' as u32) as u64;
        if acc > (limit - dv) / 10 {
            proof {
                assert(acc * 10 + dv > limit) by (nonlinear_arith)
                    requires
                        acc > (limit - dv) / 10,
                        dv <= 9,
                ;
                assert(digits_value(nxt) == acc * 10 + dv);
                assert(d.take((i + 1 - start) as int) =~= nxt);
                if all_digits(d) {
                    lemma_digits_value_prefix_mono(d, (i + 1 - start) as int);
                }
            }
            return None;
        }
        acc = acc * 10 + dv;
        i += 1;
    }
    assert(v@.subrange(start as int, i as int) =~= d);
    if neg {
        if acc == 9223372036854775808u64 {
            Some(i64::MIN)
        } else {
            Some(-(acc as i64))
        }
    } else {
        Some(acc as i64)
    }
}

} // verus!

verus! {

pub proof fn lemma_decimal(n: nat)
    ensures
        decimal(n).len() > 0,
        all_digits(decimal(n)),
        digits_value(decimal(n)) == n,
        !has_char(decimal(n), '_'),
    decreases n,
{
    if n >= 10 {
        lemma_decimal(n / 10);
        let d = decimal(n / 10);
        let s = d.push(digit_char(n % 10));
        assert(s.drop_last() =~= d);
        assert((digit_char(n % 10) as nat) - ('0' as nat) == n % 10);
        assert(digits_value(s) == digits_value(d) * 10 + n % 10);
        assert(digits_value(s) == n);
        assert forall|i: int| 0 <= i < s.len() implies is_digit(#[trigger] s[i]) by {
            if i < d.len() {
                assert(s[i] == d[i]);
            }
        }
        assert(!has_char(s, '_')) by {
            if has_char(s, '_') {
                let i = choose|i: int| 0 <= i < s.len() && s[i] == '_';
                if i < d.len() {
                    assert(s[i] == d[i]);
                }
            }
        }
    } else {
        let s = seq![digit_char(n)];
        assert(s.drop_last() =~= Seq::<char>::empty());
        assert(digits_value(s.drop_last()) == 0);
        assert((digit_char(n) as nat) - ('0' as nat) == n);
        assert(digits_value(s) == n);
        assert(!has_char(s, '_')) by {
            if has_char(s, '_') {
                let i = choose|i: int| 0 <= i < s.len() && s[i] == '_';
                assert(i == 0);
            }
        }
    }
}

/// Reading back the decimal text of an `i64` gives the same integer.
pub proof fn lemma_int_decimal_roundtrip(i: int)
    requires
        i64::MIN <= i <= i64::MAX,
    ensures
        parse_i64(int_decimal(i)) == Some(i),
        !has_char(int_decimal(i), '_'),
{
    if i < 0 {
        lemma_decimal((-i) as nat);
        let s = int_decimal(i);
        assert(s.skip(1) =~= decimal((-i) as nat));
        assert(!has_char(s, '_')) by {
            if has_char(s, '_') {
                let k = choose|k: int| 0 <= k < s.len() && s[k] == '_';
                if k > 0 {
                    assert(s[k] == s.skip(1)[k - 1]);
                }
            }
        }
    } else {
        lemma_decimal(i as nat);
        assert(is_digit(decimal(i as nat)[0]));
    }
}

} // verus!

verus! {

/// Whether `c` is white space in the sense of `char::is_whitespace` (the Unicode
/// `White_Space` property).
pub open spec fn is_ws(c: char) -> bool {
    c == '\t' || c == '\n' || c == '\u{0B}' || c == '\u{0C}' || c == '\r' || c == ' '
        || c == '\u{85}' || c == '\u{A0}' || c == '\u{1680}'
        || ('\u{2000}' <= c && c <= '\u{200A}')
        || c == '\u{2028}' || c == '\u{2029}' || c == '\u{202F}' || c == '\u{205F}' || c == '\u{3000}'
}

pub fn is_ws_exec(c: char) -> (r: bool)
    ensures
        r == is_ws(c),
{
    c == '\t' || c == '\n' || c == '\u{0B}' || c == '\u{0C}' || c == '\r' || c == ' '
        || c == '\u{85}' || c == '\u{A0}' || c == '\u{1680}'
        || ('\u{2000}' <= c && c <= '\u{200A}')
        || c == '\u{2028}' || c == '\u{2029}' || c == '\u{202F}' || c == '\u{205F}' || c == '\u{3000}'
}

/// Number of leading white-space characters of `s`.
pub open spec fn lead_ws(s: Seq<char>) -> nat
    decreases s.len(),
{
    if s.len() > 0 && is_ws(s[0]) {
        1 + lead_ws(s.drop_first())
    } else {
        0
    }
}

/// Number of trailing white-space characters of `s`.
pub open spec fn trail_ws(s: Seq<char>) -> nat
    decreases s.len(),
{
    if s.len() > 0 && is_ws(s.last()) {
        1 + trail_ws(s.drop_last())
    } else {
        0
    }
}

/// `s` without leading white space (`str::trim_start`).
pub open spec fn trim_start(s: Seq<char>) -> Seq<char> {
    s.skip(lead_ws(s) as int)
}

/// `s` without trailing white space (`str::trim_end`).
pub open spec fn trim_end(s: Seq<char>) -> Seq<char> {
    s.take(s.len() - trail_ws(s))
}

/// `s` without leading and trailing white space (`str::trim`).
pub open spec fn trim(s: Seq<char>) -> Seq<char> {
    trim_end(trim_start(s))
}

pub proof fn lemma_lead_ws(s: Seq<char>)
    ensures
        lead_ws(s) <= s.len(),
        forall|i: int| 0 <= i < lead_ws(s) ==> is_ws(#[trigger] s[i]),
        lead_ws(s) < s.len() ==> !is_ws(s[lead_ws(s) as int]),
    decreases s.len(),
{
    if s.len() > 0 && is_ws(s[0]) {
        lemma_lead_ws(s.drop_first());
        assert forall|i: int| 0 <= i < lead_ws(s) implies is_ws(#[trigger] s[i]) by {
            if i > 0 {
                assert(s[i] == s.drop_first()[i - 1]);
            }
        }
    }
}

pub proof fn lemma_trail_ws(s: Seq<char>)
    ensures
        trail_ws(s) <= s.len(),
        forall|i: int| s.len() - trail_ws(s) <= i < s.len() ==> is_ws(#[trigger] s[i]),
        trail_ws(s) < s.len() ==> !is_ws(s[s.len() - trail_ws(s) - 1]),
    decreases s.len(),
{
    if s.len() > 0 && is_ws(s.last()) {
        lemma_trail_ws(s.drop_last());
        assert forall|i: int| s.len() - trail_ws(s) <= i < s.len() implies is_ws(#[trigger] s[i]) by {
            if i < s.len() - 1 {
                assert(s[i] == s.drop_last()[i]);
            }
        }
    }
}

proof fn lemma_lead_ws_is(s: Seq<char>, k: int)
    requires
        0 <= k <= s.len(),
        forall|i: int| 0 <= i < k ==> is_ws(#[trigger] s[i]),
        k < s.len() ==> !is_ws(s[k]),
    ensures
        lead_ws(s) == k,
    decreases s.len(),
{
    if k > 0 {
        assert forall|i: int| 0 <= i < k - 1 implies is_ws(#[trigger] s.drop_first()[i]) by {
            assert(s.drop_first()[i] == s[i + 1]);
        }
        lemma_lead_ws_is(s.drop_first(), k - 1);
    }
}

proof fn lemma_trail_ws_is(s: Seq<char>, k: int)
    requires
        0 <= k <= s.len(),
        forall|i: int| s.len() - k <= i < s.len() ==> is_ws(#[trigger] s[i]),
        k < s.len() ==> !is_ws(s[s.len() - k - 1]),
    ensures
        trail_ws(s) == k,
    decreases s.len(),
{
    if k > 0 {
        assert forall|i: int| s.drop_last().len() - (k - 1) <= i < s.drop_last().len() implies is_ws(#[trigger] s.drop_last()[i]) by {
            assert(s.drop_last()[i] == s[i]);
        }
        lemma_trail_ws_is(s.drop_last(), k - 1);
    }
}

/// Bounds `(a, b)` such that `v[a..b]` is `v` trimmed of white space.
pub fn trim_bounds(v: &Vec<char>) -> (r: (usize, usize))
    ensures
        r.0 <= r.1 <= v@.len(),
        v@.subrange(r.0 as int, r.1 as int) == trim(v@),
        r.0 as int == lead_ws(v@),
{
    let mut a: usize = 0;
    while a < v.len() && is_ws_exec(v[a])
        invariant
            a <= v@.len(),
            forall|i: int| 0 <= i < a ==> is_ws(#[trigger] v@[i]),
        decreases v@.len() - a,
    {
        a += 1;
    }
    proof {
        lemma_lead_ws_is(v@, a as int);
    }
    let ghost t = v@.skip(a as int);
    let mut b: usize = v.len();
    while b > a && is_ws_exec(v[b - 1])
        invariant
            a <= b <= v@.len(),
            t == v@.skip(a as int),
            forall|i: int| b <= i < v@.len() ==> is_ws(#[trigger] v@[i]),
        decreases b,
    {
        b -= 1;
    }
    proof {
        let k = (v@.len() - b) as int;
        assert forall|i: int| t.len() - k <= i < t.len() implies is_ws(#[trigger] t[i]) by {
            assert(t[i] == v@[i + a]);
        }
        if k < t.len() {
            assert(t[t.len() - k - 1] == v@[b - 1]);
        }
        lemma_trail_ws_is(t, k);
        assert(v@.subrange(a as int, b as int) =~= t.take(t.len() - k));
    }
    (a, b)
}

/// The ASCII lower-case form of `c` (other characters unchanged).
pub open spec fn ascii_lower(c: char) -> char {
    if 'A' <= c && c <= 'Z' {
        ((c as u32) + 32) as char
    } else {
        c
    }
}

pub fn ascii_lower_exec(c: char) -> (r: char)
    ensures
        r == ascii_lower(c),
{
    if 'A' <= c && c <= 'Z' {
        ((c as u8) + 32) as char
    } else {
        c
    }
}

/// `s` with its ASCII letters in lower case (`str::to_ascii_lowercase`).
pub open spec fn to_ascii_lower(s: Seq<char>) -> Seq<char> {
    s.map_values(|c: char| ascii_lower(c))
}

/// Whether `a` and `b` are equal up to ASCII case (`str::eq_ignore_ascii_case`).
pub open spec fn eq_ignore_case(a: Seq<char>, b: Seq<char>) -> bool {
    to_ascii_lower(a) == to_ascii_lower(b)
}

/// Whether `v[from..to]` equals `b` up to ASCII case.
pub fn range_eq_ignore_case(v: &Vec<char>, from: usize, to: usize, b: &str) -> (r: bool)
    requires
        from <= to <= v@.len(),
    ensures
        r == eq_ignore_case(v@.subrange(from as int, to as int), b@),
{
    let bv = chars_of(b);
    let ghost a = v@.subrange(from as int, to as int);
    if to - from != bv.len() {
        proof {
            assert(to_ascii_lower(a).len() != to_ascii_lower(bv@).len());
        }
        return false;
    }
    let mut i: usize = 0;
    while i < bv.len()
        invariant
            i <= bv@.len(),
            bv@ == b@,
            to - from == bv@.len(),
            from <= to <= v@.len(),
            a == v@.subrange(from as int, to as int),
            forall|j: int| 0 <= j < i ==> ascii_lower(#[trigger] a[j]) == ascii_lower(bv@[j]),
        decreases bv@.len() - i,
    {
        if ascii_lower_exec(v[from + i]) != ascii_lower_exec(bv[i]) {
            proof {
                assert(a[i as int] == v@[from + i]);
                assert(to_ascii_lower(a)[i as int] != to_ascii_lower(bv@)[i as int]);
            }
            return false;
        }
        i += 1;
    }
    assert(to_ascii_lower(a) =~= to_ascii_lower(bv@));
    true
}

/// Whether `v[from..to]` equals `b` exactly.
pub fn range_eq(v: &Vec<char>, from: usize, to: usize, b: &str) -> (r: bool)
    requires
        from <= to <= v@.len(),
    ensures
        r == (v@.subrange(from as int, to as int) == b@),
{
    let bv = chars_of(b);
    if to - from != bv.len() {
        return false;
    }
    let mut i: usize = 0;
    while i < bv.len()
        invariant
            i <= bv@.len(),
            bv@ == b@,
            to - from == bv@.len(),
            from <= to <= v@.len(),
            forall|j: int| 0 <= j < i ==> v@[from + j] == bv@[j],
        decreases bv@.len() - i,
    {
        if v[from + i] != bv[i] {
            proof {
                assert(v@.subrange(from as int, to as int)[i as int] != bv@[i as int]);
            }
            return false;
        }
        i += 1;
    }
    assert(v@.subrange(from as int, to as int) =~= bv@);
    true
}

/// Whether `s` begins with `p`.
pub open spec fn starts_with(s: Seq<char>, p: Seq<char>) -> bool {
    p.len() <= s.len() && s.take(p.len() as int) == p
}

/// Whether `s` ends with `p`.
pub open spec fn ends_with(s: Seq<char>, p: Seq<char>) -> bool {
    p.len() <= s.len() && s.skip(s.len() - p.len()) == p
}

/// Whether `v` begins with `p`.
pub fn vec_starts_with(v: &Vec<char>, p: &str) -> (r: bool)
    ensures
        r == starts_with(v@, p@),
{
    let pv = chars_of(p);
    if pv.len() > v.len() {
        return false;
    }
    let r = range_eq(v, 0, pv.len(), p);
    assert(v@.subrange(0, pv@.len() as int) =~= v@.take(pv@.len() as int));
    r
}

/// Whether `v` ends with `p`.
pub fn vec_ends_with(v: &Vec<char>, p: &str) -> (r: bool)
    ensures
        r == ends_with(v@, p@),
{
    let pv = chars_of(p);
    if pv.len() > v.len() {
        return false;
    }
    let r = range_eq(v, v.len() - pv.len(), v.len(), p);
    assert(v@.subrange((v@.len() - pv@.len()) as int, v@.len() as int) =~= v@.skip(v@.len() - pv@.len()));
    r
}

} // verus!

verus! {

/// `str::replace`: every non-overlapping occurrence of the non-empty `pat`,
/// found from left to right, replaced by `rep`.
pub open spec fn replace_all(s: Seq<char>, pat: Seq<char>, rep: Seq<char>) -> Seq<char>
    decreases s.len(),
{
    if pat.len() == 0 || s.len() < pat.len() {
        s
    } else if s.take(pat.len() as int) == pat {
        rep + replace_all(s.skip(pat.len() as int), pat, rep)
    } else {
        seq![s[0]] + replace_all(s.skip(1), pat, rep)
    }
}

/// The characters of `s` with each occurrence of `pat` replaced by `rep`.
pub fn replace_str(s: &str, pat: &str, rep: &str) -> (r: String)
    requires
        pat@.len() > 0,
    ensures
        r@ == replace_all(s@, pat@, rep@),
{
    let cs = chars_of(s);
    let ps = chars_of(pat);
    let n = cs.len();
    let m = ps.len();
    let mut out = String::new();
    let mut i: usize = 0;
    assert(cs@.skip(0) =~= cs@);
    while i < n && n - i >= m
        invariant
            n == cs@.len(),
            m == ps@.len(),
            m > 0,
            cs@ == s@,
            ps@ == pat@,
            i <= n,
            out@ + replace_all(cs@.skip(i as int), ps@, rep@) == replace_all(s@, pat@, rep@),
        decreases n - i,
    {
        let ghost rest = cs@.skip(i as int);
        let mut matched = true;
        let mut k: usize = 0;
        while k < m
            invariant
                n == cs@.len(),
                m == ps@.len(),
                i + m <= n,
                k <= m,
                matched == (forall|j: int| 0 <= j < k ==> cs@[i + j] == ps@[j]),
            decreases m - k,
        {
            if cs[i + k] != ps[k] {
                matched = false;
            }
            k += 1;
        }
        proof {
            assert(rest.take(m as int) =~= cs@.subrange(i as int, (i + m) as int));
            if matched {
                assert(rest.take(m as int) =~= ps@);
            } else {
                assert(rest.take(m as int) != ps@) by {
                    let j = choose|j: int| 0 <= j < m && cs@[i + j] != ps@[j];
                    assert(rest.take(m as int)[j] == cs@[i + j]);
                }
            }
        }
        if matched {
            out.append(rep);
            proof {
                assert(rest.skip(m as int) =~= cs@.skip((i + m) as int));
                assert(out@ + replace_all(cs@.skip((i + m) as int), ps@, rep@) =~= (out@.subrange(0, out@.len() - rep@.len()) + (rep@ + replace_all(rest.skip(m as int), ps@, rep@))));
            }
            i = i + m;
        } else {
            let c = cs[i];
            push_char(&mut out, c);
            proof {
                assert(rest.skip(1) =~= cs@.skip((i + 1) as int));
                assert(rest[0] == c);
                assert(out@ + replace_all(cs@.skip((i + 1) as int), ps@, rep@) =~= (out@.drop_last() + (seq![rest[0]] + replace_all(rest.skip(1), ps@, rep@))));
            }
            i = i + 1;
        }
    }
    proof {
        let rest = cs@.skip(i as int);
        assert(rest.len() < m);
        assert(replace_all(rest, ps@, rep@) == rest);
        assert(rest =~= cs@.subrange(i as int, n as int));
    }
    let tail = string_of_range(&cs, i, n);
    out.append(tail.as_str());
    out
}

} // verus!
