//! The names that a translation can resolve, and the questions asked of them:
//! whether a name is bound to a value, which flow variable goes with a stream
//! variable, and the ABI tag of the arguments of an imported function.

use vstd::prelude::*;
use crate::ast::{Expression, SExpr, exprs_view};
use crate::loader::{assoc, find_key};
use crate::text::{
    chars_of, concat, ends_with, parse_usize, parse_usize_range, push_char, rsplit_once, starts_with,
    str_eq, string_of_range, strings_view, vec_ends_with, vec_starts_with,
};

verus! {

broadcast use crate::ast::group_ast_views;

/// The names known to a translation, by the kind of value they stand for.
pub struct TranslationNames {
    /// Continuous states.
    pub states: Vec<String>,
    /// Discrete variables.
    pub discretes: Vec<String>,
    /// Outputs.
    pub outputs: Vec<String>,
    /// Parameters.
    pub params: Vec<String>,
    /// Variables held in stack slots.
    pub stack_slots: Vec<String>,
    /// Variables bound to values of the function being built.
    pub vars: Vec<String>,
    /// Array variables (with their layout).
    pub arrays: Vec<String>,
    /// Arrays that have storage of their own.
    pub array_storage: Vec<String>,
    /// The flow variable of each stream variable.
    pub stream_flow_map: Vec<(String, String)>,
    /// The peers of each stream variable in its connection set.
    pub stream_connection_set: Vec<(String, Vec<String>)>,
}

/// Whether `v` holds the name `n`.
pub open spec fn holds(v: Seq<String>, n: Seq<char>) -> bool {
    strings_view(v).contains(n)
}

fn holds_exec(v: &Vec<String>, n: &str) -> (r: bool)
    ensures
        r == holds(v@, n@),
{
    let mut i: usize = 0;
    while i < v.len()
        invariant
            i <= v@.len(),
            forall|j: int| 0 <= j < i ==> (#[trigger] v@[j])@ != n@,
        decreases v@.len() - i,
    {
        if str_eq(v[i].as_str(), n) {
            assert(strings_view(v@)[i as int] == n@);
            return true;
        }
        i += 1;
    }
    proof {
        if holds(v@, n@) {
            let j = choose|j: int| 0 <= j < strings_view(v@).len() && strings_view(v@)[j] == n@;
            assert(strings_view(v@)[j] == v@[j]@);
        }
    }
    false
}

/// `name` is an element `base_k` of an array with storage: it splits at its
/// last `_` into a base with storage and an index.
pub open spec fn is_array_element(t: TranslationNames, name: Seq<char>) -> bool {
    match rsplit_once(name, '_') {
        Some((base, suffix)) => parse_usize(suffix) is Some && holds(t.array_storage@, base),
        None => false,
    }
}

fn is_array_element_exec(t: &TranslationNames, name: &str) -> (r: bool)
    ensures
        r == is_array_element(*t, name@),
{
    let cs = chars_of(name);
    proof {
        crate::text::lemma_last_index_of(cs@, '_');
    }
    match crate::text::find_last(&cs, '_') {
        Some(k) => {
            let ok = parse_usize_range(&cs, k + 1, cs.len());
            assert(cs@.subrange(k + 1, cs@.len() as int) =~= cs@.skip(k + 1));
            assert(cs@.subrange(0, k as int) =~= cs@.take(k as int));
            match ok {
                Some(_) => {
                    let base = string_of_range(&cs, 0, k);
                    holds_exec(&t.array_storage, base.as_str())
                },
                None => false,
            }
        },
        None => false,
    }
}

/// Whether a name stands for a value: a state, discrete, output, parameter,
/// stack slot or bound variable.
pub open spec fn value_exists(t: TranslationNames, name: Seq<char>) -> bool {
    holds(t.states@, name) || holds(t.discretes@, name) || holds(t.outputs@, name) || holds(t.params@, name)
        || holds(t.stack_slots@, name) || holds(t.vars@, name)
}

/// Whether a name stands for a value (see [`value_exists`]).
pub fn value_name_exists(t: &TranslationNames, name: &str) -> (r: bool)
    ensures
        r == value_exists(*t, name@),
{
    holds_exec(&t.states, name) || holds_exec(&t.discretes, name) || holds_exec(&t.outputs, name)
        || holds_exec(&t.params, name) || holds_exec(&t.stack_slots, name) || holds_exec(&t.vars, name)
}

/// Whether a scalar name can be read in compiled code: a stack slot, bound
/// variable, output, parameter, state or discrete; `der_x` of a state `x`; or
/// an element of an array with storage.
pub open spec fn scalar_bound(t: TranslationNames, name: Seq<char>) -> bool {
    holds(t.stack_slots@, name) || holds(t.vars@, name) || holds(t.outputs@, name) || holds(t.params@, name)
        || holds(t.states@, name) || holds(t.discretes@, name)
        || (starts_with(name, "der_"@) && holds(t.states@, name.skip(4)))
        || is_array_element(t, name)
}

/// Whether a scalar name can be read in compiled code (see [`scalar_bound`]).
pub fn jit_scalar_name_bound(t: &TranslationNames, name: &str) -> (r: bool)
    ensures
        r == scalar_bound(*t, name@),
{
    if holds_exec(&t.stack_slots, name) || holds_exec(&t.vars, name) || holds_exec(&t.outputs, name)
        || holds_exec(&t.params, name) || holds_exec(&t.states, name) || holds_exec(&t.discretes, name) {
        return true;
    }
    let cs = chars_of(name);
    if vec_starts_with(&cs, "der_") {
        proof {
            reveal_strlit("der_");
        }
        let rest = string_of_range(&cs, 4, cs.len());
        assert(cs@.subrange(4, cs@.len() as int) =~= name@.skip(4));
        if holds_exec(&t.states, rest.as_str()) {
            return true;
        }
    }
    is_array_element_exec(t, name)
}

/// Whether a name can be read by `pre()`: a stack slot, bound variable,
/// state or discrete, or an element of an array with storage.
pub open spec fn pre_bound(t: TranslationNames, name: Seq<char>) -> bool {
    holds(t.stack_slots@, name) || holds(t.vars@, name) || holds(t.states@, name) || holds(t.discretes@, name)
        || is_array_element(t, name)
}

/// Whether a name can be read by `pre()` (see [`pre_bound`]).
pub fn pre_scalar_name_bound(t: &TranslationNames, name: &str) -> (r: bool)
    ensures
        r == pre_bound(*t, name@),
{
    holds_exec(&t.stack_slots, name) || holds_exec(&t.vars, name) || holds_exec(&t.states, name)
        || holds_exec(&t.discretes, name) || is_array_element_exec(t, name)
}

/// The flow variable guessed for a stream variable `p_h_outflow`: `p_m_flow`.
pub open spec fn flow_name_guess(stream_name: Seq<char>) -> Option<Seq<char>> {
    if ends_with(stream_name, "_h_outflow"@) {
        Some(stream_name.take(stream_name.len() - "_h_outflow"@.len()) + "_m_flow"@)
    } else {
        None
    }
}

/// The flow variable guessed for a stream variable (see [`flow_name_guess`]).
pub fn stream_flow_name_heuristic(stream_name: &str) -> (r: Option<String>)
    ensures
        match r {
            Some(s) => flow_name_guess(stream_name@) == Some(s@),
            None => flow_name_guess(stream_name@) is None,
        },
{
    let cs = chars_of(stream_name);
    if vec_ends_with(&cs, "_h_outflow") {
        proof {
            reveal_strlit("_h_outflow");
        }
        let prefix = string_of_range(&cs, 0, cs.len() - 10);
        assert(cs@.subrange(0, cs@.len() - 10) =~= stream_name@.take(stream_name@.len() - "_h_outflow"@.len()));
        Some(concat(prefix.as_str(), "_m_flow"))
    } else {
        None
    }
}

/// The flow variable of a stream variable: the recorded one, else the guess.
pub open spec fn flow_name_for(t: TranslationNames, stream_name: Seq<char>) -> Option<Seq<char>> {
    if assoc(t.stream_flow_map@).contains_key(stream_name) {
        Some(assoc(t.stream_flow_map@)[stream_name]@)
    } else {
        flow_name_guess(stream_name)
    }
}

/// The flow variable of a stream variable (see [`flow_name_for`]).
pub fn stream_flow_name_for(t: &TranslationNames, stream_name: &str) -> (r: Option<String>)
    ensures
        match r {
            Some(s) => flow_name_for(*t, stream_name@) == Some(s@),
            None => flow_name_for(*t, stream_name@) is None,
        },
{
    match find_key(&t.stream_flow_map, stream_name) {
        Some(i) => Some(t.stream_flow_map[i].1.clone()),
        None => stream_flow_name_heuristic(stream_name),
    }
}

/// The peers of a stream variable in its connection set: the recorded ones,
/// or none.
pub open spec fn peers_of(t: TranslationNames, stream_name: Seq<char>) -> Seq<Seq<char>> {
    if assoc(t.stream_connection_set@).contains_key(stream_name) {
        strings_view(assoc(t.stream_connection_set@)[stream_name]@)
    } else {
        Seq::empty()
    }
}

/// The peers of a stream variable (see [`peers_of`]).
pub fn stream_peer_names(t: &TranslationNames, stream_name: &str) -> (r: Vec<String>)
    ensures
        strings_view(r@) == peers_of(*t, stream_name@),
{
    match find_key(&t.stream_connection_set, stream_name) {
        Some(i) => crate::ast::clone_strings(&t.stream_connection_set[i].1),
        None => {
            let v: Vec<String> = Vec::new();
            assert(strings_view(v@) =~= Seq::<Seq<char>>::empty());
            v
        },
    }
}

/// Whether every expression of `s` is a number literal.
pub open spec fn all_numbers(s: Seq<SExpr>) -> bool {
    forall|i: int| 0 <= i < s.len() ==> #[trigger] s[i] is Number
}

/// The ABI tag of one argument: `a` for an array (a literal of numbers, or an
/// array variable), `s` for a string literal, `f` for anything else.
pub open spec fn abi_tag_of(arrays: Seq<String>, e: SExpr) -> char {
    match e {
        SExpr::ArrayLiteral(items) => if all_numbers(items) { 'a' } else { 'f' },
        SExpr::StringLiteral(_) => 's',
        SExpr::Variable(n) => if holds(arrays, n) { 'a' } else { 'f' },
        _ => 'f',
    }
}

/// The ABI tags of arguments, one character each.
pub open spec fn abi_tags(arrays: Seq<String>, args: Seq<SExpr>) -> Seq<char> {
    args.map_values(|e: SExpr| abi_tag_of(arrays, e))
}

fn abi_tag_exec(t: &TranslationNames, e: &Expression) -> (r: char)
    ensures
        r == abi_tag_of(t.arrays@, e@),
{
    match e {
        Expression::ArrayLiteral(items) => {
            let mut all = true;
            let mut i: usize = 0;
            while i < items.len()
                invariant
                    i <= items@.len(),
                    all == (forall|j: int| 0 <= j < i ==> #[trigger] exprs_view(items@)[j] is Number),
                decreases items@.len() - i,
            {
                proof {
                    crate::ast::lemma_exprs_view(items@);
                }
                let is_number = match &items[i] {
                    Expression::Number(_) => true,
                    _ => false,
                };
                assert(is_number == (exprs_view(items@)[i as int] is Number));
                all = all && is_number;
                i += 1;
            }
            proof {
                crate::ast::lemma_exprs_view(items@);
            }
            if all { 'a' } else { 'f' }
        },
        Expression::StringLiteral(_) => 's',
        Expression::Variable(n) => {
            assert(e@ == SExpr::Variable(n@));
            if holds_exec(&t.arrays, n.as_str()) { 'a' } else { 'f' }
        },
        _ => 'f',
    }
}

/// The ABI tag of the arguments of an imported function (see [`abi_tags`]).
pub fn import_call_abi_tag(args: &Vec<Expression>, t: &TranslationNames) -> (r: String)
    ensures
        r@ == abi_tags(t.arrays@, exprs_view(args@)),
{
    let mut tag = String::new();
    let mut i: usize = 0;
    while i < args.len()
        invariant
            i <= args@.len(),
            tag@ == abi_tags(t.arrays@, exprs_view(args@).take(i as int)),
        decreases args@.len() - i,
    {
        let c = abi_tag_exec(t, &args[i]);
        proof {
            crate::ast::lemma_exprs_view(args@);
            assert(abi_tags(t.arrays@, exprs_view(args@).take(i + 1)) =~= abi_tags(t.arrays@, exprs_view(args@).take(i as int)).push(c));
        }
        push_char(&mut tag, c);
        i += 1;
    }
    proof {
        crate::ast::lemma_exprs_view(args@);
        assert(exprs_view(args@).take(args@.len() as int) =~= exprs_view(args@));
    }
    tag
}

} // verus!
