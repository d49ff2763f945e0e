//! Newton solver path selection and acceptance policy.

use vstd::prelude::*;
use crate::text::{chars_of, eq_ignore_case, range_eq, range_eq_ignore_case, to_ascii_lower, trim, trim_bounds};

verus! {

/// How a Newton system was linearized.
#[derive(Clone, Copy, Debug, PartialEq, Eq, Structural)]
pub enum NewtonLinearizationKind {
    Dense,
    Csr,
}

/// Size figures of a linearized Newton system.
#[derive(Clone, Copy, Debug, PartialEq, Eq, Structural)]
pub struct NewtonLinearizationStats {
    pub residual_count: usize,
    pub nnz: usize,
}

impl Default for NewtonLinearizationStats {
    fn default() -> (r: Self)
        ensures
            r.residual_count == 0 && r.nnz == 0,
    {
        NewtonLinearizationStats { residual_count: 0, nnz: 0 }
    }
}

/// A linearized Newton system: dense or compressed sparse rows.
#[derive(Clone, Copy, Debug, PartialEq, Eq, Structural)]
pub enum NewtonLinearizedSystem {
    Dense(NewtonLinearizationStats),
    Csr(NewtonLinearizationStats),
}

impl NewtonLinearizedSystem {
    /// The kind of linearization.
    pub fn kind(&self) -> (k: NewtonLinearizationKind)
        ensures
            k == (match self {
                NewtonLinearizedSystem::Dense(_) => NewtonLinearizationKind::Dense,
                NewtonLinearizedSystem::Csr(_) => NewtonLinearizationKind::Csr,
            }),
    {
        match self {
            NewtonLinearizedSystem::Dense(_) => NewtonLinearizationKind::Dense,
            NewtonLinearizedSystem::Csr(_) => NewtonLinearizationKind::Csr,
        }
    }
}

/// Which Newton path the user prefers.
#[derive(Clone, Copy, Debug, PartialEq, Eq, Structural)]
pub enum NewtonPathPreference {
    Auto,
    DenseOnly,
    SparseOnly,
}

/// Sparse-Jacobian policy of the Newton solver.
#[derive(Clone, Copy, Debug, PartialEq, Eq, Structural)]
pub enum NewtonSparsePolicy {
    Auto,
    Dense,
    Sparse,
}

/// The preference named by a setting: after trimming white space and ignoring
/// ASCII case, `dense`/`dense_only` prefer dense, `sparse`/`csr`/`sparse_only`
/// prefer sparse, anything else is automatic.
pub open spec fn spec_path_preference(raw: Seq<char>) -> NewtonPathPreference {
    let s = to_ascii_lower(trim(raw));
    if s == "dense"@ || s == "dense_only"@ {
        NewtonPathPreference::DenseOnly
    } else if s == "sparse"@ || s == "csr"@ || s == "sparse_only"@ {
        NewtonPathPreference::SparseOnly
    } else {
        NewtonPathPreference::Auto
    }
}

/// The preference given by the path setting, or failing that the sparse-policy
/// setting, or `auto` when neither is set.
pub open spec fn spec_preference_from(path: Option<Seq<char>>, sparse_policy: Option<Seq<char>>) -> NewtonPathPreference {
    match path {
        Some(p) => spec_path_preference(p),
        None => match sparse_policy {
            Some(p) => spec_path_preference(p),
            None => spec_path_preference("auto"@),
        },
    }
}

proof fn lemma_lower_eq_literal(a: Seq<char>, lit: Seq<char>)
    requires
        to_ascii_lower(lit) == lit,
    ensures
        eq_ignore_case(a, lit) == (to_ascii_lower(a) == lit),
{
}

fn preference_of(raw: &str) -> (r: NewtonPathPreference)
    ensures
        r == spec_path_preference(raw@),
{
    let v = chars_of(raw);
    let (a, b) = trim_bounds(&v);
    proof {
        reveal_strlit("dense");
        reveal_strlit("dense_only");
        reveal_strlit("sparse");
        reveal_strlit("csr");
        reveal_strlit("sparse_only");
        assert(to_ascii_lower("dense"@) =~= "dense"@);
        assert(to_ascii_lower("dense_only"@) =~= "dense_only"@);
        assert(to_ascii_lower("sparse"@) =~= "sparse"@);
        assert(to_ascii_lower("csr"@) =~= "csr"@);
        assert(to_ascii_lower("sparse_only"@) =~= "sparse_only"@);
    }
    if range_eq_ignore_case(&v, a, b, "dense") || range_eq_ignore_case(&v, a, b, "dense_only") {
        NewtonPathPreference::DenseOnly
    } else if range_eq_ignore_case(&v, a, b, "sparse") || range_eq_ignore_case(&v, a, b, "csr")
        || range_eq_ignore_case(&v, a, b, "sparse_only") {
        NewtonPathPreference::SparseOnly
    } else {
        NewtonPathPreference::Auto
    }
}

/// The Newton path preference from the two settings that select it (the explicit
/// path setting first, then the sparse-policy setting; `auto` when neither is set).
pub fn newton_path_preference_from(path: Option<&str>, sparse_policy: Option<&str>) -> (r: NewtonPathPreference)
    ensures
        r == spec_preference_from(
            match path {
                Some(p) => Some(p@),
                None => None,
            },
            match sparse_policy {
                Some(p) => Some(p@),
                None => None,
            },
        ),
{
    match path {
        Some(p) => preference_of(p),
        None => match sparse_policy {
            Some(p) => preference_of(p),
            None => preference_of("auto"),
        },
    }
}

/// The sparse policy that a path preference selects.
pub fn preference_to_sparse_policy(preference: NewtonPathPreference) -> (r: NewtonSparsePolicy)
    ensures
        r == (match preference {
            NewtonPathPreference::DenseOnly => NewtonSparsePolicy::Dense,
            NewtonPathPreference::SparseOnly => NewtonSparsePolicy::Sparse,
            NewtonPathPreference::Auto => NewtonSparsePolicy::Auto,
        }),
{
    match preference {
        NewtonPathPreference::DenseOnly => NewtonSparsePolicy::Dense,
        NewtonPathPreference::SparseOnly => NewtonSparsePolicy::Sparse,
        NewtonPathPreference::Auto => NewtonSparsePolicy::Auto,
    }
}

/// Whether a boolean setting is on: `1`, `true` or `yes` after trimming, the
/// words in any ASCII case; `default` when the setting is absent.
pub open spec fn spec_flag_enabled(value: Option<Seq<char>>, default: bool) -> bool {
    match value {
        Some(v) => trim(v) == "1"@ || eq_ignore_case(trim(v), "true"@) || eq_ignore_case(trim(v), "yes"@),
        None => default,
    }
}

/// Reads a boolean setting (see [`spec_flag_enabled`]).
pub fn flag_enabled(value: Option<&str>, default: bool) -> (r: bool)
    ensures
        r == spec_flag_enabled(
            match value {
                Some(v) => Some(v@),
                None => None,
            },
            default,
        ),
{
    match value {
        None => default,
        Some(v) => {
            let cs = chars_of(v);
            let (a, b) = trim_bounds(&cs);
            range_eq(&cs, a, b, "1") || range_eq_ignore_case(&cs, a, b, "true") || range_eq_ignore_case(&cs, a, b, "yes")
        },
    }
}

/// A failed Newton solve (status 2) is accepted for a purely algebraic system
/// (no states), unless strict Newton mode is on.
pub fn allow_algebraic_newton_fallback(status: i32, state_len: usize, strict: bool) -> (r: bool)
    ensures
        r == (!strict && status == 2 && state_len == 0),
{
    if strict {
        return false;
    }
    status == 2 && state_len == 0
}

} // verus!
