//! The type classifier: decides per function whether every parameter and
//! result type is scalar, so the export can be bound directly with no
//! marshaling wrapper.

use vstd::prelude::*;
use crate::ty::{is_scalar, FuncResults, FunctionSignature, TypeDef, TypeGraph, TypeRef};

verus! {

/// Classification of a function signature: `Scalar` signatures take the fast
/// path (direct binding, no marshaling); everything else is `Marshaled`.
#[derive(Clone, Copy, Debug, PartialEq, Eq, Structural)]
pub enum Classification {
    Scalar,
    Marshaled,
}

/// Every parameter type of the signature is a primitive scalar kind.
pub open spec fn all_params_scalar(sig: FunctionSignature) -> bool {
    forall|i: int| 0 <= i < sig.params@.len() ==> is_scalar((#[trigger] sig.params@[i]).1)
}

/// Every result type of the signature is a primitive scalar kind.
pub open spec fn all_results_scalar(sig: FunctionSignature) -> bool {
    match sig.results {
        FuncResults::Anon(t) => is_scalar(t),
        FuncResults::Named(rs) => forall|i: int|
            0 <= i < rs@.len() ==> is_scalar((#[trigger] rs@[i]).1),
    }
}

/// A signature is scalar when every parameter type and every result type is
/// one of the primitive scalar kinds; `Text` or any graph-defined (compound
/// or nominal) type anywhere forces marshaling.
pub open spec fn signature_scalar(sig: FunctionSignature) -> bool {
    all_params_scalar(sig) && all_results_scalar(sig)
}

/// Classify a signature: `Scalar` exactly when every parameter and result
/// type is a primitive scalar kind. Walks parameters, then results, in
/// declaration order, and short-circuits on the first non-scalar type found.
pub fn classify(sig: &FunctionSignature) -> (c: Classification)
    ensures
        c == Classification::Scalar <==> signature_scalar(*sig),
        c == Classification::Marshaled <==> !signature_scalar(*sig),
{
    let n = sig.params.len();
    let mut i: usize = 0;
    while i < n
        invariant
            i <= n,
            n == sig.params@.len(),
            forall|j: int| 0 <= j < i ==> is_scalar((#[trigger] sig.params@[j]).1),
        decreases n - i,
    {
        if !is_scalar_exec(sig.params[i].1) {
            return Classification::Marshaled;
        }
        i += 1;
    }
    match &sig.results {
        FuncResults::Anon(t) => {
            if is_scalar_exec(*t) {
                Classification::Scalar
            } else {
                Classification::Marshaled
            }
        },
        FuncResults::Named(rs) => {
            let m = rs.len();
            let mut k: usize = 0;
            let mut ok = true;
            while k < m
                invariant
                    k <= m,
                    m == rs@.len(),
                    ok <==> forall|j: int| 0 <= j < k ==> is_scalar((#[trigger] rs@[j]).1),
                decreases m - k,
            {
                if !is_scalar_exec(rs[k].1) {
                    ok = false;
                }
                k += 1;
            }
            if ok {
                Classification::Scalar
            } else {
                Classification::Marshaled
            }
        },
    }
}

/// Executable scalar test, equal to the spec-level [`is_scalar`].
pub fn is_scalar_exec(t: TypeRef) -> (r: bool)
    ensures
        r == is_scalar(t),
{
    match t {
        TypeRef::Text => false,
        TypeRef::Id(_) => false,
        _ => true,
    }
}

/// Is this reference the text type, or a graph-defined list?
pub open spec fn is_text_or_list(g: TypeGraph, t: TypeRef) -> bool {
    match t {
        TypeRef::Text => true,
        TypeRef::Id(i) => 0 <= (i as int) < g.defs@.len() && g.defs@[i as int] is List,
        _ => false,
    }
}

/// Does the signature mention a text or list type among its parameters or
/// results?
pub open spec fn mentions_text_or_list(g: TypeGraph, sig: FunctionSignature) -> bool {
    ||| exists|i: int|
        0 <= i < sig.params@.len() && is_text_or_list(g, (#[trigger] sig.params@[i]).1)
    ||| match sig.results {
        FuncResults::Anon(t) => is_text_or_list(g, t),
        FuncResults::Named(rs) => exists|i: int|
            0 <= i < rs@.len() && is_text_or_list(g, (#[trigger] rs@[i]).1),
    }
}

/// Law: a signature containing at least one text or list type among its
/// parameters or results is never scalar, so classification yields
/// `Marshaled`.
pub proof fn lemma_text_or_list_forces_marshaled(g: TypeGraph, sig: FunctionSignature)
    requires
        mentions_text_or_list(g, sig),
    ensures
        !signature_scalar(sig),
{
    if exists|i: int|
        0 <= i < sig.params@.len() && is_text_or_list(g, (#[trigger] sig.params@[i]).1) {
        let i = choose|i: int|
            0 <= i < sig.params@.len() && is_text_or_list(g, (#[trigger] sig.params@[i]).1);
        assert(!is_scalar(sig.params@[i].1));
    } else {
        match sig.results {
            FuncResults::Anon(t) => {
                assert(!is_scalar(t));
            },
            FuncResults::Named(rs) => {
                let i = choose|i: int|
                    0 <= i < rs@.len() && is_text_or_list(g, (#[trigger] rs@[i]).1);
                assert(!is_scalar(rs@[i].1));
            },
        }
    }
}

} // verus!
