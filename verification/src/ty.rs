//! The structural type model: a resolved, acyclic graph of type descriptors,
//! and function signatures over it.
//!
//! Primitive types and `Text` stand inline in a [`TypeRef`]; every compound
//! type lives in the defining arena of a [`TypeGraph`] and is referred to by
//! index. Well-formedness asks every reference inside a definition to point
//! at a strictly earlier definition, which makes the graph a DAG by
//! construction while still letting many referrers share one definition.

use vstd::prelude::*;

verus! {

/// A reference to a type: either one of the primitive kinds, the built-in
/// text type, or an index into the graph's compound definitions.
#[derive(Clone, Copy, Debug, PartialEq, Eq, Structural)]
pub enum TypeRef {
    Bool,
    Char,
    S8,
    U8,
    S16,
    U16,
    S32,
    U32,
    S64,
    U64,
    Float32,
    Float64,
    /// A string value, marshaled as UTF-8 bytes in linear memory.
    Text,
    /// A compound or nominal type defined in the graph.
    Id(usize),
}

/// A compound or nominal type definition.
#[derive(Clone, Debug)]
pub enum TypeDef {
    List(TypeRef),
    Tuple(Vec<TypeRef>),
    /// Ordered named fields.
    Record(Vec<(String, TypeRef)>),
    /// Ordered named cases, each with an optional payload type.
    Variant(Vec<(String, Option<TypeRef>)>),
    /// Ordered case names with no payloads.
    Enum(Vec<String>),
    /// Ordered bit names.
    Flags(Vec<String>),
    OptionOf(TypeRef),
    ResultOf(Option<TypeRef>, Option<TypeRef>),
    /// A named alias pointing at another descriptor.
    Alias(TypeRef),
    /// An opaque handle; it has a layout but cannot be marshaled yet.
    Resource,
}

/// The resolved type graph: an arena of compound definitions.
pub struct TypeGraph {
    pub defs: Vec<TypeDef>,
}

/// Does `t`, standing inside the definition at index `bound`, point only at
/// strictly earlier definitions?
pub open spec fn ref_wf(t: TypeRef, bound: int) -> bool {
    match t {
        TypeRef::Id(i) => (i as int) < bound,
        _ => true,
    }
}

/// Well-formedness of one definition: every reference it holds points at a
/// strictly earlier definition.
pub open spec fn def_wf(d: TypeDef, bound: int) -> bool {
    match d {
        TypeDef::List(t) => ref_wf(t, bound),
        TypeDef::Tuple(ts) => forall|j: int| 0 <= j < ts@.len() ==> ref_wf(ts@[j], bound),
        TypeDef::Record(fs) => forall|j: int| 0 <= j < fs@.len() ==> ref_wf(fs@[j].1, bound),
        TypeDef::Variant(cs) => forall|j: int|
            0 <= j < cs@.len() ==> match (#[trigger] cs@[j]).1 {
                Some(t) => ref_wf(t, bound),
                None => true,
            },
        TypeDef::Enum(_) => true,
        TypeDef::Flags(_) => true,
        TypeDef::OptionOf(t) => ref_wf(t, bound),
        TypeDef::ResultOf(ok, err) => {
            &&& match ok {
                Some(t) => ref_wf(t, bound),
                None => true,
            }
            &&& match err {
                Some(t) => ref_wf(t, bound),
                None => true,
            }
        },
        TypeDef::Alias(t) => ref_wf(t, bound),
        TypeDef::Resource => true,
    }
}

impl TypeGraph {
    /// The graph is acyclic by construction: each definition refers only to
    /// strictly earlier ones.
    pub open spec fn wf(self) -> bool {
        forall|i: int| 0 <= i < self.defs@.len() ==> def_wf(#[trigger] self.defs@[i], i)
    }

    /// Check well-formedness of the whole graph.
    pub fn check_wf(&self) -> (r: bool)
        ensures
            r == self.wf(),
    {
        let n = self.defs.len();
        let mut i: usize = 0;
        let mut ok = true;
        while i < n
            invariant
                i <= n,
                n == self.defs@.len(),
                ok <==> forall|j: int| 0 <= j < i ==> def_wf(#[trigger] self.defs@[j], j),
            decreases n - i,
        {
            if !check_def_wf(&self.defs[i], i) {
                ok = false;
            }
            i += 1;
        }
        ok
    }
}

/// Check one reference against the bound, equal to the spec-level
/// [`ref_wf`].
pub fn check_ref_wf(t: TypeRef, bound: usize) -> (r: bool)
    ensures
        r == ref_wf(t, bound as int),
{
    match t {
        TypeRef::Id(i) => i < bound,
        _ => true,
    }
}

/// Check one definition against the bound, equal to the spec-level
/// [`def_wf`].
pub fn check_def_wf(d: &TypeDef, bound: usize) -> (r: bool)
    ensures
        r == def_wf(*d, bound as int),
{
    match d {
        TypeDef::List(t) => check_ref_wf(*t, bound),
        TypeDef::Tuple(ts) => {
            let n = ts.len();
            let mut j: usize = 0;
            let mut ok = true;
            while j < n
                invariant
                    j <= n,
                    n == ts@.len(),
                    ok <==> forall|k: int| 0 <= k < j ==> ref_wf(#[trigger] ts@[k], bound as int),
                decreases n - j,
            {
                if !check_ref_wf(ts[j], bound) {
                    ok = false;
                }
                j += 1;
            }
            ok
        },
        TypeDef::Record(fs) => {
            let n = fs.len();
            let mut j: usize = 0;
            let mut ok = true;
            while j < n
                invariant
                    j <= n,
                    n == fs@.len(),
                    ok <==> forall|k: int|
                        0 <= k < j ==> ref_wf((#[trigger] fs@[k]).1, bound as int),
                decreases n - j,
            {
                if !check_ref_wf(fs[j].1, bound) {
                    ok = false;
                }
                j += 1;
            }
            ok
        },
        TypeDef::Variant(cs) => {
            let n = cs.len();
            let mut j: usize = 0;
            let mut ok = true;
            while j < n
                invariant
                    j <= n,
                    n == cs@.len(),
                    ok <==> forall|k: int|
                        0 <= k < j ==> match (#[trigger] cs@[k]).1 {
                            Some(t) => ref_wf(t, bound as int),
                            None => true,
                        },
                decreases n - j,
            {
                let case_ok = match &cs[j].1 {
                    Some(t) => check_ref_wf(*t, bound),
                    None => true,
                };
                if !case_ok {
                    ok = false;
                }
                j += 1;
            }
            ok
        },
        TypeDef::Enum(_) => true,
        TypeDef::Flags(_) => true,
        TypeDef::OptionOf(t) => check_ref_wf(*t, bound),
        TypeDef::ResultOf(ok_t, err_t) => {
            let ok_fine = match ok_t {
                Some(t) => check_ref_wf(*t, bound),
                None => true,
            };
            let err_fine = match err_t {
                Some(t) => check_ref_wf(*t, bound),
                None => true,
            };
            ok_fine && err_fine
        },
        TypeDef::Alias(t) => check_ref_wf(*t, bound),
        TypeDef::Resource => true,
    }
}

/// The closed enumeration of list element kinds the runtime helpers
/// dispatch on: the fixed-width integers, `Bool`, `Char`, and the two float
/// widths (carried as raw bit patterns).
#[derive(Clone, Copy, Debug, PartialEq, Eq, Structural)]
pub enum ElemKind {
    S8,
    U8,
    Bool,
    S16,
    U16,
    S32,
    U32,
    Char,
    S64,
    U64,
    Float32,
    Float64,
}

/// Is this reference one of the primitive scalar kinds (one machine word,
/// no indirection)? `Text` and every graph-defined type are not.
pub open spec fn is_scalar(t: TypeRef) -> bool {
    match t {
        TypeRef::Text => false,
        TypeRef::Id(_) => false,
        _ => true,
    }
}

/// The element kind a scalar primitive dispatches to, or `None` for
/// non-scalar references.
pub open spec fn spec_elem_kind_of(t: TypeRef) -> Option<ElemKind> {
    match t {
        TypeRef::Bool => Some(ElemKind::Bool),
        TypeRef::Char => Some(ElemKind::Char),
        TypeRef::S8 => Some(ElemKind::S8),
        TypeRef::U8 => Some(ElemKind::U8),
        TypeRef::S16 => Some(ElemKind::S16),
        TypeRef::U16 => Some(ElemKind::U16),
        TypeRef::S32 => Some(ElemKind::S32),
        TypeRef::U32 => Some(ElemKind::U32),
        TypeRef::S64 => Some(ElemKind::S64),
        TypeRef::U64 => Some(ElemKind::U64),
        TypeRef::Float32 => Some(ElemKind::Float32),
        TypeRef::Float64 => Some(ElemKind::Float64),
        TypeRef::Text => None,
        TypeRef::Id(_) => None,
    }
}

/// Map a scalar primitive to its list element kind.
pub fn elem_kind_of(t: TypeRef) -> (r: Option<ElemKind>)
    ensures
        r == spec_elem_kind_of(t),
        r is Some <==> is_scalar(t),
{
    match t {
        TypeRef::Bool => Some(ElemKind::Bool),
        TypeRef::Char => Some(ElemKind::Char),
        TypeRef::S8 => Some(ElemKind::S8),
        TypeRef::U8 => Some(ElemKind::U8),
        TypeRef::S16 => Some(ElemKind::S16),
        TypeRef::U16 => Some(ElemKind::U16),
        TypeRef::S32 => Some(ElemKind::S32),
        TypeRef::U32 => Some(ElemKind::U32),
        TypeRef::S64 => Some(ElemKind::S64),
        TypeRef::U64 => Some(ElemKind::U64),
        TypeRef::Float32 => Some(ElemKind::Float32),
        TypeRef::Float64 => Some(ElemKind::Float64),
        TypeRef::Text => None,
        TypeRef::Id(_) => None,
    }
}

/// The results of a function: a single anonymous type, or an ordered
/// sequence of named results.
#[derive(Clone, Debug)]
pub enum FuncResults {
    Anon(TypeRef),
    Named(Vec<(String, TypeRef)>),
}

/// A function signature over the type graph: ordered named parameters and a
/// results value.
#[derive(Clone, Debug)]
pub struct FunctionSignature {
    pub params: Vec<(String, TypeRef)>,
    pub results: FuncResults,
}

impl FunctionSignature {
    /// The invariant the external resolver establishes: parameter names are
    /// unique within a signature.
    pub open spec fn wf(self) -> bool {
        forall|i: int, j: int|
            0 <= i < j < self.params@.len() ==> self.params@[i].0@ != self.params@[j].0@
    }
}

} // verus!
