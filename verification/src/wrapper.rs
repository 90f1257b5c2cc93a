//! The marshaling wrapper: planning, lowering, and lifting.
//!
//! A scalar signature is bound directly — no wrapper, no allocation. Every
//! other signature gets a [`WrapperPlan`]: one lowering per parameter, in
//! order, and one lifting for the result. A call then runs as a linear
//! protocol: [`begin_call`] lowers the arguments into flattened scalar
//! slots and hands them to the host to invoke the export;
//! [`MarshaledCall::export_returned`] lifts the result out of linear
//! memory; when a release hook is present, the decoded value stays locked
//! in a [`PendingRelease`] until the host reports the hook has run — so the
//! hook runs exactly once per call, after decoding and before the value is
//! delivered.

use vstd::prelude::*;
use crate::classify::{classify, is_scalar_exec, signature_scalar, Classification};
use crate::errors::{GenError, MarshalError};
use crate::lists::{spec_store_list, store_list};
use crate::memory::{le_val_of, LinearMemory};
use crate::text::{encode_text, spec_decode_text, spec_encode_text, decode_text};
use crate::ty::{
    elem_kind_of, is_scalar, spec_elem_kind_of, ElemKind, FuncResults, FunctionSignature, TypeDef,
    TypeGraph, TypeRef,
};

verus! {

/// A structured value crossing the boundary: one machine word, a text
/// payload, or a list of element values (raw bit patterns for the float
/// kinds).
#[derive(Clone, Debug)]
pub enum Value {
    Scalar(u64),
    Text(Vec<u8>),
    List(Vec<u64>),
}

/// How one parameter is lowered into flattened scalar slots.
#[derive(Clone, Copy, Debug, PartialEq, Eq, Structural)]
pub enum ParamLowering {
    /// A scalar passes through as one slot.
    Direct,
    /// Text is encoded into linear memory; two slots: pointer, then length.
    TextPtrLen,
    /// A list of this element kind is stored at its stride; two slots:
    /// pointer, then length.
    ListPtrLen(ElemKind),
}

/// How the single result is lifted.
#[derive(Clone, Copy, Debug, PartialEq, Eq, Structural)]
pub enum ResultLifting {
    /// A scalar result is returned directly.
    Direct,
    /// The export returns a pointer to two little-endian 4-byte words —
    /// data pointer, then byte length — holding a text payload.
    IndirectText,
}

/// The wrapper plan of a marshaled function: one lowering per parameter,
/// in declaration order, and the result lifting.
#[derive(Clone, Debug)]
pub struct WrapperPlan {
    pub lowerings: Vec<ParamLowering>,
    pub lifting: ResultLifting,
}

/// How one export is bound: directly under its name (the fast path, no
/// wrapper code), or through a generated wrapper.
#[derive(Clone, Debug)]
pub enum Binding {
    Direct,
    Wrapped(WrapperPlan),
}

/// The lowering a parameter type gets, if the engine can flatten it.
pub open spec fn spec_lowering_of(g: TypeGraph, t: TypeRef) -> Option<ParamLowering> {
    if is_scalar(t) {
        Some(ParamLowering::Direct)
    } else if t is Text {
        Some(ParamLowering::TextPtrLen)
    } else {
        match t {
            TypeRef::Id(i) => if 0 <= (i as int) < g.defs@.len() {
                match g.defs@[i as int] {
                    TypeDef::List(e) => match spec_elem_kind_of(e) {
                        Some(k) => Some(ParamLowering::ListPtrLen(k)),
                        None => None,
                    },
                    _ => None,
                }
            } else {
                None
            },
            _ => None,
        }
    }
}

/// The lifting a results shape gets, if the engine can lift it. Named
/// results (and any compound single result) are not flattened yet; they are
/// reported as unsupported rather than lifted lossily.
pub open spec fn spec_lifting_of(results: FuncResults) -> Option<ResultLifting> {
    match results {
        FuncResults::Anon(t) => if is_scalar(t) {
            Some(ResultLifting::Direct)
        } else if t is Text {
            Some(ResultLifting::IndirectText)
        } else {
            None
        },
        FuncResults::Named(_) => None,
    }
}

/// Executable lowering dispatch, equal to the spec-level
/// [`spec_lowering_of`].
pub fn lowering_of(g: &TypeGraph, t: TypeRef) -> (r: Option<ParamLowering>)
    ensures
        r == spec_lowering_of(*g, t),
{
    if is_scalar_exec(t) {
        return Some(ParamLowering::Direct);
    }
    match t {
        TypeRef::Text => Some(ParamLowering::TextPtrLen),
        TypeRef::Id(i) => {
            if i < g.defs.len() {
                match &g.defs[i] {
                    TypeDef::List(e) => match elem_kind_of(*e) {
                        Some(k) => Some(ParamLowering::ListPtrLen(k)),
                        None => None,
                    },
                    _ => None,
                }
            } else {
                None
            }
        },
        _ => None,
    }
}

/// The plan is the right one for this (marshaled) signature: one lowering
/// per parameter, pointwise as the dispatch prescribes, and the prescribed
/// lifting.
pub open spec fn plan_matches(g: TypeGraph, sig: FunctionSignature, p: WrapperPlan) -> bool {
    &&& !signature_scalar(sig)
    &&& p.lowerings@.len() == sig.params@.len()
    &&& forall|i: int|
        0 <= i < sig.params@.len() ==> spec_lowering_of(g, (#[trigger] sig.params@[i]).1) == Some(
            p.lowerings@[i],
        )
    &&& spec_lifting_of(sig.results) == Some(p.lifting)
}

/// The error is the right one for this signature: the first unsupported
/// parameter with its type, or — with every parameter lowerable — the
/// unsupported result shape.
pub open spec fn plan_error_matches(g: TypeGraph, sig: FunctionSignature, e: GenError) -> bool {
    match e {
        GenError::UnsupportedParam { index, ty } => {
            &&& !signature_scalar(sig)
            &&& (index as int) < sig.params@.len()
            &&& ty == sig.params@[index as int].1
            &&& spec_lowering_of(g, ty) is None
            &&& forall|j: int|
                0 <= j < index ==> spec_lowering_of(g, (#[trigger] sig.params@[j]).1) is Some
        },
        GenError::UnsupportedResult => {
            &&& !signature_scalar(sig)
            &&& (forall|j: int|
                0 <= j < sig.params@.len() ==> spec_lowering_of(
                    g,
                    (#[trigger] sig.params@[j]).1,
                ) is Some)
            &&& spec_lifting_of(sig.results) is None
        },
        _ => false,
    }
}

/// The binding is the right one for this signature: direct exactly for the
/// scalar fast path, a matching wrapper plan otherwise.
pub open spec fn binding_matches(g: TypeGraph, sig: FunctionSignature, b: Binding) -> bool {
    match b {
        Binding::Direct => signature_scalar(sig),
        Binding::Wrapped(p) => plan_matches(g, sig, p),
    }
}

/// The engine can bind this signature: it is scalar, or every parameter is
/// lowerable and the result shape is liftable.
pub open spec fn plannable(g: TypeGraph, sig: FunctionSignature) -> bool {
    ||| signature_scalar(sig)
    ||| {
        &&& forall|i: int|
            0 <= i < sig.params@.len() ==> spec_lowering_of(
                g,
                (#[trigger] sig.params@[i]).1,
            ) is Some
        &&& spec_lifting_of(sig.results) is Some
    }
}

/// Plan one function: the scalar fast path produces a direct binding and
/// no wrapper; every other signature gets a wrapper plan, or an explicit
/// unsupported-type error naming the offending type — never a lossy or
/// partial wrapper.
pub fn plan_function(g: &TypeGraph, sig: &FunctionSignature) -> (r: Result<Binding, GenError>)
    ensures
        (r == Ok::<Binding, GenError>(Binding::Direct)) <==> signature_scalar(*sig),
        match r {
            Ok(b) => binding_matches(*g, *sig, b),
            Err(e) => plan_error_matches(*g, *sig, e),
        },
{
    match classify(sig) {
        Classification::Scalar => Ok(Binding::Direct),
        Classification::Marshaled => {
            let n = sig.params.len();
            let mut lowerings: Vec<ParamLowering> = Vec::new();
            let mut i: usize = 0;
            while i < n
                invariant
                    i <= n,
                    n == sig.params@.len(),
                    !signature_scalar(*sig),
                    lowerings@.len() == i,
                    forall|j: int|
                        0 <= j < i ==> spec_lowering_of(*g, (#[trigger] sig.params@[j]).1)
                            == Some(lowerings@[j]),
                decreases n - i,
            {
                match lowering_of(g, sig.params[i].1) {
                    Some(l) => {
                        lowerings.push(l);
                    },
                    None => {
                        return Err(GenError::UnsupportedParam { index: i, ty: sig.params[i].1 });
                    },
                }
                i += 1;
            }
            let lifting = match &sig.results {
                FuncResults::Anon(t) => {
                    if is_scalar_exec(*t) {
                        ResultLifting::Direct
                    } else {
                        match t {
                            TypeRef::Text => ResultLifting::IndirectText,
                            _ => {
                                return Err(GenError::UnsupportedResult);
                            },
                        }
                    }
                },
                FuncResults::Named(_) => {
                    return Err(GenError::UnsupportedResult);
                },
            };
            Ok(Binding::Wrapped(WrapperPlan { lowerings, lifting }))
        },
    }
}

/// What lowering one parameter does, at the level of views: the slots it
/// contributes and the memory state it leaves, or the typed failure.
pub open spec fn spec_lower_one(l: ParamLowering, a: Value, mem: Seq<u8>) -> Result<
    (Seq<u64>, Seq<u8>),
    MarshalError,
> {
    match l {
        ParamLowering::Direct => match a {
            Value::Scalar(v) => Ok((seq![v], mem)),
            _ => Err(MarshalError::TypeMismatch),
        },
        ParamLowering::TextPtrLen => match a {
            Value::Text(b) => match spec_encode_text(mem, b@) {
                Ok((m1, p, len)) => Ok((seq![p as u64, len as u64], m1)),
                Err(e) => Err(e),
            },
            _ => Err(MarshalError::TypeMismatch),
        },
        ParamLowering::ListPtrLen(k) => match a {
            Value::List(vs) => match spec_store_list(mem, vs@, k) {
                Ok((m1, p, len)) => Ok((seq![p as u64, len as u64], m1)),
                Err(e) => Err(e),
            },
            _ => Err(MarshalError::TypeMismatch),
        },
    }
}

/// What lowering a whole argument list does: each parameter in declaration
/// order, threading the memory through, the slots in the same left-to-right
/// order; the first failure aborts the call.
pub open spec fn spec_lower(ls: Seq<ParamLowering>, args: Seq<Value>, mem: Seq<u8>) -> Result<
    (Seq<u64>, Seq<u8>),
    MarshalError,
>
    recommends
        ls.len() == args.len(),
    decreases ls.len(),
{
    if ls.len() == 0 {
        Ok((Seq::empty(), mem))
    } else {
        match spec_lower_one(ls[0], args[0], mem) {
            Ok((slots, m1)) => match spec_lower(ls.drop_first(), args.drop_first(), m1) {
                Ok((rest, m2)) => Ok((slots + rest, m2)),
                Err(e) => Err(e),
            },
            Err(e) => Err(e),
        }
    }
}

/// The flattening arity of a lowered parameter list: one slot for a scalar
/// pass-through, always exactly two — pointer first, then length — for a
/// text or list parameter.
pub open spec fn flat_arity(ls: Seq<ParamLowering>) -> int
    decreases ls.len(),
{
    if ls.len() == 0 {
        0
    } else {
        (match ls[0] {
            ParamLowering::Direct => 1int,
            ParamLowering::TextPtrLen => 2,
            ParamLowering::ListPtrLen(_) => 2,
        }) + flat_arity(ls.drop_first())
    }
}

/// Law: a successful lowering produces exactly the flattening arity of the
/// plan — every parameter has a well-defined, finite number of scalar
/// slots, two for each pointer/length pair.
pub proof fn lemma_lower_arity(ls: Seq<ParamLowering>, args: Seq<Value>, mem: Seq<u8>)
    requires
        spec_lower(ls, args, mem) is Ok,
    ensures
        spec_lower(ls, args, mem)->Ok_0.0.len() == flat_arity(ls),
    decreases ls.len(),
{
    if ls.len() > 0 {
        let (slots, m1) = spec_lower_one(ls[0], args[0], mem)->Ok_0;
        lemma_lower_arity(ls.drop_first(), args.drop_first(), m1);
    }
}

/// What lifting the raw export return value yields: the scalar itself, or
/// the text read through the indirect pointer/length pair.
pub enum LiftedValue {
    Scalar(u64),
    Text(Seq<u8>),
}

/// The exec value delivered to the caller matches the spec-level lifted
/// value.
pub open spec fn value_matches(v: Value, lv: LiftedValue) -> bool {
    match (v, lv) {
        (Value::Scalar(a), LiftedValue::Scalar(b)) => a == b,
        (Value::Text(b), LiftedValue::Text(s)) => b@ == s,
        _ => false,
    }
}

/// What lifting does, at the level of views: a direct scalar, or the two
/// little-endian 4-byte words at the returned pointer — data pointer first,
/// then byte length — decoded as UTF-8.
pub open spec fn spec_lift(l: ResultLifting, raw: u64, mem: Seq<u8>) -> Result<
    LiftedValue,
    MarshalError,
> {
    match l {
        ResultLifting::Direct => Ok(LiftedValue::Scalar(raw)),
        ResultLifting::IndirectText => if raw + 8 > mem.len() {
            Err(MarshalError::OutOfBounds)
        } else {
            let p = le_val_of(mem.subrange(raw as int, raw as int + 4));
            let len = le_val_of(mem.subrange(raw as int + 4, raw as int + 8));
            match spec_decode_text(mem, p as int, len as int) {
                Ok(b) => Ok(LiftedValue::Text(b)),
                Err(e) => Err(e),
            }
        },
    }
}

/// A marshaled call that has been lowered and is waiting for the export's
/// raw return value.
#[derive(Debug)]
pub struct MarshaledCall {
    pub lifting: ResultLifting,
}

/// A call whose result is decoded but whose release hook has not run yet:
/// the value is delivered only through [`PendingRelease::release_done`].
#[derive(Debug)]
pub struct PendingRelease {
    value: Value,
}

impl PendingRelease {
    /// The decoded value locked inside.
    pub closed spec fn spec_value(self) -> Value {
        self.value
    }

    /// The host reports that the release hook has run with the raw handle;
    /// only now is the decoded value delivered.
    pub fn release_done(self) -> (v: Value)
        ensures
            v == self.spec_value(),
    {
        self.value
    }
}

/// The host's next obligation after the result is lifted.
#[derive(Debug)]
pub enum CallOutcome {
    /// No release hook: the decoded value is delivered at once.
    Finished(Value),
    /// A release hook is declared: call it with this raw result handle,
    /// then collect the value. It is handed out exactly once.
    NeedsRelease(u64, PendingRelease),
}

/// Lower the arguments of a marshaled call. On success the host must
/// invoke the export with exactly these flattened slots, in order, and
/// hand the raw return value to [`MarshaledCall::export_returned`].
pub fn begin_call(plan: &WrapperPlan, args: &Vec<Value>, mem: &mut LinearMemory) -> (r: Result<
    (MarshaledCall, Vec<u64>),
    MarshalError,
>)
    requires
        old(mem).wf(),
        args@.len() == plan.lowerings@.len(),
    ensures
        final(mem).wf(),
        match r {
            Ok((c, flat)) => {
                &&& spec_lower(plan.lowerings@, args@, old(mem)@) == Ok::<_, MarshalError>(
                    (flat@, final(mem)@),
                )
                &&& c.lifting == plan.lifting
            },
            Err(e) => spec_lower(plan.lowerings@, args@, old(mem)@) == Err::<(Seq<u64>, Seq<u8>), _>(
                e,
            ),
        },
{
    let n = plan.lowerings.len();
    let mut flat: Vec<u64> = Vec::new();
    let mut i: usize = 0;
    proof {
        assert(plan.lowerings@.skip(0) =~= plan.lowerings@);
        assert(args@.skip(0) =~= args@);
        assert forall|s: Seq<u64>, m: Seq<u8>|
            spec_lower(plan.lowerings@.skip(0), args@.skip(0), mem@) == Ok::<_, MarshalError>(
                (s, m),
            ) implies spec_lower(plan.lowerings@, args@, old(mem)@) == Ok::<_, MarshalError>(
            (flat@ + s, m),
        ) by {
            assert(flat@ + s =~= s);
        }
    }
    while i < n
        invariant
            i <= n,
            n == plan.lowerings@.len(),
            args@.len() == n,
            mem.wf(),
            forall|s: Seq<u64>, m: Seq<u8>|
                spec_lower(plan.lowerings@.skip(i as int), args@.skip(i as int), mem@)
                    == Ok::<_, MarshalError>((s, m)) ==> spec_lower(
                    plan.lowerings@,
                    args@,
                    old(mem)@,
                ) == Ok::<_, MarshalError>((flat@ + s, m)),
            forall|e: MarshalError|
                spec_lower(plan.lowerings@.skip(i as int), args@.skip(i as int), mem@)
                    == Err::<(Seq<u64>, Seq<u8>), _>(e) ==> spec_lower(
                    plan.lowerings@,
                    args@,
                    old(mem)@,
                ) == Err::<(Seq<u64>, Seq<u8>), _>(e),
        decreases n - i,
    {
        let ghost pre_flat = flat@;
        let ghost pre_mem = mem@;
        let ghost tail = plan.lowerings@.skip(i as int);
        proof {
            assert(tail[0] == plan.lowerings@[i as int]);
            assert(tail.drop_first() =~= plan.lowerings@.skip(i as int + 1));
            assert(args@.skip(i as int)[0] == args@[i as int]);
            assert(args@.skip(i as int).drop_first() =~= args@.skip(i as int + 1));
        }
        let step: Result<(), MarshalError> = match &plan.lowerings[i] {
            ParamLowering::Direct => match &args[i] {
                Value::Scalar(v) => {
                    flat.push(*v);
                    Ok(())
                },
                _ => Err(MarshalError::TypeMismatch),
            },
            ParamLowering::TextPtrLen => match &args[i] {
                Value::Text(b) => match encode_text(mem, b) {
                    Ok((p, len)) => {
                        flat.push(p as u64);
                        flat.push(len as u64);
                        Ok(())
                    },
                    Err(e) => Err(e),
                },
                _ => Err(MarshalError::TypeMismatch),
            },
            ParamLowering::ListPtrLen(k) => match &args[i] {
                Value::List(vs) => match store_list(mem, vs, *k) {
                    Ok((p, len)) => {
                        flat.push(p as u64);
                        flat.push(len as u64);
                        Ok(())
                    },
                    Err(e) => Err(e),
                },
                _ => Err(MarshalError::TypeMismatch),
            },
        };
        match step {
            Ok(()) => {
                proof {
                    let one = spec_lower_one(plan.lowerings@[i as int], args@[i as int], pre_mem);
                    assert(one is Ok);
                    let (slots, m1) = one->Ok_0;
                    assert(m1 == mem@);
                    assert(flat@ =~= pre_flat + slots);
                    assert forall|s: Seq<u64>, m: Seq<u8>|
                        spec_lower(
                            plan.lowerings@.skip(i as int + 1),
                            args@.skip(i as int + 1),
                            mem@,
                        ) == Ok::<_, MarshalError>((s, m)) implies spec_lower(
                        plan.lowerings@,
                        args@,
                        old(mem)@,
                    ) == Ok::<_, MarshalError>((flat@ + s, m)) by {
                        assert(spec_lower(tail, args@.skip(i as int), pre_mem)
                            == Ok::<_, MarshalError>((slots + s, m)));
                        assert(pre_flat + (slots + s) =~= (pre_flat + slots) + s);
                    }
                }
            },
            Err(e) => {
                proof {
                    let one = spec_lower_one(plan.lowerings@[i as int], args@[i as int], pre_mem);
                    assert(one == Err::<(Seq<u64>, Seq<u8>), _>(e));
                    assert(spec_lower(tail, args@.skip(i as int), pre_mem)
                        == Err::<(Seq<u64>, Seq<u8>), _>(e));
                }
                return Err(e);
            },
        }
        i += 1;
    }
    proof {
        assert(plan.lowerings@.skip(n as int) =~= Seq::<ParamLowering>::empty());
        assert(args@.skip(n as int) =~= Seq::<Value>::empty());
        assert(flat@ + Seq::<u64>::empty() =~= flat@);
    }
    Ok((MarshaledCall { lifting: plan.lifting }, flat))
}

impl MarshaledCall {
    /// The export has returned: lift the result out of linear memory now.
    /// Without a release hook the decoded value is delivered at once; with
    /// one, the host is ordered to call the hook with the raw handle first,
    /// and the value stays locked until [`PendingRelease::release_done`].
    /// A failed lift is a typed error, and no release obligation is issued.
    pub fn export_returned(self, raw: u64, hook_present: bool, mem: &LinearMemory) -> (r: Result<
        CallOutcome,
        MarshalError,
    >)
        requires
            mem.wf(),
        ensures
            match r {
                Ok(out) => match spec_lift(self.lifting, raw, mem@) {
                    Ok(lv) => match out {
                        CallOutcome::Finished(v) => !hook_present && value_matches(v, lv),
                        CallOutcome::NeedsRelease(h, pend) => hook_present && h == raw
                            && value_matches(pend.spec_value(), lv),
                    },
                    Err(_) => false,
                },
                Err(e) => spec_lift(self.lifting, raw, mem@) == Err::<LiftedValue, _>(e),
            },
    {
        let value: Value = match self.lifting {
            ResultLifting::Direct => Value::Scalar(raw),
            ResultLifting::IndirectText => {
                let size = mem.size();
                if raw > 0xFFFF_FFFF || raw as u32 > size || size - (raw as u32) < 8 {
                    return Err(MarshalError::OutOfBounds);
                }
                let p = mem.read_le(raw as u32, 4);
                let len = mem.read_le(raw as u32 + 4, 4);
                proof {
                    reveal_with_fuel(crate::memory::pow256, 5);
                    assert(crate::memory::pow256(4) == 0x1_0000_0000);
                }
                match decode_text(mem, p as u32, len as u32) {
                    Ok(b) => Value::Text(b),
                    Err(e) => {
                        return Err(e);
                    },
                }
            },
        };
        if hook_present {
            Ok(CallOutcome::NeedsRelease(raw, PendingRelease { value }))
        } else {
            Ok(CallOutcome::Finished(value))
        }
    }
}

} // verus!
