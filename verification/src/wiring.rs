//! Import/export wiring: the two-level name mapping handed to module
//! instantiation, and the export mapping re-exposed to the host under
//! case-converted names.
//!
//! Binding identifiers and host-visible names are lower-camel-case forms of
//! the interface and function names; the conversion itself is heck's.

use vstd::prelude::*;
use vstd::string::StringExecFns;
use crate::classify::signature_scalar;
use crate::errors::GenError;
use crate::ty::{FuncResults, FunctionSignature, TypeDef, TypeGraph, TypeRef};
use crate::wrapper::{
    binding_matches, plan_error_matches, plan_function, plannable, spec_lowering_of, Binding,
};

verus! {

/// What heck's lower-camel-case conversion returns for these characters.
pub uninterp spec fn lower_camel_of(s: Seq<char>) -> Seq<char>;

/// Relies on heck::ToLowerCamelCase::to_lower_camel_case for `str`: a
/// deterministic case conversion whose result is a function of the input
/// characters alone; an empty input gives an empty result.
#[verifier::external_body]
fn to_lower_camel(s: &str) -> (r: String)
    ensures
        r@ == lower_camel_of(s@),
        s@.len() == 0 ==> r@.len() == 0,
{
    heck::ToLowerCamelCase::to_lower_camel_case(s)
}

/// The host-visible (case-converted) name a function is re-exported under.
pub fn host_visible_name(func: &str) -> (r: String)
    ensures
        r@ == lower_camel_of(func@),
{
    to_lower_camel(func)
}

/// The identifier an imported interface function is bound to in the
/// generated source.
pub fn import_binding_ident(iface: &str, func: &str) -> (r: String)
    ensures
        r@ == "wasm_import_"@ + lower_camel_of(iface@) + "_"@ + lower_camel_of(func@),
{
    let mut s = String::from_str("wasm_import_");
    let a = to_lower_camel(iface);
    s.append(a.as_str());
    s.append("_");
    let b = to_lower_camel(func);
    s.append(b.as_str());
    s
}

/// The identifier a root-level (uninterfaced) imported function is bound
/// to in the generated source.
pub fn root_import_binding_ident(func: &str) -> (r: String)
    ensures
        r@ == "wasm_import_root_function_"@ + lower_camel_of(func@),
{
    let mut s = String::from_str("wasm_import_root_function_");
    let a = to_lower_camel(func);
    s.append(a.as_str());
    s
}

/// The two-level import mapping the module instantiation step requires:
/// outer key an interface name (or the root sentinel), inner pairs a
/// function name and the host binding identifier wired to it.
pub struct ImportObject {
    pub groups: Vec<(String, Vec<(String, String)>)>,
}

/// The sentinel key that groups the top-level (uninterfaced) imports.
pub open spec fn root_key() -> Seq<char> {
    "$root"@
}

/// Build the import object: one group per interface, in order, each
/// function wired to its interface-qualified binding identifier, and a
/// final root group for the uninterfaced imports.
pub fn build_import_object(interfaces: &Vec<(String, Vec<String>)>, root_funcs: &Vec<String>) -> (r:
    ImportObject)
    ensures
        r.groups@.len() == interfaces@.len() + 1,
        forall|i: int|
            0 <= i < interfaces@.len() ==> {
                &&& (#[trigger] r.groups@[i]).0@ == (#[trigger] interfaces@[i]).0@
                &&& r.groups@[i].1@.len() == interfaces@[i].1@.len()
                &&& forall|j: int|
                    0 <= j < interfaces@[i].1@.len() ==> {
                        &&& (#[trigger] r.groups@[i].1@[j]).0@ == interfaces@[i].1@[j]@
                        &&& r.groups@[i].1@[j].1@ == "wasm_import_"@ + lower_camel_of(
                            interfaces@[i].0@,
                        ) + "_"@ + lower_camel_of(interfaces@[i].1@[j]@)
                    }
            },
        r.groups@[interfaces@.len() as int].0@ == root_key(),
        r.groups@[interfaces@.len() as int].1@.len() == root_funcs@.len(),
        forall|j: int|
            0 <= j < root_funcs@.len() ==> {
                &&& (#[trigger] r.groups@[interfaces@.len() as int].1@[j]).0@ == root_funcs@[j]@
                &&& r.groups@[interfaces@.len() as int].1@[j].1@ == "wasm_import_root_function_"@
                    + lower_camel_of(root_funcs@[j]@)
            },
{
    let mut groups: Vec<(String, Vec<(String, String)>)> = Vec::new();
    let n = interfaces.len();
    let mut i: usize = 0;
    while i < n
        invariant
            i <= n,
            n == interfaces@.len(),
            groups@.len() == i,
            forall|x: int|
                0 <= x < i ==> {
                    &&& (#[trigger] groups@[x]).0@ == (#[trigger] interfaces@[x]).0@
                    &&& groups@[x].1@.len() == interfaces@[x].1@.len()
                    &&& forall|j: int|
                        0 <= j < interfaces@[x].1@.len() ==> {
                            &&& (#[trigger] groups@[x].1@[j]).0@ == interfaces@[x].1@[j]@
                            &&& groups@[x].1@[j].1@ == "wasm_import_"@ + lower_camel_of(
                                interfaces@[x].0@,
                            ) + "_"@ + lower_camel_of(interfaces@[x].1@[j]@)
                        }
                },
        decreases n - i,
    {
        let iface_name = &interfaces[i].0;
        let funcs = &interfaces[i].1;
        let m = funcs.len();
        let mut entries: Vec<(String, String)> = Vec::new();
        let mut j: usize = 0;
        while j < m
            invariant
                j <= m,
                m == funcs@.len(),
                entries@.len() == j,
                funcs@ == interfaces@[i as int].1@,
                iface_name@ == interfaces@[i as int].0@,
                i < interfaces@.len(),
                forall|y: int|
                    0 <= y < j ==> {
                        &&& (#[trigger] entries@[y]).0@ == funcs@[y]@
                        &&& entries@[y].1@ == "wasm_import_"@ + lower_camel_of(iface_name@) + "_"@
                            + lower_camel_of(funcs@[y]@)
                    },
            decreases m - j,
        {
            let ident = import_binding_ident(iface_name.as_str(), funcs[j].as_str());
            entries.push((funcs[j].clone(), ident));
            j += 1;
        }
        groups.push((iface_name.clone(), entries));
        i += 1;
    }
    let m = root_funcs.len();
    let mut entries: Vec<(String, String)> = Vec::new();
    let mut j: usize = 0;
    while j < m
        invariant
            j <= m,
            m == root_funcs@.len(),
            entries@.len() == j,
            forall|y: int|
                0 <= y < j ==> {
                    &&& (#[trigger] entries@[y]).0@ == root_funcs@[y]@
                    &&& entries@[y].1@ == "wasm_import_root_function_"@ + lower_camel_of(
                        root_funcs@[y]@,
                    )
                },
        decreases m - j,
    {
        let ident = root_import_binding_ident(root_funcs[j].as_str());
        entries.push((root_funcs[j].clone(), ident));
        j += 1;
    }
    groups.push((String::from_str("$root"), entries));
    ImportObject { groups }
}

/// One export as the host sees it: the case-converted host-visible name,
/// the module's own export name, and how it is bound — directly for the
/// scalar fast path, through a wrapper plan otherwise.
#[derive(Debug)]
pub struct ExportEntry {
    pub host_name: String,
    pub export_name: String,
    pub binding: Binding,
}

/// Build the export mapping: every export under its host-visible name,
/// each marshaled export substituted by its wrapper plan and each scalar
/// export bound directly. The first function the engine cannot flatten
/// aborts generation with its index and a typed error.
pub fn build_export_object(g: &TypeGraph, funcs: &Vec<(String, FunctionSignature)>) -> (r: Result<
    Vec<ExportEntry>,
    (usize, GenError),
>)
    ensures
        match r {
            Ok(es) => {
                &&& es@.len() == funcs@.len()
                &&& forall|i: int|
                    0 <= i < funcs@.len() ==> {
                        &&& (#[trigger] es@[i]).export_name@ == (#[trigger] funcs@[i]).0@
                        &&& es@[i].host_name@ == lower_camel_of(funcs@[i].0@)
                        &&& binding_matches(*g, funcs@[i].1, es@[i].binding)
                        &&& (es@[i].binding is Direct <==> signature_scalar(funcs@[i].1))
                    }
            },
            Err((i, e)) => {
                &&& (i as int) < funcs@.len()
                &&& plan_error_matches(*g, funcs@[i as int].1, e)
                &&& !plannable(*g, funcs@[i as int].1)
                &&& forall|j: int| 0 <= j < i ==> plannable(*g, (#[trigger] funcs@[j]).1)
            },
        },
{
    let n = funcs.len();
    let mut es: Vec<ExportEntry> = Vec::new();
    let mut i: usize = 0;
    while i < n
        invariant
            i <= n,
            n == funcs@.len(),
            es@.len() == i,
            forall|x: int|
                0 <= x < i ==> {
                    &&& (#[trigger] es@[x]).export_name@ == (#[trigger] funcs@[x]).0@
                    &&& es@[x].host_name@ == lower_camel_of(funcs@[x].0@)
                    &&& binding_matches(*g, funcs@[x].1, es@[x].binding)
                    &&& (es@[x].binding is Direct <==> signature_scalar(funcs@[x].1))
                },
        decreases n - i,
    {
        let name = &funcs[i].0;
        match plan_function(g, &funcs[i].1) {
            Ok(binding) => {
                let entry = ExportEntry {
                    host_name: host_visible_name(name.as_str()),
                    export_name: name.clone(),
                    binding,
                };
                es.push(entry);
            },
            Err(e) => {
                proof {
                    assert forall|j: int| 0 <= j < i implies plannable(
                        *g,
                        (#[trigger] funcs@[j]).1,
                    ) by {
                        let b = es@[j].binding;
                        assert(binding_matches(*g, funcs@[j].1, b));
                        match b {
                            Binding::Direct => {},
                            Binding::Wrapped(p) => {
                                assert forall|x: int|
                                    0 <= x < funcs@[j].1.params@.len() implies spec_lowering_of(
                                    *g,
                                    (#[trigger] funcs@[j].1.params@[x]).1,
                                ) is Some by {
                                    assert(spec_lowering_of(*g, funcs@[j].1.params@[x].1)
                                        == Some(p.lowerings@[x]));
                                }
                            },
                        }
                    }
                    assert(!plannable(*g, funcs@[i as int].1)) by {
                        match e {
                            GenError::UnsupportedParam { index, ty } => {
                                assert(spec_lowering_of(*g, funcs@[i as int].1.params@[
                                    index as int].1) is None);
                            },
                            _ => {},
                        }
                    }
                }
                return Err((i, e));
            },
        }
        i += 1;
    }
    Ok(es)
}

/// Does the signature take a text parameter?
pub open spec fn sig_has_text_param(sig: FunctionSignature) -> bool {
    exists|j: int| 0 <= j < sig.params@.len() && (#[trigger] sig.params@[j]).1 is Text
}

/// Does the signature return a text value (anonymous or named)?
pub open spec fn sig_has_text_result(sig: FunctionSignature) -> bool {
    match sig.results {
        FuncResults::Anon(t) => t is Text,
        FuncResults::Named(rs) => exists|j: int|
            0 <= j < rs@.len() && (#[trigger] rs@[j]).1 is Text,
    }
}

/// Do any of the exports take a text parameter — so the generated source
/// must include the memory handle, the allocator handle, the encoder and
/// the text-store helper?
pub open spec fn some_text_param(funcs: Seq<(String, FunctionSignature)>) -> bool {
    exists|i: int| 0 <= i < funcs.len() && sig_has_text_param((#[trigger] funcs[i]).1)
}

/// Do any of the exports return a text value — so the generated source
/// must include the memory handle, the decoder and the text-load helper?
pub open spec fn some_text_result(funcs: Seq<(String, FunctionSignature)>) -> bool {
    exists|i: int| 0 <= i < funcs.len() && sig_has_text_result((#[trigger] funcs[i]).1)
}

/// Which runtime helpers the export set needs.
pub struct HelperNeeds {
    /// Some export takes a text parameter: emit the text encoder helper
    /// (and the allocator and memory handles).
    pub text_encoder: bool,
    /// Some export returns a text value: emit the text decoder helper (and
    /// the memory handle).
    pub text_decoder: bool,
}

/// Scan one signature for a text parameter.
fn sig_text_param(sig: &FunctionSignature) -> (r: bool)
    ensures
        r == sig_has_text_param(*sig),
{
    let n = sig.params.len();
    let mut j: usize = 0;
    let mut found = false;
    while j < n
        invariant
            j <= n,
            n == sig.params@.len(),
            found <==> exists|y: int| 0 <= y < j && (#[trigger] sig.params@[y]).1 is Text,
        decreases n - j,
    {
        match sig.params[j].1 {
            TypeRef::Text => {
                found = true;
            },
            _ => {},
        }
        j += 1;
    }
    found
}

/// Scan one signature for a text result.
fn sig_text_result(sig: &FunctionSignature) -> (r: bool)
    ensures
        r == sig_has_text_result(*sig),
{
    match &sig.results {
        FuncResults::Anon(t) => match t {
            TypeRef::Text => true,
            _ => false,
        },
        FuncResults::Named(rs) => {
            let n = rs.len();
            let mut j: usize = 0;
            let mut found = false;
            while j < n
                invariant
                    j <= n,
                    n == rs@.len(),
                    found <==> exists|y: int| 0 <= y < j && (#[trigger] rs@[y]).1 is Text,
                decreases n - j,
            {
                match rs[j].1 {
                    TypeRef::Text => {
                        found = true;
                    },
                    _ => {},
                }
                j += 1;
            }
            found
        },
    }
}

/// Decide which runtime helpers the export set needs: the text encoder
/// when any export takes a text parameter, the text decoder when any
/// export returns a text value — scanning every function, so a text result
/// appearing only after an unrelated text parameter is still seen.
pub fn helpers_needed(funcs: &Vec<(String, FunctionSignature)>) -> (r: HelperNeeds)
    ensures
        r.text_encoder == some_text_param(funcs@),
        r.text_decoder == some_text_result(funcs@),
{
    let n = funcs.len();
    let mut enc = false;
    let mut dec = false;
    let mut i: usize = 0;
    while i < n
        invariant
            i <= n,
            n == funcs@.len(),
            enc <==> exists|x: int| 0 <= x < i && sig_has_text_param((#[trigger] funcs@[x]).1),
            dec <==> exists|x: int| 0 <= x < i && sig_has_text_result((#[trigger] funcs@[x]).1),
        decreases n - i,
    {
        if sig_text_param(&funcs[i].1) {
            enc = true;
        }
        if sig_text_result(&funcs[i].1) {
            dec = true;
        }
        i += 1;
    }
    HelperNeeds { text_encoder: enc, text_decoder: dec }
}

} // verus!
