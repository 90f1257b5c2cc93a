//! The size/align table: for every type in the graph, its byte size and byte
//! alignment, derived structurally and memoized per type identity.
//!
//! The spec-level functions recurse over the graph; they terminate because a
//! well-formed graph only refers backwards, and out-of-range references are
//! given a harmless default. The executable [`SizeAlignTable::fill`] computes
//! every entry once, in definition order, reusing earlier entries, and aborts
//! with a typed error on a malformed graph or a type whose size does not fit
//! a 32-bit size field.

use vstd::prelude::*;
use vstd::arithmetic::div_mod::{
    lemma_div_is_ordered, lemma_fundamental_div_mod, lemma_mod_multiples_basic,
};
use crate::errors::GenError;
use crate::ty::{def_wf, ref_wf, TypeDef, TypeGraph, TypeRef};

verus! {

/// `x` rounded up to the next multiple of `a`.
pub open spec fn align_up(x: int, a: int) -> int {
    ((x + a - 1) / a) * a
}

/// The alignments this engine produces: the power-of-two byte widths.
pub open spec fn valid_align(a: int) -> bool {
    a == 1 || a == 2 || a == 4 || a == 8
}

/// The larger of two integers.
pub open spec fn max_i(a: int, b: int) -> int {
    if a >= b {
        a
    } else {
        b
    }
}

/// Rounding up to a positive alignment never moves a value down, moves it up
/// by less than one alignment step, and lands on a multiple of the alignment.
pub proof fn lemma_align_up(x: int, a: int)
    requires
        x >= 0,
        a >= 1,
    ensures
        align_up(x, a) >= x,
        align_up(x, a) < x + a,
        align_up(x, a) % a == 0,
{
    let y = x + a - 1;
    lemma_fundamental_div_mod(y, a);
    let q = y / a;
    let r = y % a;
    assert(align_up(x, a) == y - r);
    lemma_mod_multiples_basic(q, a);
    assert(align_up(x, a) == q * a);
}

/// Size and alignment of the primitive scalar kinds and of text (text is
/// marshaled as a pointer/length pair of two 4-byte words).
pub open spec fn scalar_or_text_layout(t: TypeRef) -> (int, int) {
    match t {
        TypeRef::Bool => (1, 1),
        TypeRef::Char => (4, 4),
        TypeRef::S8 => (1, 1),
        TypeRef::U8 => (1, 1),
        TypeRef::S16 => (2, 2),
        TypeRef::U16 => (2, 2),
        TypeRef::S32 => (4, 4),
        TypeRef::U32 => (4, 4),
        TypeRef::S64 => (8, 8),
        TypeRef::U64 => (8, 8),
        TypeRef::Float32 => (4, 4),
        TypeRef::Float64 => (8, 8),
        TypeRef::Text => (8, 4),
        TypeRef::Id(_) => (1, 1),
    }
}

/// Size in bytes of the discriminant of a variant or enum with `n` cases.
pub open spec fn disc_size(n: int) -> int {
    if n <= 256 {
        1
    } else if n <= 65536 {
        2
    } else {
        4
    }
}

/// Layout of a flags type with `n` bit names.
pub open spec fn flags_layout(n: int) -> (int, int) {
    if n <= 8 {
        (1, 1)
    } else if n <= 16 {
        (2, 2)
    } else {
        (4 * ((n + 31) / 32), 4)
    }
}

/// Layout of a variant with `n` cases and the given maximal payload layout:
/// the discriminant, padded to the payload alignment, followed by the
/// payload, rounded up to the overall alignment.
pub open spec fn variant_layout(n: int, payload: (int, int)) -> (int, int) {
    let ds = disc_size(n);
    let al = max_i(ds, payload.1);
    (align_up(align_up(ds, payload.1) + payload.0, al), al)
}

/// The field types of a record, in order.
pub open spec fn field_types(fs: Seq<(String, TypeRef)>) -> Seq<TypeRef> {
    fs.map_values(|p: (String, TypeRef)| p.1)
}

/// The case payloads of a variant, in order.
pub open spec fn case_payloads(cs: Seq<(String, Option<TypeRef>)>) -> Seq<Option<TypeRef>> {
    cs.map_values(|p: (String, Option<TypeRef>)| p.1)
}

/// Layout of a type reference in the graph.
pub open spec fn ref_layout(g: TypeGraph, t: TypeRef) -> (int, int)
    decreases
            (match t {
                TypeRef::Id(i) => i as int + 2,
                _ => 0int,
            }),
            0int,
{
    match t {
        TypeRef::Id(i) => def_layout(g, i as int),
        _ => scalar_or_text_layout(t),
    }
}

/// Layout of the definition at index `i` of the graph; out-of-range indices
/// get a harmless default so the function is total.
pub open spec fn def_layout(g: TypeGraph, i: int) -> (int, int)
    decreases i + 1, 0int,
{
    if 0 <= i < g.defs@.len() {
        match g.defs@[i] {
            TypeDef::List(_) => (8, 4),
            TypeDef::Tuple(ts) => struct_layout(g, ts@, i),
            TypeDef::Record(fs) => struct_layout(g, field_types(fs@), i),
            TypeDef::Variant(cs) => variant_layout(
                cs@.len() as int,
                payload_fold(g, case_payloads(cs@), i),
            ),
            TypeDef::Enum(ns) => (disc_size(ns@.len() as int), disc_size(ns@.len() as int)),
            TypeDef::Flags(ns) => flags_layout(ns@.len() as int),
            TypeDef::OptionOf(t) => variant_layout(2, child_layout(g, t, i)),
            TypeDef::ResultOf(ok, err) => variant_layout(2, payload_fold(g, seq![ok, err], i)),
            TypeDef::Alias(t) => child_layout(g, t, i),
            TypeDef::Resource => (4, 4),
        }
    } else {
        (1, 1)
    }
}

/// Layout of a reference standing inside the definition at index `b`: only
/// strictly earlier definitions may be referenced, so later indices get the
/// harmless default.
pub open spec fn child_layout(g: TypeGraph, t: TypeRef, b: int) -> (int, int)
    decreases b, 1int,
{
    match t {
        TypeRef::Id(j) => if 0 <= j < b {
            def_layout(g, j as int)
        } else {
            (1, 1)
        },
        _ => scalar_or_text_layout(t),
    }
}

/// Layout of an optional payload: an absent payload takes no space.
pub open spec fn opt_child_layout(g: TypeGraph, t: Option<TypeRef>, b: int) -> (int, int)
    decreases b, 2int,
{
    match t {
        Some(t) => child_layout(g, t, b),
        None => (0, 1),
    }
}

/// Fold a member list left to right: the end offset after laying every member
/// at its aligned offset, and the maximum member alignment.
pub open spec fn struct_fold(g: TypeGraph, ts: Seq<TypeRef>, b: int) -> (int, int)
    decreases b, 3 + ts.len(),
{
    if ts.len() == 0 {
        (0, 1)
    } else {
        let prev = struct_fold(g, ts.drop_last(), b);
        let c = child_layout(g, ts.last(), b);
        (align_up(prev.0, c.1) + c.0, max_i(prev.1, c.1))
    }
}

/// Layout of a record or tuple: members at aligned offsets, the whole rounded
/// up to the maximum member alignment.
pub open spec fn struct_layout(g: TypeGraph, ts: Seq<TypeRef>, b: int) -> (int, int)
    decreases b, 4 + ts.len(),
{
    let f = struct_fold(g, ts, b);
    (align_up(f.0, f.1), f.1)
}

/// Fold the case payloads of a variant: maximum payload size and maximum
/// payload alignment.
pub open spec fn payload_fold(g: TypeGraph, cs: Seq<Option<TypeRef>>, b: int) -> (int, int)
    decreases b, 3 + cs.len(),
{
    if cs.len() == 0 {
        (0, 1)
    } else {
        let prev = payload_fold(g, cs.drop_last(), b);
        let c = opt_child_layout(g, cs.last(), b);
        (max_i(prev.0, c.0), max_i(prev.1, c.1))
    }
}

/// Every definition layout has a nonnegative size and a power-of-two
/// alignment.
pub proof fn lemma_def_layout_valid(g: TypeGraph, i: int)
    ensures
        def_layout(g, i).0 >= 0,
        valid_align(def_layout(g, i).1),
    decreases i + 1, 0int,
{
    if 0 <= i < g.defs@.len() {
        match g.defs@[i] {
            TypeDef::List(_) => {},
            TypeDef::Tuple(ts) => {
                lemma_struct_layout_valid(g, ts@, i);
            },
            TypeDef::Record(fs) => {
                lemma_struct_layout_valid(g, field_types(fs@), i);
            },
            TypeDef::Variant(cs) => {
                lemma_payload_fold_valid(g, case_payloads(cs@), i);
                lemma_variant_layout_valid(
                    cs@.len() as int,
                    payload_fold(g, case_payloads(cs@), i),
                );
            },
            TypeDef::Enum(_) => {},
            TypeDef::Flags(ns) => {
                let n = ns@.len() as int;
                if n > 16 {
                    assert(4 * ((n + 31) / 32) >= 0) by {
                        lemma_div_is_ordered(0, n + 31, 32);
                    }
                }
            },
            TypeDef::OptionOf(t) => {
                lemma_child_layout_valid(g, t, i);
                lemma_variant_layout_valid(2, child_layout(g, t, i));
            },
            TypeDef::ResultOf(ok, err) => {
                lemma_payload_fold_valid(g, seq![ok, err], i);
                lemma_variant_layout_valid(2, payload_fold(g, seq![ok, err], i));
            },
            TypeDef::Alias(t) => {
                lemma_child_layout_valid(g, t, i);
            },
            TypeDef::Resource => {},
        }
    }
}

/// Validity of [`child_layout`].
pub proof fn lemma_child_layout_valid(g: TypeGraph, t: TypeRef, b: int)
    ensures
        child_layout(g, t, b).0 >= 0,
        valid_align(child_layout(g, t, b).1),
    decreases b, 1int,
{
    match t {
        TypeRef::Id(j) => {
            if 0 <= j < b {
                lemma_def_layout_valid(g, j as int);
            }
        },
        _ => {},
    }
}

/// Validity of [`opt_child_layout`].
pub proof fn lemma_opt_child_layout_valid(g: TypeGraph, t: Option<TypeRef>, b: int)
    ensures
        opt_child_layout(g, t, b).0 >= 0,
        valid_align(opt_child_layout(g, t, b).1),
    decreases b, 2int,
{
    match t {
        Some(t) => {
            lemma_child_layout_valid(g, t, b);
        },
        None => {},
    }
}

/// Validity of [`struct_fold`].
pub proof fn lemma_struct_fold_valid(g: TypeGraph, ts: Seq<TypeRef>, b: int)
    ensures
        struct_fold(g, ts, b).0 >= 0,
        valid_align(struct_fold(g, ts, b).1),
    decreases b, 3 + ts.len(),
{
    if ts.len() > 0 {
        lemma_struct_fold_valid(g, ts.drop_last(), b);
        lemma_child_layout_valid(g, ts.last(), b);
        let prev = struct_fold(g, ts.drop_last(), b);
        let c = child_layout(g, ts.last(), b);
        lemma_align_up(prev.0, c.1);
    }
}

/// Validity of [`struct_layout`].
pub proof fn lemma_struct_layout_valid(g: TypeGraph, ts: Seq<TypeRef>, b: int)
    ensures
        struct_layout(g, ts, b).0 >= 0,
        valid_align(struct_layout(g, ts, b).1),
        struct_layout(g, ts, b).0 >= struct_fold(g, ts, b).0,
    decreases b, 4 + ts.len(),
{
    lemma_struct_fold_valid(g, ts, b);
    let f = struct_fold(g, ts, b);
    lemma_align_up(f.0, f.1);
}

/// Validity of [`payload_fold`].
pub proof fn lemma_payload_fold_valid(g: TypeGraph, cs: Seq<Option<TypeRef>>, b: int)
    ensures
        payload_fold(g, cs, b).0 >= 0,
        valid_align(payload_fold(g, cs, b).1),
    decreases b, 3 + cs.len(),
{
    if cs.len() > 0 {
        lemma_payload_fold_valid(g, cs.drop_last(), b);
        lemma_opt_child_layout_valid(g, cs.last(), b);
    }
}

/// Validity of [`variant_layout`] for a valid payload layout.
pub proof fn lemma_variant_layout_valid(n: int, payload: (int, int))
    requires
        payload.0 >= 0,
        valid_align(payload.1),
    ensures
        variant_layout(n, payload).0 >= 0,
        valid_align(variant_layout(n, payload).1),
{
    let ds = disc_size(n);
    lemma_align_up(ds, payload.1);
    let inner = align_up(ds, payload.1) + payload.0;
    lemma_align_up(inner, max_i(ds, payload.1));
}

/// Validity of [`ref_layout`].
pub proof fn lemma_ref_layout_valid(g: TypeGraph, t: TypeRef)
    ensures
        ref_layout(g, t).0 >= 0,
        valid_align(ref_layout(g, t).1),
{
    match t {
        TypeRef::Id(i) => {
            lemma_def_layout_valid(g, i as int);
        },
        _ => {},
    }
}

/// The end offset of a member fold never shrinks as more members are added.
pub proof fn lemma_struct_fold_prefix_le(g: TypeGraph, ts: Seq<TypeRef>, b: int, k: int)
    requires
        0 <= k <= ts.len(),
    ensures
        struct_fold(g, ts.take(k), b).0 <= struct_fold(g, ts, b).0,
    decreases ts.len() - k,
{
    if k == ts.len() {
        assert(ts.take(k) =~= ts);
    } else {
        let cur = ts.take(k);
        let next = ts.take(k + 1);
        assert(next.drop_last() =~= cur);
        assert(next.last() == ts[k]);
        let prev = struct_fold(g, cur, b);
        let c = child_layout(g, ts[k], b);
        lemma_struct_fold_valid(g, cur, b);
        lemma_child_layout_valid(g, ts[k], b);
        lemma_align_up(prev.0, c.1);
        assert(struct_fold(g, next, b).0 >= prev.0);
        lemma_struct_fold_prefix_le(g, ts, b, k + 1);
    }
}

/// The first `k` entries match the spec-level definition layouts.
pub open spec fn entries_match(g: TypeGraph, entries: Seq<(u32, u32)>, k: int) -> bool {
    forall|j: int|
        0 <= j < k ==> {
            &&& (#[trigger] entries[j]).0 as int == def_layout(g, j).0
            &&& entries[j].1 as int == def_layout(g, j).1
        }
}

/// The memoized size/align table: one entry per definition in the graph,
/// computed once in definition order.
pub struct SizeAlignTable {
    pub entries: Vec<(u32, u32)>,
}

impl SizeAlignTable {
    /// The table holds exactly the spec-level layout of every definition.
    pub open spec fn wf(self, g: TypeGraph) -> bool {
        &&& self.entries@.len() == g.defs@.len()
        &&& entries_match(g, self.entries@, g.defs@.len() as int)
    }

    /// Compute the whole table, or abort: on a malformed graph, and on the
    /// first definition whose byte size does not fit a 32-bit size field.
    pub fn fill(g: &TypeGraph) -> (r: Result<SizeAlignTable, GenError>)
        ensures
            match r {
                Ok(t) => g.wf() && t.wf(*g),
                Err(e) => match e {
                    GenError::MalformedGraph => !g.wf(),
                    GenError::TypeTooLarge { id } => {
                        &&& g.wf()
                        &&& (id as int) < g.defs@.len()
                        &&& def_layout(*g, id as int).0 > u32::MAX
                        &&& forall|j: int| 0 <= j < id ==> def_layout(*g, j).0 <= u32::MAX
                    },
                    _ => false,
                },
            },
    {
        if !g.check_wf() {
            return Err(GenError::MalformedGraph);
        }
        let n = g.defs.len();
        let mut entries: Vec<(u32, u32)> = Vec::new();
        let mut i: usize = 0;
        while i < n
            invariant
                i <= n,
                n == g.defs@.len(),
                g.wf(),
                entries@.len() == i,
                entries_match(*g, entries@, i as int),
            decreases n - i,
        {
            match def_entry(g, &entries, i) {
                Ok(e) => {
                    entries.push(e);
                },
                Err(e) => {
                    proof {
                        assert forall|j: int| 0 <= j < i implies def_layout(*g, j).0
                            <= u32::MAX by {
                            assert(entries@[j].0 as int == def_layout(*g, j).0);
                        }
                    }
                    return Err(e);
                },
            }
            i += 1;
        }
        Ok(SizeAlignTable { entries })
    }

    /// Read the memoized layout of any reference: earlier work is reused, a
    /// primitive is answered directly.
    pub fn size_align(&self, g: &TypeGraph, t: TypeRef) -> (r: (u32, u32))
        requires
            self.wf(*g),
            ref_wf(t, g.defs@.len() as int),
        ensures
            r.0 as int == ref_layout(*g, t).0,
            r.1 as int == ref_layout(*g, t).1,
            valid_align(r.1 as int),
    {
        proof {
            lemma_ref_layout_valid(*g, t);
        }
        match t {
            TypeRef::Id(i) => self.entries[i],
            TypeRef::Bool => (1, 1),
            TypeRef::Char => (4, 4),
            TypeRef::S8 => (1, 1),
            TypeRef::U8 => (1, 1),
            TypeRef::S16 => (2, 2),
            TypeRef::U16 => (2, 2),
            TypeRef::S32 => (4, 4),
            TypeRef::U32 => (4, 4),
            TypeRef::S64 => (8, 8),
            TypeRef::U64 => (8, 8),
            TypeRef::Float32 => (4, 4),
            TypeRef::Float64 => (8, 8),
            TypeRef::Text => (8, 4),
        }
    }
}

/// Law: the table is a function of the graph alone — two tables filled for
/// the same graph hold the same entries, so recomputation is idempotent.
pub proof fn lemma_table_idempotent(t1: SizeAlignTable, t2: SizeAlignTable, g: TypeGraph)
    requires
        t1.wf(g),
        t2.wf(g),
    ensures
        t1.entries@ == t2.entries@,
{
    assert forall|j: int| 0 <= j < t1.entries@.len() implies t1.entries@[j] == t2.entries@[j] by {
        lemma_def_layout_valid(g, j);
    }
    assert(t1.entries@ =~= t2.entries@);
}

/// Exact rounding of a u64 offset up to a small alignment.
fn align_up_u64(x: u64, a: u64) -> (r: u64)
    requires
        1 <= a <= 8,
        x <= 0x2_0000_0000,
    ensures
        r as int == align_up(x as int, a as int),
        x <= r < x + a,
{
    proof {
        lemma_align_up(x as int, a as int);
    }
    ((x + a - 1) / a) * a
}

/// The memoized layout of a reference standing inside definition `i`,
/// answered from the entries computed so far.
fn child_entry(g: &TypeGraph, entries: &Vec<(u32, u32)>, t: TypeRef, i: usize) -> (r: (
    u32,
    u32,
))
    requires
        entries@.len() == i,
        entries_match(*g, entries@, i as int),
        ref_wf(t, i as int),
    ensures
        r.0 as int == child_layout(*g, t, i as int).0,
        r.1 as int == child_layout(*g, t, i as int).1,
        valid_align(r.1 as int),
{
    proof {
        lemma_child_layout_valid(*g, t, i as int);
    }
    match t {
        TypeRef::Id(j) => entries[j],
        TypeRef::Bool => (1, 1),
        TypeRef::Char => (4, 4),
        TypeRef::S8 => (1, 1),
        TypeRef::U8 => (1, 1),
        TypeRef::S16 => (2, 2),
        TypeRef::U16 => (2, 2),
        TypeRef::S32 => (4, 4),
        TypeRef::U32 => (4, 4),
        TypeRef::S64 => (8, 8),
        TypeRef::U64 => (8, 8),
        TypeRef::Float32 => (4, 4),
        TypeRef::Float64 => (8, 8),
        TypeRef::Text => (8, 4),
    }
}

/// The discriminant size for `n` cases.
fn disc_size_exec(n: usize) -> (r: u32)
    ensures
        r as int == disc_size(n as int),
        valid_align(r as int),
{
    if n <= 256 {
        1
    } else if n <= 65536 {
        2
    } else {
        4
    }
}

/// Size and alignment of a variant with `n_cases` cases and the given
/// maximal payload layout, or the too-large error for definition `i`.
fn variant_entry(n_cases: usize, ps: u32, pa: u32, i: usize) -> (r: Result<(u32, u32), GenError>)
    requires
        valid_align(pa as int),
    ensures
        match r {
            Ok(e) => {
                &&& e.0 as int == variant_layout(n_cases as int, (ps as int, pa as int)).0
                &&& e.1 as int == variant_layout(n_cases as int, (ps as int, pa as int)).1
            },
            Err(e) => {
                &&& e == (GenError::TypeTooLarge { id: i })
                &&& variant_layout(n_cases as int, (ps as int, pa as int)).0 > u32::MAX
            },
        },
{
    let ds = disc_size_exec(n_cases);
    let al: u32 = if ds >= pa {
        ds
    } else {
        pa
    };
    let inner = align_up_u64(ds as u64, pa as u64) + ps as u64;
    let size = align_up_u64(inner, al as u64);
    if size > 0xFFFF_FFFF {
        Err(GenError::TypeTooLarge { id: i })
    } else {
        Ok((size as u32, al))
    }
}

/// Size and alignment of a record or tuple with the given member types, or
/// the too-large error for definition `i`.
fn struct_entry(g: &TypeGraph, entries: &Vec<(u32, u32)>, ts: &Vec<TypeRef>, i: usize) -> (r:
    Result<(u32, u32), GenError>)
    requires
        entries@.len() == i,
        entries_match(*g, entries@, i as int),
        forall|j: int| 0 <= j < ts@.len() ==> ref_wf(#[trigger] ts@[j], i as int),
    ensures
        match r {
            Ok(e) => {
                &&& e.0 as int == struct_layout(*g, ts@, i as int).0
                &&& e.1 as int == struct_layout(*g, ts@, i as int).1
            },
            Err(e) => {
                &&& e == (GenError::TypeTooLarge { id: i })
                &&& struct_layout(*g, ts@, i as int).0 > u32::MAX
            },
        },
{
    let n = ts.len();
    let mut k: usize = 0;
    let mut end: u64 = 0;
    let mut al: u32 = 1;
    proof {
        assert(ts@.take(0) =~= Seq::<TypeRef>::empty());
    }
    while k < n
        invariant
            k <= n,
            n == ts@.len(),
            entries@.len() == i,
            entries_match(*g, entries@, i as int),
            forall|j: int| 0 <= j < ts@.len() ==> ref_wf(#[trigger] ts@[j], i as int),
            end as int == struct_fold(*g, ts@.take(k as int), i as int).0,
            al as int == struct_fold(*g, ts@.take(k as int), i as int).1,
            end <= 0xFFFF_FFFF,
            valid_align(al as int),
        decreases n - k,
    {
        let c = child_entry(g, entries, ts[k], i);
        let aligned = align_up_u64(end, c.1 as u64);
        let new_end = aligned + c.0 as u64;
        proof {
            let cur = ts@.take(k as int);
            let next = ts@.take(k as int + 1);
            assert(next.drop_last() =~= cur);
            assert(next.last() == ts@[k as int]);
            lemma_struct_fold_valid(*g, next, i as int);
        }
        if new_end > 0xFFFF_FFFF {
            proof {
                lemma_struct_fold_prefix_le(*g, ts@, i as int, k as int + 1);
                lemma_struct_layout_valid(*g, ts@, i as int);
            }
            return Err(GenError::TypeTooLarge { id: i });
        }
        end = new_end;
        al = if al >= c.1 {
            al
        } else {
            c.1
        };
        k += 1;
    }
    proof {
        assert(ts@.take(n as int) =~= ts@);
    }
    let size = align_up_u64(end, al as u64);
    if size > 0xFFFF_FFFF {
        Err(GenError::TypeTooLarge { id: i })
    } else {
        Ok((size as u32, al))
    }
}

/// Compute the table entry for the definition at index `i` from the entries
/// computed so far.
fn def_entry(g: &TypeGraph, entries: &Vec<(u32, u32)>, i: usize) -> (r: Result<(u32, u32),
    GenError>)
    requires
        g.wf(),
        i < g.defs@.len(),
        entries@.len() == i,
        entries_match(*g, entries@, i as int),
    ensures
        match r {
            Ok(e) => {
                &&& e.0 as int == def_layout(*g, i as int).0
                &&& e.1 as int == def_layout(*g, i as int).1
            },
            Err(e) => {
                &&& e == (GenError::TypeTooLarge { id: i })
                &&& def_layout(*g, i as int).0 > u32::MAX
            },
        },
{
    proof {
        assert(def_wf(g.defs@[i as int], i as int));
    }
    match &g.defs[i] {
        TypeDef::List(_) => Ok((8, 4)),
        TypeDef::Tuple(ts) => {
            proof {
                assert(def_layout(*g, i as int) == struct_layout(*g, ts@, i as int));
            }
            struct_entry(g, entries, ts, i)
        },
        TypeDef::Record(fs) => {
            let m = fs.len();
            let mut refs: Vec<TypeRef> = Vec::new();
            let mut k: usize = 0;
            while k < m
                invariant
                    k <= m,
                    m == fs@.len(),
                    refs@.len() == k,
                    forall|j: int| 0 <= j < k ==> refs@[j] == (#[trigger] fs@[j]).1,
                decreases m - k,
            {
                refs.push(fs[k].1);
                k += 1;
            }
            proof {
                assert(refs@ =~= field_types(fs@));
                assert(def_layout(*g, i as int) == struct_layout(*g, refs@, i as int));
            }
            struct_entry(g, entries, &refs, i)
        },
        TypeDef::Variant(cs) => {
            let m = cs.len();
            let mut k: usize = 0;
            let mut ps: u32 = 0;
            let mut pa: u32 = 1;
            proof {
                assert(case_payloads(cs@).take(0) =~= Seq::<Option<TypeRef>>::empty());
            }
            while k < m
                invariant
                    k <= m,
                    m == cs@.len(),
                    g.wf(),
                    i < g.defs@.len(),
                    g.defs@[i as int] == TypeDef::Variant(*cs),
                    entries@.len() == i,
                    entries_match(*g, entries@, i as int),
                    ps as int == payload_fold(*g, case_payloads(cs@).take(k as int), i as int).0,
                    pa as int == payload_fold(*g, case_payloads(cs@).take(k as int), i as int).1,
                    valid_align(pa as int),
                decreases m - k,
            {
                proof {
                    assert(def_wf(g.defs@[i as int], i as int));
                    assert(match (cs@[k as int]).1 {
                        Some(t) => ref_wf(t, i as int),
                        None => true,
                    });
                }
                let c: (u32, u32) = match &cs[k].1 {
                    Some(t) => child_entry(g, entries, *t, i),
                    None => (0, 1),
                };
                proof {
                    let cur = case_payloads(cs@).take(k as int);
                    let next = case_payloads(cs@).take(k as int + 1);
                    assert(next.drop_last() =~= cur);
                    assert(next.last() == case_payloads(cs@)[k as int]);
                    assert(case_payloads(cs@)[k as int] == cs@[k as int].1);
                    assert(opt_child_layout(*g, cs@[k as int].1, i as int).0 == c.0 as int);
                    assert(opt_child_layout(*g, cs@[k as int].1, i as int).1 == c.1 as int);
                    assert(payload_fold(*g, next, i as int).0 == max_i(ps as int, c.0 as int));
                    assert(payload_fold(*g, next, i as int).1 == max_i(pa as int, c.1 as int));
                }
                ps = if ps >= c.0 {
                    ps
                } else {
                    c.0
                };
                pa = if pa >= c.1 {
                    pa
                } else {
                    c.1
                };
                k += 1;
            }
            proof {
                assert(case_payloads(cs@).take(m as int) =~= case_payloads(cs@));
                assert(payload_fold(*g, case_payloads(cs@), i as int) == (
                    ps as int,
                    pa as int,
                ));
                assert(def_layout(*g, i as int) == variant_layout(
                    cs@.len() as int,
                    (ps as int, pa as int),
                ));
            }
            variant_entry(m, ps, pa, i)
        },
        TypeDef::Enum(ns) => {
            let ds = disc_size_exec(ns.len());
            Ok((ds, ds))
        },
        TypeDef::Flags(ns) => {
            let n = ns.len();
            if n <= 8 {
                Ok((1, 1))
            } else if n <= 16 {
                Ok((2, 2))
            } else if n as u64 >= 0x10_0000_0000 {
                proof {
                    lemma_div_is_ordered(0x10_0000_0000, n as int + 31, 32);
                }
                Err(GenError::TypeTooLarge { id: i })
            } else {
                let sz = 4 * ((n as u64 + 31) / 32);
                if sz > 0xFFFF_FFFF {
                    Err(GenError::TypeTooLarge { id: i })
                } else {
                    Ok((sz as u32, 4))
                }
            }
        },
        TypeDef::OptionOf(t) => {
            let c = child_entry(g, entries, *t, i);
            proof {
                assert(child_layout(*g, *t, i as int) == (c.0 as int, c.1 as int));
                assert(def_layout(*g, i as int) == variant_layout(2, (c.0 as int, c.1 as int)));
            }
            variant_entry(2, c.0, c.1, i)
        },
        TypeDef::ResultOf(ok_t, err_t) => {
            let co: (u32, u32) = match ok_t {
                Some(t) => child_entry(g, entries, *t, i),
                None => (0, 1),
            };
            let ce: (u32, u32) = match err_t {
                Some(t) => child_entry(g, entries, *t, i),
                None => (0, 1),
            };
            let ps = if co.0 >= ce.0 {
                co.0
            } else {
                ce.0
            };
            let pa = if co.1 >= ce.1 {
                co.1
            } else {
                ce.1
            };
            proof {
                let e0 = Seq::<Option<TypeRef>>::empty();
                let s1 = seq![*ok_t];
                let two = seq![*ok_t, *err_t];
                assert(s1.drop_last() =~= e0);
                assert(s1.last() == *ok_t);
                assert(two.drop_last() =~= s1);
                assert(two.last() == *err_t);
                assert(payload_fold(*g, e0, i as int) == (0int, 1int));
                assert(opt_child_layout(*g, *ok_t, i as int) == (co.0 as int, co.1 as int));
                assert(opt_child_layout(*g, *err_t, i as int) == (ce.0 as int, ce.1 as int));
                assert(payload_fold(*g, s1, i as int) == (co.0 as int, co.1 as int));
                assert(payload_fold(*g, two, i as int) == (ps as int, pa as int));
                assert(def_layout(*g, i as int) == variant_layout(2, (ps as int, pa as int)));
            }
            variant_entry(2, ps, pa, i)
        },
        TypeDef::Alias(t) => {
            let c = child_entry(g, entries, *t, i);
            Ok((c.0, c.1))
        },
        TypeDef::Resource => Ok((4, 4)),
    }
}

} // verus!
