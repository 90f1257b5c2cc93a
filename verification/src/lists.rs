//! List marshaling: store a sequence of values of one element kind into
//! linear memory at its natural stride, and load it back.
//!
//! The element-kind dispatch is a single exhaustive table mapping every kind
//! to exactly one size/alignment pair; the table is proved to agree with the
//! size/align layout of the corresponding scalar type, so an allocation can
//! never use a stride the layout engine disagrees with. Elements are carried
//! as 64-bit values (raw bit patterns for the float kinds) and written
//! little-endian at their width.

use vstd::prelude::*;
use vstd::arithmetic::div_mod::{lemma_div_is_ordered, lemma_fundamental_div_mod};
use vstd::arithmetic::mul::lemma_mul_inequality;
use crate::errors::MarshalError;
use crate::layout::{align_up, ref_layout, scalar_or_text_layout, valid_align};
use crate::memory::{le_bytes_of, le_val_of, lemma_le_round_trip, pow256, LinearMemory};
use crate::ty::{spec_elem_kind_of, ElemKind, TypeGraph, TypeRef};

verus! {

/// The element size and alignment each kind dispatches to: one row per kind
/// of the closed enumeration, none missing, none duplicated.
pub open spec fn spec_elem_layout(k: ElemKind) -> (int, int) {
    match k {
        ElemKind::S8 => (1, 1),
        ElemKind::U8 => (1, 1),
        ElemKind::Bool => (1, 1),
        ElemKind::S16 => (2, 2),
        ElemKind::U16 => (2, 2),
        ElemKind::S32 => (4, 4),
        ElemKind::U32 => (4, 4),
        ElemKind::Char => (4, 4),
        ElemKind::S64 => (8, 8),
        ElemKind::U64 => (8, 8),
        ElemKind::Float32 => (4, 4),
        ElemKind::Float64 => (8, 8),
    }
}

/// Executable dispatch table, equal to the spec-level [`spec_elem_layout`].
pub fn elem_layout(k: ElemKind) -> (r: (u32, u32))
    ensures
        r.0 as int == spec_elem_layout(k).0,
        r.1 as int == spec_elem_layout(k).1,
        1 <= r.0 <= 8,
        valid_align(r.1 as int),
        r.0 == r.1,
{
    match k {
        ElemKind::S8 => (1, 1),
        ElemKind::U8 => (1, 1),
        ElemKind::Bool => (1, 1),
        ElemKind::S16 => (2, 2),
        ElemKind::U16 => (2, 2),
        ElemKind::S32 => (4, 4),
        ElemKind::U32 => (4, 4),
        ElemKind::Char => (4, 4),
        ElemKind::S64 => (8, 8),
        ElemKind::U64 => (8, 8),
        ElemKind::Float32 => (4, 4),
        ElemKind::Float64 => (8, 8),
    }
}

/// The scalar type a list element kind stands for.
pub open spec fn prim_of(k: ElemKind) -> TypeRef {
    match k {
        ElemKind::S8 => TypeRef::S8,
        ElemKind::U8 => TypeRef::U8,
        ElemKind::Bool => TypeRef::Bool,
        ElemKind::S16 => TypeRef::S16,
        ElemKind::U16 => TypeRef::U16,
        ElemKind::S32 => TypeRef::S32,
        ElemKind::U32 => TypeRef::U32,
        ElemKind::Char => TypeRef::Char,
        ElemKind::S64 => TypeRef::S64,
        ElemKind::U64 => TypeRef::U64,
        ElemKind::Float32 => TypeRef::Float32,
        ElemKind::Float64 => TypeRef::Float64,
    }
}

/// Law: for every element kind in the dispatch table, the size and
/// alignment used for list allocation are exactly the size/align layout of
/// that kind's scalar type, in every type graph — and the kind is exactly
/// the one the scalar type dispatches to.
pub proof fn lemma_dispatch_matches_layout(g: TypeGraph, k: ElemKind)
    ensures
        spec_elem_layout(k) == ref_layout(g, prim_of(k)),
        spec_elem_layout(k) == scalar_or_text_layout(prim_of(k)),
        spec_elem_kind_of(prim_of(k)) == Some(k),
{
}

/// Does every value fit the width of the element kind?
pub open spec fn all_fit(vals: Seq<u64>, k: ElemKind) -> bool {
    forall|i: int| 0 <= i < vals.len() ==> ((#[trigger] vals[i]) as nat) < pow256(
        spec_elem_layout(k).0 as nat,
    )
}

/// The elements stand in memory at `p`, each at its natural stride, in
/// little-endian order.
pub open spec fn list_stored_at(mem: Seq<u8>, p: int, vals: Seq<u64>, k: ElemKind) -> bool {
    let es = spec_elem_layout(k).0;
    &&& 0 <= p
    &&& p + vals.len() * es <= mem.len()
    &&& forall|i: int|
        0 <= i < vals.len() ==> mem.subrange(p + i * es, p + i * es + es) == le_bytes_of(
            (#[trigger] vals[i]) as nat,
            es as nat,
        )
}

/// What loading a list yields, at the level of views: one value per
/// element read at its stride, or the out-of-bounds error.
pub open spec fn spec_load_list(mem: Seq<u8>, p: int, l: int, k: ElemKind) -> Result<
    Seq<u64>,
    MarshalError,
> {
    let es = spec_elem_layout(k).0;
    if !(0 <= p && 0 <= l && p + l * es <= mem.len()) {
        Err(MarshalError::OutOfBounds)
    } else {
        Ok(
            Seq::new(
                l as nat,
                |i: int| le_val_of(mem.subrange(p + i * es, p + i * es + es)) as u64,
            ),
        )
    }
}

/// `n` zero bytes.
pub open spec fn zero_bytes(n: int) -> Seq<u8> {
    Seq::new(n as nat, |i: int| 0u8)
}

/// The elements laid side by side, each as its `es` little-endian bytes.
pub open spec fn elems_bytes(vals: Seq<u64>, es: int) -> Seq<u8>
    decreases vals.len(),
{
    if vals.len() == 0 {
        Seq::empty()
    } else {
        elems_bytes(vals.drop_last(), es) + le_bytes_of(vals.last() as nat, es as nat)
    }
}

pub proof fn lemma_elems_bytes_len(vals: Seq<u64>, es: int)
    requires
        es >= 1,
    ensures
        elems_bytes(vals, es).len() == vals.len() * es,
    decreases vals.len(),
{
    if vals.len() == 0 {
        assert(vals.len() * es == 0) by (nonlinear_arith)
            requires
                vals.len() == 0,
        ;
    } else {
        lemma_elems_bytes_len(vals.drop_last(), es);
        crate::memory::lemma_le_bytes_len(vals.last() as nat, es as nat);
        assert((vals.len() - 1) * es + es == vals.len() * es) by (nonlinear_arith);
    }
}

/// The byte at element `j`, offset `o`, of the side-by-side layout.
pub proof fn lemma_elems_bytes_index(vals: Seq<u64>, es: int, j: int, o: int)
    requires
        es >= 1,
        0 <= j < vals.len(),
        0 <= o < es,
    ensures
        elems_bytes(vals, es).len() == vals.len() * es,
        elems_bytes(vals, es)[j * es + o] == le_bytes_of(vals[j] as nat, es as nat)[o],
    decreases vals.len(),
{
    lemma_elems_bytes_len(vals, es);
    lemma_elems_bytes_len(vals.drop_last(), es);
    crate::memory::lemma_le_bytes_len(vals.last() as nat, es as nat);
    assert((vals.len() - 1) * es + es == vals.len() * es) by (nonlinear_arith);
    if j == vals.len() - 1 {
        assert(j * es + o - (vals.len() - 1) * es == o);
    } else {
        lemma_elems_bytes_index(vals.drop_last(), es, j, o);
        assert(j * es + o < (vals.len() - 1) * es) by (nonlinear_arith)
            requires
                j < vals.len() - 1,
                es >= 1,
                0 <= o < es,
                0 <= j,
        ;
        assert(j * es + o >= 0) by (nonlinear_arith)
            requires
                j >= 0,
                es >= 1,
                o >= 0,
        ;
    }
}

/// What a successful or failed list store does, at the level of views: the
/// memory grows by the alignment padding and the element bytes, or the
/// request fails — for a value wider than its kind, or an exhausted 32-bit
/// address space — leaving the memory as it was.
pub open spec fn spec_store_list(mem: Seq<u8>, vals: Seq<u64>, k: ElemKind) -> Result<
    (Seq<u8>, int, int),
    MarshalError,
> {
    let es = spec_elem_layout(k).0;
    let ea = spec_elem_layout(k).1;
    let p = align_up(mem.len() as int, ea);
    if !all_fit(vals, k) {
        Err(MarshalError::ValueOutOfRange)
    } else if p + vals.len() * es > u32::MAX {
        Err(MarshalError::AllocFailed)
    } else {
        Ok((mem + zero_bytes(p - mem.len()) + elems_bytes(vals, es), p, vals.len() as int))
    }
}

/// A stored list decomposes back into its elements: the constructed memory
/// of a successful store satisfies [`list_stored_at`].
pub proof fn lemma_store_gives_stored_at(mem: Seq<u8>, vals: Seq<u64>, k: ElemKind)
    requires
        spec_store_list(mem, vals, k) is Ok,
    ensures
        ({
            let (mem1, p, l) = spec_store_list(mem, vals, k)->Ok_0;
            &&& l == vals.len()
            &&& mem1.len() == p + vals.len() * spec_elem_layout(k).0
            &&& list_stored_at(mem1, p, vals, k)
        }),
{
    let es = spec_elem_layout(k).0;
    let ea = spec_elem_layout(k).1;
    let p = align_up(mem.len() as int, ea);
    let (mem1, _p2, _l) = spec_store_list(mem, vals, k)->Ok_0;
    crate::layout::lemma_align_up(mem.len() as int, ea);
    lemma_elems_bytes_len(vals, es);
    assert forall|i: int| 0 <= i < vals.len() implies mem1.subrange(
        p + i * es,
        p + i * es + es,
    ) == le_bytes_of((#[trigger] vals[i]) as nat, es as nat) by {
        crate::memory::lemma_le_bytes_len(vals[i] as nat, es as nat);
        assert(i * es >= 0) by (nonlinear_arith)
            requires
                i >= 0,
                es >= 1,
        ;
        assert(i * es + es <= vals.len() * es) by (nonlinear_arith)
            requires
                i < vals.len(),
                es >= 1,
        ;
        assert forall|o: int|
            0 <= o < es implies #[trigger] mem1.subrange(p + i * es, p + i * es + es)[o]
            == le_bytes_of(vals[i] as nat, es as nat)[o] by {
            lemma_elems_bytes_index(vals, es, i, o);
            assert(mem1.subrange(p + i * es, p + i * es + es)[o] == mem1[p + i * es + o]);
            assert(mem1[p + i * es + o] == elems_bytes(vals, es)[i * es + o]);
        }
        assert(mem1.subrange(p + i * es, p + i * es + es) =~= le_bytes_of(
            vals[i] as nat,
            es as nat,
        ));
    }
}

/// A memory that extends `mem0` with zeros up to an aligned base and then
/// the element bytes is exactly the constructed store result.
proof fn lemma_store_shape(mem0: Seq<u8>, mem1: Seq<u8>, vals: Seq<u64>, es: int, p: int)
    requires
        es >= 1,
        mem0.len() <= p,
        mem1.len() == p + vals.len() * es,
        mem1.subrange(0, mem0.len() as int) == mem0,
        forall|x: int| mem0.len() <= x < p ==> mem1[x] == 0,
        forall|j: int|
            0 <= j < vals.len() ==> mem1.subrange(p + j * es, p + j * es + es) == le_bytes_of(
                (#[trigger] vals[j]) as nat,
                es as nat,
            ),
    ensures
        mem1 == mem0 + zero_bytes(p - mem0.len()) + elems_bytes(vals, es),
{
    lemma_elems_bytes_len(vals, es);
    let rhs = mem0 + zero_bytes(p - mem0.len()) + elems_bytes(vals, es);
    assert forall|x: int| 0 <= x < mem1.len() implies mem1[x] == rhs[x] by {
        if x < mem0.len() {
            assert(mem1[x] == mem1.subrange(0, mem0.len() as int)[x]);
        } else if x < p {
        } else {
            let rel = x - p;
            lemma_fundamental_div_mod(rel, es);
            let j = rel / es;
            let o = rel % es;
            assert(0 <= j) by {
                lemma_div_is_ordered(0, rel, es);
            }
            assert(j < vals.len()) by (nonlinear_arith)
                requires
                    rel == es * j + o,
                    0 <= o < es,
                    rel < vals.len() * es,
                    es >= 1,
            ;
            assert(es * j == j * es) by (nonlinear_arith);
            crate::memory::lemma_le_bytes_len(vals[j] as nat, es as nat);
            assert(j * es >= 0) by (nonlinear_arith)
                requires
                    j >= 0,
                    es >= 1,
            ;
            assert(j * es + es <= vals.len() * es) by (nonlinear_arith)
                requires
                    j < vals.len(),
                    es >= 1,
            ;
            assert(mem1[x] == mem1.subrange(p + j * es, p + j * es + es)[o]);
            lemma_elems_bytes_index(vals, es, j, o);
            assert(rhs[x] == elems_bytes(vals, es)[rel]);
        }
    }
    assert(mem1 =~= rhs);
}

/// Does `v` fit in `es` bytes? `es` is one of the dispatch-table widths.
fn fits_width(v: u64, es: u32) -> (r: bool)
    requires
        es == 1 || es == 2 || es == 4 || es == 8,
    ensures
        r == ((v as nat) < pow256(es as nat)),
{
    proof {
        reveal_with_fuel(pow256, 9);
    }
    if es == 1 {
        v < 0x100
    } else if es == 2 {
        v < 0x1_0000
    } else if es == 4 {
        v < 0x1_0000_0000
    } else {
        true
    }
}

/// Store a sequence of values of the given element kind: dispatch to the
/// element size and alignment, request the memory, and write every element
/// at its stride. A value wider than its kind is a typed error; an
/// exhausted address space is an allocation failure; neither touches the
/// memory.
pub fn store_list(mem: &mut LinearMemory, vals: &Vec<u64>, k: ElemKind) -> (r: Result<
    (u32, u32),
    MarshalError,
>)
    requires
        old(mem).wf(),
    ensures
        final(mem).wf(),
        match r {
            Ok((p, l)) => {
                &&& spec_store_list(old(mem)@, vals@, k) == Ok::<_, MarshalError>(
                    (final(mem)@, p as int, l as int),
                )
                &&& p != 0
                &&& l as int == vals@.len()
            },
            Err(e) => {
                &&& spec_store_list(old(mem)@, vals@, k) == Err::<(Seq<u8>, int, int), _>(e)
                &&& *final(mem) == *old(mem)
            },
        },
{
    let (es, ea) = elem_layout(k);
    let n = vals.len();
    let mut i: usize = 0;
    while i < n
        invariant
            i <= n,
            n == vals@.len(),
            es as int == spec_elem_layout(k).0,
            es == 1 || es == 2 || es == 4 || es == 8,
            *mem == *old(mem),
            old(mem).wf(),
            forall|j: int| 0 <= j < i ==> ((#[trigger] vals@[j]) as nat) < pow256(es as nat),
        decreases n - i,
    {
        if !fits_width(vals[i], es) {
            proof {
                assert(!all_fit(vals@, k)) by {
                    assert(((vals@[i as int]) as nat) >= pow256(spec_elem_layout(k).0 as nat));
                }
            }
            return Err(MarshalError::ValueOutOfRange);
        }
        i += 1;
    }
    if n as u64 > 0xFFFF_FFFF {
        proof {
            crate::layout::lemma_align_up(old(mem)@.len() as int, ea as int);
            lemma_mul_inequality(1, es as int, n as int);
            assert(n as int * es as int == es as int * n as int) by (nonlinear_arith);
        }
        return Err(MarshalError::AllocFailed);
    }
    let total = n as u64 * es as u64;
    if total > 0xFFFF_FFFF {
        proof {
            crate::layout::lemma_align_up(old(mem)@.len() as int, ea as int);
        }
        return Err(MarshalError::AllocFailed);
    }
    let p = match mem.allocate(ea, total as u32) {
        Ok(p) => p,
        Err(e) => {
            return Err(MarshalError::AllocFailed);
        },
    };
    let ghost mem_after_alloc = mem@;
    let mut i: usize = 0;
    while i < n
        invariant
            i <= n,
            n == vals@.len(),
            n <= 0xFFFF_FFFF,
            es as int == spec_elem_layout(k).0,
            es == 1 || es == 2 || es == 4 || es == 8,
            forall|j: int| 0 <= j < n ==> ((#[trigger] vals@[j]) as nat) < pow256(es as nat),
            mem@.len() == p as int + n * es,
            mem@.len() <= u32::MAX,
            8 <= old(mem)@.len(),
            old(mem)@.len() <= p,
            p as int == align_up(old(mem)@.len() as int, spec_elem_layout(k).1),
            mem@.subrange(0, old(mem)@.len() as int) == old(mem)@,
            forall|x: int| old(mem)@.len() <= x < p ==> mem@[x] == 0,
            forall|j: int|
                0 <= j < i ==> mem@.subrange(p + j * es, p + j * es + es) == le_bytes_of(
                    (#[trigger] vals@[j]) as nat,
                    es as nat,
                ),
        decreases n - i,
    {
        proof {
            lemma_mul_inequality(i as int + 1, n as int, es as int);
            assert(i as int * es as int + es as int == (i as int + 1) * es as int)
                by (nonlinear_arith);
            assert(i as int * es as int >= 0) by (nonlinear_arith);
        }
        let off: u64 = p as u64 + i as u64 * es as u64;
        let ghost pre = mem@;
        mem.write_le(off as u32, vals[i], es);
        proof {
            assert(mem@.subrange(0, old(mem)@.len() as int) =~= pre.subrange(
                0,
                old(mem)@.len() as int,
            ));
            assert forall|j: int| 0 <= j < i + 1 implies mem@.subrange(
                p + j * es,
                p + j * es + es,
            ) == le_bytes_of((#[trigger] vals@[j]) as nat, es as nat) by {
                if j < i {
                    assert(j * es + es <= i * es) by (nonlinear_arith)
                        requires j < i, es >= 1,
                    ;
                    assert(j * es >= 0) by (nonlinear_arith)
                        requires j >= 0, es >= 1,
                    ;
                    assert(mem@.subrange(p + j * es, p + j * es + es) =~= pre.subrange(
                        p + j * es,
                        p + j * es + es,
                    ));
                } else {
                    assert(mem@.subrange(p + j * es, p + j * es + es) =~= le_bytes_of(
                        vals@[j] as nat,
                        es as nat,
                    ));
                }
            }
        }
        i += 1;
    }
    proof {
        lemma_mul_inequality(0, n as int, es as int);
        lemma_store_shape(old(mem)@, mem@, vals@, es as int, p as int);
    }
    Ok((p, n as u32))
}

/// Load a list of values of the given element kind from the
/// pointer/length pair: the inverse of [`store_list`]. A range outside the
/// memory is a typed error.
pub fn load_list(mem: &LinearMemory, ptr: u32, len: u32, k: ElemKind) -> (r: Result<
    Vec<u64>,
    MarshalError,
>)
    requires
        mem.wf(),
    ensures
        match r {
            Ok(v) => {
                &&& spec_load_list(mem@, ptr as int, len as int, k) == Ok::<_, MarshalError>(v@)
                &&& all_fit(v@, k)
            },
            Err(e) => spec_load_list(mem@, ptr as int, len as int, k) == Err::<Seq<u64>, _>(e),
        },
{
    let (es, _ea) = elem_layout(k);
    let size = mem.size();
    let total = len as u64 * es as u64;
    if ptr as u64 + total > size as u64 {
        return Err(MarshalError::OutOfBounds);
    }
    let mut v: Vec<u64> = Vec::new();
    let mut i: u32 = 0;
    while i < len
        invariant
            i <= len,
            mem.wf(),
            es as int == spec_elem_layout(k).0,
            es == 1 || es == 2 || es == 4 || es == 8,
            ptr as int + len as int * es as int <= mem@.len(),
            v@.len() == i,
            forall|j: int|
                0 <= j < i ==> (#[trigger] v@[j]) as nat == le_val_of(
                    mem@.subrange(
                        ptr as int + j * es,
                        ptr as int + j * es + es,
                    ),
                ) && (v@[j] as nat) < pow256(es as nat),
        decreases len - i,
    {
        proof {
            lemma_mul_inequality(i as int + 1, len as int, es as int);
            assert(i as int * es as int + es as int == (i as int + 1) * es as int)
                by (nonlinear_arith);
            assert(i as int * es as int >= 0) by (nonlinear_arith);
        }
        let off: u64 = ptr as u64 + i as u64 * es as u64;
        let e = mem.read_le(off as u32, es);
        v.push(e);
        i += 1;
    }
    proof {
        lemma_mul_inequality(0, len as int, es as int);
        let spec_seq = Seq::new(
            len as nat,
            |j: int| le_val_of(mem@.subrange(ptr as int + j * es, ptr as int + j * es + es))
                as u64,
        );
        assert(v@ =~= spec_seq);
    }
    Ok(v)
}

/// Law: storing a sequence of values of any element kind and loading it
/// back from the returned pointer/length pair, against the memory the
/// store produced, yields the original sequence — for every supported
/// kind, and for the empty sequence too.
pub proof fn lemma_list_round_trip(
    mem: Seq<u8>,
    vals: Seq<u64>,
    k: ElemKind,
    mem1: Seq<u8>,
    p: int,
    l: int,
)
    requires
        spec_store_list(mem, vals, k) == Ok::<_, MarshalError>((mem1, p, l)),
    ensures
        spec_load_list(mem1, p, l, k) == Ok::<_, MarshalError>(vals),
{
    lemma_store_gives_stored_at(mem, vals, k);
    let es = spec_elem_layout(k).0;
    let loaded = Seq::new(
        vals.len(),
        |i: int| le_val_of(mem1.subrange(p + i * es, p + i * es + es)) as u64,
    );
    assert forall|i: int| 0 <= i < vals.len() implies loaded[i] == vals[i] by {
        assert(mem1.subrange(p + i * es, p + i * es + es) == le_bytes_of(
            vals[i] as nat,
            es as nat,
        ));
        lemma_le_round_trip(vals[i] as nat, es as nat);
    }
    assert(loaded =~= vals);
}

} // verus!
