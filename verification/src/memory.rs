//! A model of a module instance's linear memory together with its allocator
//! export: a flat, contiguous byte buffer in a 32-bit address space, grown by
//! a bump allocator that never hands out the null address.
//!
//! The first eight bytes are reserved, so every allocation, and the fixed
//! sentinel used for empty text, is a nonzero offset. Little-endian element
//! reads and writes of one, two, four or eight bytes are provided here; the
//! marshaling helpers are built on them.

use vstd::prelude::*;
use vstd::arithmetic::div_mod::{lemma_div_denominator, lemma_fundamental_div_mod};
use crate::errors::MarshalError;
use crate::layout::{align_up, lemma_align_up, valid_align};

verus! {

/// The fixed non-null sentinel pointer used for a zero-length text payload.
pub const EMPTY_TEXT_PTR: u32 = 1;

/// 256 raised to `w`: the number of values a `w`-byte field can hold.
pub open spec fn pow256(w: nat) -> nat
    decreases w,
{
    if w == 0 {
        1
    } else {
        256 * pow256((w - 1) as nat)
    }
}

/// The `w` little-endian bytes of the value `v`.
pub open spec fn le_bytes_of(v: nat, w: nat) -> Seq<u8>
    decreases w,
{
    if w == 0 {
        Seq::empty()
    } else {
        seq![(v % 256) as u8] + le_bytes_of(v / 256, (w - 1) as nat)
    }
}

/// The value held by a little-endian byte sequence.
pub open spec fn le_val_of(s: Seq<u8>) -> nat
    decreases s.len(),
{
    if s.len() == 0 {
        0
    } else {
        (s[0] + 256 * le_val_of(s.drop_first())) as nat
    }
}

pub proof fn lemma_le_bytes_len(v: nat, w: nat)
    ensures
        le_bytes_of(v, w).len() == w,
    decreases w,
{
    if w > 0 {
        lemma_le_bytes_len(v / 256, (w - 1) as nat);
    }
}

/// The byte at position `i` of a little-endian encoding.
pub proof fn lemma_le_bytes_index(v: nat, w: nat, i: int)
    requires
        0 <= i < w,
    ensures
        le_bytes_of(v, w).len() == w,
        le_bytes_of(v, w)[i] == ((v / pow256(i as nat)) % 256) as u8,
    decreases i,
{
    lemma_le_bytes_len(v, w);
    if i == 0 {
        assert(v / pow256(0) == v) by {
            assert(pow256(0) == 1);
            lemma_fundamental_div_mod(v as int, 1);
        }
    } else {
        lemma_le_bytes_index(v / 256, (w - 1) as nat, i - 1);
        assert(le_bytes_of(v, w)[i] == le_bytes_of(v / 256, (w - 1) as nat)[i - 1]);
        assert((v / 256) / pow256((i - 1) as nat) == v / pow256(i as nat)) by {
            lemma_pow256_pos((i - 1) as nat);
            lemma_div_denominator(v as int, 256, pow256((i - 1) as nat) as int);
            assert(256 * pow256((i - 1) as nat) == pow256(i as nat));
        }
    }
}

pub proof fn lemma_pow256_pos(w: nat)
    ensures
        pow256(w) >= 1,
    decreases w,
{
    if w > 0 {
        lemma_pow256_pos((w - 1) as nat);
    }
}

/// Every byte value can grow back: decoding the encoding of a value below
/// `256^w` yields the value.
pub proof fn lemma_le_round_trip(v: nat, w: nat)
    requires
        v < pow256(w),
    ensures
        le_val_of(le_bytes_of(v, w)) == v,
    decreases w,
{
    if w > 0 {
        let s = le_bytes_of(v, w);
        let rest = le_bytes_of(v / 256, (w - 1) as nat);
        lemma_le_bytes_len(v, w);
        assert(s.drop_first() =~= rest);
        assert(v / 256 < pow256((w - 1) as nat)) by {
            lemma_pow256_pos((w - 1) as nat);
            lemma_fundamental_div_mod(v as int, 256);
            assert(v == 256 * (v as int / 256) + v as int % 256);
        }
        lemma_le_round_trip(v / 256, (w - 1) as nat);
        lemma_fundamental_div_mod(v as int, 256);
    }
}

/// A little-endian byte sequence of length `w` holds a value below `256^w`.
pub proof fn lemma_le_val_bound(s: Seq<u8>)
    ensures
        le_val_of(s) < pow256(s.len()),
    decreases s.len(),
{
    if s.len() > 0 {
        lemma_le_val_bound(s.drop_first());
    }
}

/// The linear memory of one module instance, with its bump allocator.
pub struct LinearMemory {
    data: Vec<u8>,
}

impl View for LinearMemory {
    type V = Seq<u8>;

    closed spec fn view(&self) -> Seq<u8> {
        self.data@
    }
}

impl LinearMemory {
    /// The low addresses (null and the sentinel) are reserved, and the whole
    /// buffer stays addressable with 32-bit pointers.
    pub open spec fn wf(self) -> bool {
        8 <= self@.len() <= u32::MAX
    }

    /// A fresh instance memory: only the reserved low bytes, all zero.
    pub fn new() -> (m: LinearMemory)
        ensures
            m.wf(),
            m@.len() == 8,
            forall|k: int| 0 <= k < 8 ==> m@[k] == 0,
    {
        let mut data: Vec<u8> = Vec::new();
        let mut i: usize = 0;
        while i < 8
            invariant
                i <= 8,
                data@.len() == i,
                forall|k: int| 0 <= k < i ==> data@[k] == 0,
            decreases 8 - i,
        {
            data.push(0);
            i += 1;
        }
        LinearMemory { data }
    }

    /// The current size of the buffer in bytes.
    pub fn size(&self) -> (n: u32)
        requires
            self.wf(),
        ensures
            n as int == self@.len(),
    {
        self.data.len() as u32
    }

    /// The module's allocator export: hand out `size` fresh zeroed bytes at
    /// alignment `align`. The pointer returned is never null, and a failed
    /// request leaves the memory untouched.
    pub fn allocate(&mut self, align: u32, size: u32) -> (r: Result<u32, MarshalError>)
        requires
            old(self).wf(),
            valid_align(align as int),
        ensures
            final(self).wf(),
            match r {
                Ok(p) => {
                    &&& p as int == align_up(old(self)@.len() as int, align as int)
                    &&& p != 0
                    &&& p as int + size as int == final(self)@.len()
                    &&& final(self)@.len() <= u32::MAX
                    &&& final(self)@.subrange(0, old(self)@.len() as int) == old(self)@
                    &&& forall|k: int|
                        old(self)@.len() <= k < final(self)@.len() ==> final(self)@[k] == 0
                },
                Err(e) => {
                    &&& e == MarshalError::AllocFailed
                    &&& *final(self) == *old(self)
                    &&& align_up(old(self)@.len() as int, align as int) + size > u32::MAX
                },
            },
    {
        let cur = self.data.len();
        proof {
            lemma_align_up(cur as int, align as int);
        }
        let aligned: u64 = ((cur as u64 + align as u64 - 1) / align as u64) * align as u64;
        let target: u64 = aligned + size as u64;
        if target > 0xFFFF_FFFF {
            return Err(MarshalError::AllocFailed);
        }
        let ghost old_view = self.data@;
        let mut i = cur;
        while (i as u64) < target
            invariant
                target <= 0xFFFF_FFFF,
                cur <= i,
                i as u64 <= target,
                8 <= cur,
                target == aligned + size as u64,
                aligned as int == align_up(old_view.len() as int, align as int),
                self.data@.len() == i,
                self.data@.subrange(0, cur as int) == old_view,
                old_view.len() == cur,
                forall|k: int| cur <= k < i ==> self.data@[k] == 0,
            decreases target - i,
        {
            self.data.push(0);
            proof {
                assert(self.data@.subrange(0, cur as int) =~= old_view);
            }
            i += 1;
        }
        proof {
            assert(i as u64 == target);
        }
        Ok(aligned as u32)
    }

    /// Read one byte.
    pub fn read_byte(&self, i: u32) -> (b: u8)
        requires
            (i as int) < self@.len(),
        ensures
            b == self@[i as int],
    {
        self.data[i as usize]
    }

    /// Copy `bytes` into the buffer at `ptr`; everything outside the target
    /// range is untouched.
    pub fn write_bytes(&mut self, ptr: u32, bytes: &Vec<u8>)
        requires
            old(self).wf(),
            ptr as int + bytes@.len() <= old(self)@.len(),
        ensures
            final(self).wf(),
            final(self)@.len() == old(self)@.len(),
            final(self)@.subrange(ptr as int, ptr as int + bytes@.len()) == bytes@,
            forall|k: int|
                0 <= k < old(self)@.len() && !(ptr as int <= k < ptr as int + bytes@.len())
                    ==> final(self)@[k] == old(self)@[k],
    {
        let n = bytes.len();
        let total = self.data.len();
        let mut i: usize = 0;
        while i < n
            invariant
                i <= n,
                n == bytes@.len(),
                ptr as int + n <= self.data@.len(),
                self.data@.len() == total,
                self.data@.len() == old(self)@.len(),
                forall|k: int| 0 <= k < i ==> self.data@[ptr as int + k] == bytes@[k],
                forall|k: int|
                    0 <= k < old(self)@.len() && !(ptr as int <= k < ptr as int + n)
                        ==> self.data@[k] == old(self)@[k],
            decreases n - i,
        {
            let idx = ptr as usize + i;
            self.data[idx] = bytes[i];
            i += 1;
        }
        proof {
            assert(self@.subrange(ptr as int, ptr as int + bytes@.len()) =~= bytes@);
        }
    }

    /// Read `len` bytes starting at `ptr`.
    pub fn read_bytes(&self, ptr: u32, len: u32) -> (v: Vec<u8>)
        requires
            self.wf(),
            ptr as int + len as int <= self@.len(),
        ensures
            v@ == self@.subrange(ptr as int, ptr as int + len as int),
    {
        let mut v: Vec<u8> = Vec::new();
        let mut i: u32 = 0;
        while i < len
            invariant
                i <= len,
                self.wf(),
                ptr as int + len as int <= self@.len(),
                v@.len() == i,
                forall|k: int| 0 <= k < i ==> v@[k] == self@[ptr as int + k],
            decreases len - i,
        {
            v.push(self.read_byte(ptr + i));
            i += 1;
        }
        proof {
            assert(v@ =~= self@.subrange(ptr as int, ptr as int + len as int));
        }
        v
    }

    /// Write the `w`-byte little-endian encoding of `v` at `ptr`.
    pub fn write_le(&mut self, ptr: u32, v: u64, w: u32)
        requires
            old(self).wf(),
            1 <= w <= 8,
            ptr as int + w as int <= old(self)@.len(),
            (v as nat) < pow256(w as nat),
        ensures
            final(self).wf(),
            final(self)@.len() == old(self)@.len(),
            final(self)@.subrange(ptr as int, ptr as int + w as int) == le_bytes_of(
                v as nat,
                w as nat,
            ),
            forall|k: int|
                0 <= k < old(self)@.len() && !(ptr as int <= k < ptr as int + w as int)
                    ==> final(self)@[k] == old(self)@[k],
    {
        let mut cur: u64 = v;
        let mut i: u32 = 0;
        proof {
            lemma_le_bytes_len(v as nat, w as nat);
            assert(v as nat / pow256(0) == v as nat) by {
                lemma_fundamental_div_mod(v as int, 1);
            }
        }
        while i < w
            invariant
                i <= w,
                1 <= w <= 8,
                ptr as int + w as int <= self.data@.len(),
                self.data@.len() == old(self)@.len(),
                old(self)@.len() <= u32::MAX,
                cur as nat == v as nat / pow256(i as nat),
                forall|k: int|
                    0 <= k < i ==> self.data@[ptr as int + k] == le_bytes_of(v as nat, w as nat)[k],
                forall|k: int|
                    0 <= k < old(self)@.len() && !(ptr as int <= k < ptr as int + w as int)
                        ==> self.data@[k] == old(self)@[k],
            decreases w - i,
        {
            proof {
                lemma_le_bytes_index(v as nat, w as nat, i as int);
                lemma_pow256_pos(i as nat);
                lemma_div_denominator(v as int, pow256(i as nat) as int, 256);
                assert(pow256(i as nat) * 256 == 256 * pow256(i as nat)) by (nonlinear_arith);
                assert(pow256((i + 1) as nat) == 256 * pow256(i as nat));
            }
            let idx = ptr as usize + i as usize;
            self.data[idx] = (cur % 256) as u8;
            cur = cur / 256;
            i += 1;
        }
        proof {
            assert(self@.subrange(ptr as int, ptr as int + w as int) =~= le_bytes_of(
                v as nat,
                w as nat,
            ));
        }
    }

    /// Read the `w`-byte little-endian value at `ptr`.
    pub fn read_le(&self, ptr: u32, w: u32) -> (v: u64)
        requires
            self.wf(),
            1 <= w <= 8,
            ptr as int + w as int <= self@.len(),
        ensures
            v as nat == le_val_of(self@.subrange(ptr as int, ptr as int + w as int)),
            (v as nat) < pow256(w as nat),
    {
        proof {
            lemma_le_val_bound(self@.subrange(ptr as int, ptr as int + w as int));
            lemma_pow256_le_u64(w as nat);
        }
        let mut v: u64 = 0;
        let mut i: u32 = w;
        while i > 0
            invariant
                i <= w,
                1 <= w <= 8,
                self.wf(),
                ptr as int + w as int <= self@.len(),
                v as nat == le_val_of(self@.subrange(ptr as int + i as int, ptr as int + w as int)),
                (v as nat) < pow256((w - i) as nat),
            decreases i,
        {
            let b = self.read_byte(ptr + i - 1);
            proof {
                let s = self@.subrange(ptr as int + i as int - 1, ptr as int + w as int);
                assert(s.drop_first() =~= self@.subrange(ptr as int + i as int, ptr as int + w as int));
                assert(s[0] == self@[ptr as int + i as int - 1]);
                lemma_pow256_le_u64((w - i + 1) as nat);
                assert(pow256((w - i + 1) as nat) == 256 * pow256((w - i) as nat));
            }
            v = v * 256 + b as u64;
            i -= 1;
        }
        proof {
            assert(self@.subrange(ptr as int + 0, ptr as int + w as int) =~= self@.subrange(
                ptr as int,
                ptr as int + w as int,
            ));
        }
        v
    }
}

/// `256^w` fits the 64-bit value space for widths up to eight bytes.
pub proof fn lemma_pow256_le_u64(w: nat)
    requires
        w <= 8,
    ensures
        pow256(w) <= 0x1_0000_0000_0000_0000,
{
    reveal_with_fuel(pow256, 9);
}

} // verus!
