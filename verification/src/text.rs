//! Text marshaling: store UTF-8 text into linear memory and read it back.
//!
//! Text travels as its UTF-8 bytes. Empty text is never allocated: it is
//! passed as the fixed non-null sentinel pointer with length zero, so a null
//! pointer stays reserved and the allocator never sees a zero-sized request.
//! Decoding validates the byte range and surfaces a typed error on an
//! invalid sequence instead of producing a corrupted value.

use vstd::prelude::*;
use crate::errors::MarshalError;
use crate::memory::{LinearMemory, EMPTY_TEXT_PTR};

verus! {

/// A UTF-8 continuation byte.
pub open spec fn is_cont(b: u8) -> bool {
    0x80 <= b < 0xC0
}

/// A one-byte (ASCII) sequence at `i`.
pub open spec fn valid_one(s: Seq<u8>, i: int) -> bool {
    0 <= i && i + 1 <= s.len() && s[i] < 0x80
}

/// A two-byte sequence at `i`.
pub open spec fn valid_two(s: Seq<u8>, i: int) -> bool {
    0 <= i && i + 2 <= s.len() && 0xC2 <= s[i] <= 0xDF && is_cont(s[i + 1])
}

/// A three-byte sequence at `i` (excluding overlong forms and surrogates).
pub open spec fn valid_three(s: Seq<u8>, i: int) -> bool {
    &&& 0 <= i
    &&& i + 3 <= s.len()
    &&& is_cont(s[i + 2])
    &&& {
        ||| (s[i] == 0xE0 && 0xA0 <= s[i + 1] <= 0xBF)
        ||| (0xE1 <= s[i] <= 0xEC && is_cont(s[i + 1]))
        ||| (s[i] == 0xED && 0x80 <= s[i + 1] <= 0x9F)
        ||| (0xEE <= s[i] <= 0xEF && is_cont(s[i + 1]))
    }
}

/// A four-byte sequence at `i` (excluding overlong forms and values past
/// the last scalar value).
pub open spec fn valid_four(s: Seq<u8>, i: int) -> bool {
    &&& 0 <= i
    &&& i + 4 <= s.len()
    &&& is_cont(s[i + 2])
    &&& is_cont(s[i + 3])
    &&& {
        ||| (s[i] == 0xF0 && 0x90 <= s[i + 1] <= 0xBF)
        ||| (0xF1 <= s[i] <= 0xF3 && is_cont(s[i + 1]))
        ||| (s[i] == 0xF4 && 0x80 <= s[i + 1] <= 0x8F)
    }
}

/// Is the byte sequence valid UTF-8 from position `i` on?
pub open spec fn is_utf8_from(s: Seq<u8>, i: int) -> bool
    decreases s.len() - i,
{
    if i >= s.len() {
        true
    } else if valid_one(s, i) {
        is_utf8_from(s, i + 1)
    } else if valid_two(s, i) {
        is_utf8_from(s, i + 2)
    } else if valid_three(s, i) {
        is_utf8_from(s, i + 3)
    } else if valid_four(s, i) {
        is_utf8_from(s, i + 4)
    } else {
        false
    }
}

/// Is the whole byte sequence valid UTF-8?
pub open spec fn is_utf8(s: Seq<u8>) -> bool {
    is_utf8_from(s, 0)
}

/// Executable continuation test, equal to the spec-level [`is_cont`].
fn is_cont_exec(b: u8) -> (r: bool)
    ensures
        r == is_cont(b),
{
    0x80 <= b && b < 0xC0
}

/// Validate a whole byte sequence as UTF-8.
pub fn validate_utf8(v: &Vec<u8>) -> (r: bool)
    ensures
        r == is_utf8(v@),
{
    let n = v.len();
    let mut i: usize = 0;
    while i < n
        invariant
            i <= n,
            n == v@.len(),
            is_utf8(v@) == is_utf8_from(v@, i as int),
        decreases n - i,
    {
        let b = v[i];
        if b < 0x80 {
            i += 1;
        } else if 0xC2 <= b && b <= 0xDF {
            if !(n - i >= 2 && is_cont_exec(v[i + 1])) {
                return false;
            }
            i += 2;
        } else if 0xE0 <= b && b <= 0xEF {
            let head_ok = if !(n - i >= 3) {
                false
            } else {
                let b1 = v[i + 1];
                let lead_ok = if b == 0xE0 {
                    0xA0 <= b1 && b1 <= 0xBF
                } else if b == 0xED {
                    0x80 <= b1 && b1 <= 0x9F
                } else {
                    is_cont_exec(b1)
                };
                lead_ok && is_cont_exec(v[i + 2])
            };
            if !head_ok {
                return false;
            }
            i += 3;
        } else if 0xF0 <= b && b <= 0xF4 {
            let head_ok = if !(n - i >= 4) {
                false
            } else {
                let b1 = v[i + 1];
                let lead_ok = if b == 0xF0 {
                    0x90 <= b1 && b1 <= 0xBF
                } else if b == 0xF4 {
                    0x80 <= b1 && b1 <= 0x8F
                } else {
                    is_cont_exec(b1)
                };
                lead_ok && is_cont_exec(v[i + 2]) && is_cont_exec(v[i + 3])
            };
            if !head_ok {
                return false;
            }
            i += 4;
        } else {
            return false;
        }
    }
    true
}

/// What a successful or failed text encoding does, at the level of views:
/// empty text is answered with the sentinel pointer and an untouched memory;
/// otherwise the bytes are appended at alignment one, or the allocation
/// fails because the 32-bit address space is exhausted.
pub open spec fn spec_encode_text(mem: Seq<u8>, text: Seq<u8>) -> Result<
    (Seq<u8>, int, int),
    MarshalError,
> {
    if text.len() == 0 {
        Ok((mem, EMPTY_TEXT_PTR as int, 0))
    } else if mem.len() + text.len() > u32::MAX {
        Err(MarshalError::AllocFailed)
    } else {
        Ok((mem + text, mem.len() as int, text.len() as int))
    }
}

/// What decoding a pointer/length pair yields, at the level of views: the
/// byte range, if it lies inside the memory and is valid UTF-8; otherwise
/// the matching typed error.
pub open spec fn spec_decode_text(mem: Seq<u8>, p: int, l: int) -> Result<Seq<u8>, MarshalError> {
    if !(0 <= p && 0 <= l && p + l <= mem.len()) {
        Err(MarshalError::OutOfBounds)
    } else if !is_utf8(mem.subrange(p, p + l)) {
        Err(MarshalError::InvalidUtf8)
    } else {
        Ok(mem.subrange(p, p + l))
    }
}

/// Store the UTF-8 bytes of a text value into the module's linear memory
/// and hand back the pointer/length pair to pass as two flattened
/// arguments. Empty text never allocates and never returns a null pointer.
pub fn encode_text(mem: &mut LinearMemory, text: &Vec<u8>) -> (r: Result<(u32, u32), MarshalError>)
    requires
        old(mem).wf(),
    ensures
        final(mem).wf(),
        match r {
            Ok((p, l)) => {
                &&& spec_encode_text(old(mem)@, text@) == Ok::<_, MarshalError>(
                    (final(mem)@, p as int, l as int),
                )
                &&& p != 0
                &&& l as int == text@.len()
                &&& text@.len() == 0 ==> p == EMPTY_TEXT_PTR && *final(mem) == *old(mem)
            },
            Err(e) => {
                &&& spec_encode_text(old(mem)@, text@) == Err::<(Seq<u8>, int, int), _>(e)
                &&& *final(mem) == *old(mem)
            },
        },
{
    let l = text.len();
    if l == 0 {
        return Ok((EMPTY_TEXT_PTR, 0));
    }
    if l as u64 > 0xFFFF_FFFF {
        return Err(MarshalError::AllocFailed);
    }
    match mem.allocate(1, l as u32) {
        Ok(p) => {
            proof {
                crate::layout::lemma_align_up(old(mem)@.len() as int, 1);
            }
            mem.write_bytes(p, text);
            proof {
                assert(mem@ =~= old(mem)@ + text@);
            }
            Ok((p, l as u32))
        },
        Err(e) => {
            proof {
                crate::layout::lemma_align_up(old(mem)@.len() as int, 1);
            }
            Err(e)
        },
    }
}

/// Read `len` bytes at `ptr` from the module's linear memory and decode
/// them as UTF-8. A range outside the memory or an invalid byte sequence is
/// a typed error, never a corrupted value.
pub fn decode_text(mem: &LinearMemory, ptr: u32, len: u32) -> (r: Result<Vec<u8>, MarshalError>)
    requires
        mem.wf(),
    ensures
        match r {
            Ok(v) => spec_decode_text(mem@, ptr as int, len as int) == Ok::<_, MarshalError>(v@),
            Err(e) => spec_decode_text(mem@, ptr as int, len as int) == Err::<Seq<u8>, _>(e),
        },
{
    let size = mem.size();
    if ptr as u64 + len as u64 > size as u64 {
        return Err(MarshalError::OutOfBounds);
    }
    let v = mem.read_bytes(ptr, len);
    if validate_utf8(&v) {
        Ok(v)
    } else {
        Err(MarshalError::InvalidUtf8)
    }
}

/// Law: decoding the pointer/length pair produced by a successful text
/// encoding, against the memory state the encoding produced, succeeds and
/// yields the original text — for every text value, the empty one included.
pub proof fn lemma_text_round_trip(mem: Seq<u8>, text: Seq<u8>, mem1: Seq<u8>, p: int, l: int)
    requires
        is_utf8(text),
        8 <= mem.len(),
        spec_encode_text(mem, text) == Ok::<_, MarshalError>((mem1, p, l)),
    ensures
        spec_decode_text(mem1, p, l) == Ok::<_, MarshalError>(text),
{
    assert(mem1.subrange(p, p + l) =~= text);
}

} // verus!
