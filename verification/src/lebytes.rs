use vstd::bytes::*;
use vstd::prelude::*;

use crate::header::ValueType;

verus! {

// Signed values travel on the wire, and through the uniform element
// interface, as their two's-complement unsigned bit patterns.

pub open spec fn u8_of_i8(v: i8) -> u8 {
    if v >= 0 {
        v as u8
    } else {
        (v + 0x100) as u8
    }
}

pub open spec fn i8_of_u8(u: u8) -> i8 {
    if u < 0x80 {
        u as i8
    } else {
        (u - 0x100) as i8
    }
}

pub open spec fn u16_of_i16(v: i16) -> u16 {
    if v >= 0 {
        v as u16
    } else {
        (v + 0x10000) as u16
    }
}

pub open spec fn i16_of_u16(u: u16) -> i16 {
    if u < 0x8000 {
        u as i16
    } else {
        (u - 0x10000) as i16
    }
}

pub open spec fn u32_of_i32(v: i32) -> u32 {
    if v >= 0 {
        v as u32
    } else {
        (v + 0x1_0000_0000) as u32
    }
}

pub open spec fn i32_of_u32(u: u32) -> i32 {
    if u < 0x8000_0000 {
        u as i32
    } else {
        (u - 0x1_0000_0000) as i32
    }
}

pub fn exec_u8_of_i8(v: i8) -> (r: u8)
    ensures
        r == u8_of_i8(v),
{
    if v >= 0 {
        v as u8
    } else {
        ((v as i16) + 0x100) as u8
    }
}

pub fn exec_i8_of_u8(u: u8) -> (r: i8)
    ensures
        r == i8_of_u8(u),
{
    if u < 0x80 {
        u as i8
    } else {
        ((u as i16) - 0x100) as i8
    }
}

pub fn exec_u16_of_i16(v: i16) -> (r: u16)
    ensures
        r == u16_of_i16(v),
{
    if v >= 0 {
        v as u16
    } else {
        ((v as i32) + 0x10000) as u16
    }
}

pub fn exec_i16_of_u16(u: u16) -> (r: i16)
    ensures
        r == i16_of_u16(u),
{
    if u < 0x8000 {
        u as i16
    } else {
        ((u as i32) - 0x10000) as i16
    }
}

pub fn exec_u32_of_i32(v: i32) -> (r: u32)
    ensures
        r == u32_of_i32(v),
{
    if v >= 0 {
        v as u32
    } else {
        ((v as i64) + 0x1_0000_0000) as u32
    }
}

pub fn exec_i32_of_u32(u: u32) -> (r: i32)
    ensures
        r == i32_of_u32(u),
{
    if u < 0x8000_0000 {
        u as i32
    } else {
        ((u as i64) - 0x1_0000_0000) as i32
    }
}

/// An element bit pattern representable in an element of type `t`.
pub open spec fn elem_fits(t: ValueType, v: u64) -> bool {
    match t {
        ValueType::U8 | ValueType::I8 => v < 0x100,
        ValueType::U16 | ValueType::I16 => v < 0x10000,
        ValueType::U32 | ValueType::I32 | ValueType::F32 => v < 0x1_0000_0000,
        ValueType::F64 => true,
    }
}

/// Little-endian wire bytes of one element, given as its bit pattern.
pub open spec fn elem_to_bytes(t: ValueType, v: u64) -> Seq<u8> {
    match t {
        ValueType::U8 | ValueType::I8 => seq![v as u8],
        ValueType::U16 | ValueType::I16 => spec_u16_to_le_bytes(v as u16),
        ValueType::U32 | ValueType::I32 | ValueType::F32 => spec_u32_to_le_bytes(v as u32),
        ValueType::F64 => spec_u64_to_le_bytes(v),
    }
}

/// Element bit pattern read from its little-endian wire bytes.
pub open spec fn elem_from_bytes(t: ValueType, s: Seq<u8>) -> u64 {
    match t {
        ValueType::U8 | ValueType::I8 => s[0] as u64,
        ValueType::U16 | ValueType::I16 => spec_u16_from_le_bytes(s) as u64,
        ValueType::U32 | ValueType::I32 | ValueType::F32 => spec_u32_from_le_bytes(s) as u64,
        ValueType::F64 => spec_u64_from_le_bytes(s),
    }
}

/// Encoding an element and reading it back is the identity, in both
/// directions, on byte strings of the element's exact size and on bit
/// patterns that fit the element.
pub proof fn lemma_elem_codec(t: ValueType)
    ensures
        forall|v: u64|
            elem_fits(t, v) ==> (#[trigger] elem_to_bytes(t, v)).len() == t.size_spec(),
        forall|v: u64|
            elem_fits(t, v) ==> elem_from_bytes(t, #[trigger] elem_to_bytes(t, v)) == v,
        forall|s: Seq<u8>|
            s.len() == t.size_spec() ==> elem_fits(t, #[trigger] elem_from_bytes(t, s)),
        forall|s: Seq<u8>|
            s.len() == t.size_spec() ==> elem_to_bytes(t, #[trigger] elem_from_bytes(t, s)) =~= s,
{
    lemma_auto_spec_u16_to_from_le_bytes();
    lemma_auto_spec_u32_to_from_le_bytes();
    lemma_auto_spec_u64_to_from_le_bytes();
    assert forall|s: Seq<u8>| s.len() == t.size_spec() implies elem_to_bytes(
        t,
        #[trigger] elem_from_bytes(t, s),
    ) =~= s by {
        match t {
            ValueType::U8 | ValueType::I8 => {
                assert(elem_to_bytes(t, elem_from_bytes(t, s)) =~= s);
            },
            _ => {},
        }
    }
}

/// Read one element's bit pattern out of a byte buffer.
pub fn read_elem(t: ValueType, data: &[u8], off: usize) -> (r: u64)
    requires
        off + t.size_spec() <= data@.len(),
    ensures
        r == elem_from_bytes(t, data@.subrange(off as int, off + t.size_spec())),
        elem_fits(t, r),
{
    proof {
        lemma_auto_spec_u16_to_from_le_bytes();
        lemma_auto_spec_u32_to_from_le_bytes();
        lemma_auto_spec_u64_to_from_le_bytes();
    }
    let n = data.len();
    match t {
        ValueType::U8 | ValueType::I8 => {
            let b = *vstd::slice::slice_index_get(data, off);
            proof {
                assert(data@.subrange(off as int, off + 1)[0] == data@[off as int]);
            }
            b as u64
        },
        ValueType::U16 | ValueType::I16 => {
            let s = vstd::slice::slice_subrange(data, off, off + 2);
            u16_from_le_bytes(s) as u64
        },
        ValueType::U32 | ValueType::I32 | ValueType::F32 => {
            let s = vstd::slice::slice_subrange(data, off, off + 4);
            u32_from_le_bytes(s) as u64
        },
        ValueType::F64 => {
            let s = vstd::slice::slice_subrange(data, off, off + 8);
            u64_from_le_bytes(s)
        },
    }
}

/// Append one element's little-endian wire bytes to a buffer.
pub fn append_elem(out: &mut Vec<u8>, t: ValueType, v: u64)
    requires
        elem_fits(t, v),
        old(out)@.len() + t.size_spec() <= usize::MAX,
    ensures
        final(out)@ =~= old(out)@ + elem_to_bytes(t, v),
{
    match t {
        ValueType::U8 | ValueType::I8 => {
            out.push(v as u8);
        },
        ValueType::U16 | ValueType::I16 => {
            let mut b = u16_to_le_bytes(v as u16);
            out.append(&mut b);
        },
        ValueType::U32 | ValueType::I32 | ValueType::F32 => {
            let mut b = u32_to_le_bytes(v as u32);
            out.append(&mut b);
        },
        ValueType::F64 => {
            let mut b = u64_to_le_bytes(v);
            out.append(&mut b);
        },
    }
}

} // verus!
