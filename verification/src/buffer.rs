//! Sizes and places in buffers and device memory.

use crate::codes::{ash_memory_properties, contains_flags, has_flags};
use vstd::arithmetic::power2::{lemma_pow2_pos, pow2};
use vstd::bits::{lemma_u64_low_bits_mask_is_mod, low_bits_mask};
use vstd::prelude::*;

verus! {

/// A size rounded up to an alignment, by masking; see
/// `law_alignment_rounds_up` for what that is.
pub open spec fn rounded_up(size: int, align: int) -> u64 {
    ((size + align - 1) as u64) & !((align - 1) as u64)
}

/// For an alignment that is a power of two the rounded size is the least
/// multiple of the alignment that holds the size.
pub proof fn law_alignment_rounds_up(size: u64, k: nat)
    requires
        k < 64,
        size + pow2(k) - 1 <= u64::MAX,
    ensures
        rounded_up(size as int, pow2(k) as int) as int % (pow2(k) as int) == 0,
        size <= rounded_up(size as int, pow2(k) as int) < size + pow2(k),
{
    lemma_pow2_pos(k);
    let a = pow2(k) as int;
    vstd::bits::lemma_low_bits_mask_values();
    vstd::arithmetic::power2::lemma2_to64();
    vstd::arithmetic::power2::lemma2_to64_rest();
    vstd::arithmetic::power2::lemma_pow2_strictly_increases(k, 64);
    let x: u64 = (size + a - 1) as u64;
    let m: u64 = (a - 1) as u64;
    assert(low_bits_mask(k) == a - 1);
    lemma_u64_low_bits_mask_is_mod(x, k);
    assert(x & m == x as int % a);
    assert((x & !m) + (x & m) == x) by (bit_vector);
    vstd::arithmetic::div_mod::lemma_fundamental_div_mod(x as int, a);
    let q = x as int / a;
    assert(x as int - x as int % a == a * q);
    vstd::arithmetic::div_mod::lemma_mod_multiples_basic(q, a);
    assert(q * a == a * q) by (nonlinear_arith);
}

/// A size rounded up to an alignment.
pub fn align_up(size: u64, align: u64) -> (r: u64)
    requires
        align > 0,
        size + align - 1 <= u64::MAX,
    ensures
        r == rounded_up(size as int, align as int),
{
    (size + (align - 1)) & !(align - 1)
}

/// The size of a bitstream buffer that is to hold `size` bytes.
pub fn aligned_size(size: u64, alignment: u32) -> (r: u64)
    requires
        alignment > 0,
        size + alignment - 1 <= u64::MAX,
    ensures
        r == rounded_up(size as int, alignment as int),
{
    align_up(size, alignment as u64)
}

/// How the data of one frame lie in the bitstream buffer.
#[derive(Debug, Clone, Copy, PartialEq, Eq, Structural)]
pub struct BitstreamRange {
    /// Where padding begins, behind the data.
    pub padding_start: u64,
    /// How much padding there is.
    pub padding_size: u64,
    /// How much the decoder reads.
    pub aligned_size: u64,
}

/// The size that the decoder reads for data of the given length: rounded up to
/// the alignment, and never zero. An alignment of zero counts as one.
pub open spec fn decode_size(len: int, alignment: int) -> int {
    let a = if alignment == 0 {
        1
    } else {
        alignment
    };
    let r = rounded_up(len, a) as int;
    if r < a {
        a
    } else {
        r
    }
}

/// The size that the decoder reads for data of the given length.
pub fn padded_size(len: u64, alignment: u64) -> (r: u64)
    requires
        len + alignment - 1 <= u64::MAX,
    ensures
        r == decode_size(len as int, alignment as int),
{
    let a: u64 = if alignment == 0 {
        1
    } else {
        alignment
    };
    let up: u64 = align_up(len, a);
    if up < a {
        a
    } else {
        up
    }
}

/// How data of the given length lie in the bitstream buffer.
pub fn bitstream_range(len: u64, alignment: u64) -> (r: BitstreamRange)
    requires
        len + alignment - 1 <= u64::MAX,
        decode_size(len as int, alignment as int) >= len,
    ensures
        r.padding_start == len,
        r.aligned_size == decode_size(len as int, alignment as int),
        r.padding_size == r.aligned_size - len,
{
    let size: u64 = padded_size(len, alignment);
    BitstreamRange { padding_start: len, padding_size: size - len, aligned_size: size }
}

/// With an alignment that is a power of two the decoder reads at least the data,
/// in whole multiples of the alignment.
pub proof fn law_decode_size_holds_data(len: u64, k: nat)
    requires
        k < 64,
        len + pow2(k) - 1 <= u64::MAX,
    ensures
        len <= decode_size(len as int, pow2(k) as int),
        decode_size(len as int, pow2(k) as int) > 0,
        decode_size(len as int, pow2(k) as int) % (pow2(k) as int) == 0,
{
    lemma_pow2_pos(k);
    law_alignment_rounds_up(len, k);
    vstd::arithmetic::div_mod::lemma_mod_self_0(pow2(k) as int);
}

/// The size that is flushed or invalidated: zero stands for the whole buffer.
pub open spec fn mapped_range_size(size: u64) -> u64 {
    if size == 0 {
        u64::MAX
    } else {
        size
    }
}

/// The size that is flushed or invalidated: zero stands for the whole buffer.
pub fn flush_size(size: u64) -> (r: u64)
    ensures
        r == mapped_range_size(size),
{
    if size == 0 {
        u64::MAX
    } else {
        size
    }
}

/// Memory type `i` is allowed by the type bits and has the wanted properties.
pub open spec fn is_suitable(types: Seq<u32>, type_bits: u32, wanted: u32, i: int) -> bool {
    (type_bits & (1u32 << (i as u32))) != 0 && has_flags(types[i], wanted)
}

/// The first suitable memory type. `types` gives the properties of each.
pub fn find_memory_type(types: &[u32], type_bits: u32, wanted: u32) -> (r: Option<u32>)
    requires
        types@.len() <= 32,
    ensures
        match r {
            Some(i) => {
                &&& i < types@.len()
                &&& is_suitable(types@, type_bits, wanted, i as int)
                &&& forall|j: int|
                    0 <= j < i ==> !#[trigger] is_suitable(types@, type_bits, wanted, j)
            },
            None => forall|j: int|
                0 <= j < types@.len() ==> !#[trigger] is_suitable(types@, type_bits, wanted, j),
        },
{
    let mut i: u32 = 0;
    while (i as usize) < types.len()
        invariant
            i <= types@.len() <= 32,
            forall|j: int| 0 <= j < i ==> !#[trigger] is_suitable(types@, type_bits, wanted, j),
        decreases types@.len() - i,
    {
        if (type_bits & (1u32 << i)) != 0 && contains_flags(types[i as usize], wanted) {
            return Some(i);
        }
        i = i + 1;
    }
    None
}

/// What memory is wanted for.
#[derive(Debug, Clone, Copy, PartialEq, Eq, Structural)]
pub enum MemoryUse {
    /// Images that only the device reads and writes.
    DeviceLocal,
    /// Buffers that the host writes.
    HostWrite,
    /// Buffers that the host reads, coherently if that can be had.
    HostRead,
}

/// The properties that a use of memory asks for.
pub open spec fn memory_flags(u: MemoryUse) -> u32 {
    match u {
        MemoryUse::DeviceLocal => 1,
        MemoryUse::HostWrite => 6,
        MemoryUse::HostRead => 6,
    }
}

/// The first memory type that has all the properties of `wanted`.
pub open spec fn is_first_suitable(
    types: Seq<u32>,
    type_bits: u32,
    wanted: u32,
    r: Option<u32>,
) -> bool {
    match r {
        Some(i) => {
            &&& i < types.len()
            &&& is_suitable(types, type_bits, wanted, i as int)
            &&& forall|j: int| 0 <= j < i ==> !#[trigger] is_suitable(types, type_bits, wanted, j)
        },
        None => forall|j: int|
            0 <= j < types.len() ==> !#[trigger] is_suitable(types, type_bits, wanted, j),
    }
}

/// The memory type for a use. Memory that the host reads need not be coherent
/// where no visible memory is.
pub open spec fn is_memory_for(
    types: Seq<u32>,
    type_bits: u32,
    u: MemoryUse,
    r: Option<u32>,
) -> bool {
    if u == MemoryUse::HostRead && is_first_suitable(types, type_bits, 6, None) {
        is_first_suitable(types, type_bits, 2, r)
    } else {
        is_first_suitable(types, type_bits, memory_flags(u), r)
    }
}

/// The memory type for a use.
pub fn memory_type_for(types: &[u32], type_bits: u32, u: MemoryUse) -> (r: Option<u32>)
    requires
        types@.len() <= 32,
    ensures
        is_memory_for(types@, type_bits, u, r),
{
    let flags: [u32; 3] = ash_memory_properties();
    let both: u32 = flags[1] | flags[2];
    assert(2u32 | 4u32 == 6u32) by (bit_vector);
    match u {
        MemoryUse::DeviceLocal => find_memory_type(types, type_bits, flags[0]),
        MemoryUse::HostWrite => find_memory_type(types, type_bits, both),
        MemoryUse::HostRead => {
            let coherent: Option<u32> = find_memory_type(types, type_bits, both);
            if coherent.is_some() {
                coherent
            } else {
                find_memory_type(types, type_bits, flags[1])
            }
        },
    }
}

/// With an alignment that is a power of two the decoder reads no more than the least
/// positive multiple of it that holds the data.
pub proof fn law_decode_size_is_least(len: u64, k: nat)
    requires
        k < 64,
        len + pow2(k) - 1 <= u64::MAX,
    ensures
        len > 0 ==> decode_size(len as int, pow2(k) as int) < len + pow2(k),
        len == 0 ==> decode_size(len as int, pow2(k) as int) == pow2(k),
        len + 0 <= u64::MAX ==> decode_size(len as int, 0) == (if len == 0 {
            1
        } else {
            len as int
        }),
{
    law_alignment_rounds_up(len, k);
    vstd::arithmetic::power2::lemma_pow2_pos(k);
    if len == 0 {
        let r = rounded_up(0, pow2(k) as int) as int;
        let p = pow2(k) as int;
        assert(r == 0) by {
            vstd::arithmetic::div_mod::lemma_small_mod(r as nat, p as nat);
        }
    } else {
        let r = rounded_up(len as int, pow2(k) as int) as int;
        let p = pow2(k) as int;
        if r < p {
            vstd::arithmetic::div_mod::lemma_small_mod(r as nat, p as nat);
        }
    }
    vstd::arithmetic::power2::lemma2_to64();
    law_alignment_rounds_up(len, 0);
    assert(pow2(0) == 1);
}

/// The memory that is chosen is of a type that is allowed, and of the first that has what
/// its use asks for: device memory is local to the device; memory that the host writes is
/// visible to it and coherent; and so is memory that it reads, or visible at least.
pub proof fn law_chosen_memory_is_usable(
    types: Seq<u32>,
    type_bits: u32,
    u: MemoryUse,
    i: u32,
)
    requires
        types.len() <= 32,
        is_memory_for(types, type_bits, u, Some(i)),
    ensures
        i < types.len(),
        (type_bits >> i) & 1 == 1,
        u == MemoryUse::DeviceLocal ==> types[i as int] & 1 == 1,
        u == MemoryUse::HostWrite ==> types[i as int] & 2 == 2 && types[i as int] & 4 == 4,
        u == MemoryUse::HostRead ==> types[i as int] & 2 == 2,
{
    let t = types[i as int];
    assert((type_bits >> i) & 1 == 1) by (bit_vector)
        requires
            type_bits & (1u32 << i) != 0,
            i < 32,
    ;
    assert(t & 6 == 6 ==> t & 2 == 2 && t & 4 == 4) by (bit_vector);
}

/// There is memory for a use as long as one of the allowed types has what it asks for, and
/// the first of them is chosen.
pub proof fn law_usable_memory_is_chosen(
    types: Seq<u32>,
    type_bits: u32,
    u: MemoryUse,
    r: Option<u32>,
    j: u32,
)
    requires
        types.len() <= 32,
        is_memory_for(types, type_bits, u, r),
        j < types.len(),
        (type_bits >> j) & 1 == 1,
        u == MemoryUse::DeviceLocal ==> types[j as int] & 1 == 1,
        u == MemoryUse::HostWrite || u == MemoryUse::HostRead ==> types[j as int] & 2 == 2
            && types[j as int] & 4 == 4,
    ensures
        r matches Some(i) && i <= j,
{
    let t = types[j as int];
    assert(type_bits & (1u32 << j) != 0) by (bit_vector)
        requires
            (type_bits >> j) & 1 == 1,
            j < 32,
    ;
    assert(t & 2 == 2 && t & 4 == 4 ==> t & 6 == 6) by (bit_vector);
    assert(is_suitable(types, type_bits, memory_flags(u), j as int));
}

/// A size of zero stands for all of the memory, and any other for itself.
pub proof fn law_flushed_sizes(size: u64)
    ensures
        mapped_range_size(0) == u64::MAX,
        size != 0 ==> mapped_range_size(size) == size,
{
}

} // verus!
