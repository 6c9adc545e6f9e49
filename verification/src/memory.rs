//! Memory types, memory requirements and the choice of a memory type.

use vstd::prelude::*;

verus! {

/// One memory type offered by a physical device: the raw bits of its property
/// flags (`VkMemoryPropertyFlags`) and the index of the heap it draws from.
#[derive(Clone, Copy, Debug, PartialEq, Eq)]
pub struct MemoryType {
    pub property_flags: u32,
    pub heap_index: u32,
}

/// What a resource asks of the memory bound to it: a size, an alignment and
/// the set of memory type indices it accepts, bit `i` standing for type `i`.
#[derive(Clone, Copy, Debug, PartialEq, Eq)]
pub struct MemoryRequirements {
    pub size: u64,
    pub alignment: u64,
    pub memory_type_bits: u32,
}

/// `flags` holds every bit of `other`.
pub open spec fn flags_contain(flags: u32, other: u32) -> bool {
    flags & other == other
}

/// Bit `b` of `bits` is set, for a bit position below 32.
pub open spec fn bit_of(bits: u32, b: u32) -> bool {
    (bits >> b) & 1u32 == 1u32
}

/// Bit `i` of `bits` is set (only bits 0 to 31 exist).
pub open spec fn bit_is_set(bits: u32, i: int) -> bool {
    0 <= i < 32 && (bits >> (i as u32)) & 1u32 == 1u32
}

/// Memory type `i` of `types` is accepted by `requirements` and has every
/// property flag of `flags`.
pub open spec fn memory_type_matches(
    types: Seq<MemoryType>,
    requirements: MemoryRequirements,
    flags: u32,
    i: int,
) -> bool {
    &&& 0 <= i < types.len()
    &&& bit_is_set(requirements.memory_type_bits, i)
    &&& flags_contain(types[i].property_flags, flags)
}

/// One set of flags contains another exactly when every bit set in the other
/// is set in it too; bits set only in the first do not matter.
pub proof fn lemma_flags_contain_bitwise(flags: u32, other: u32)
    ensures
        flags_contain(flags, other) <==> forall|b: u32|
            b < 32 ==> (#[trigger] bit_of(other, b) ==> bit_of(flags, b)),
{
    if flags_contain(flags, other) {
        assert forall|b: u32| b < 32 && #[trigger] bit_of(other, b) implies bit_of(flags, b) by {
            assert((flags >> b) & 1u32 == 1u32) by (bit_vector)
                requires
                    flags & other == other,
                    b < 32,
                    (other >> b) & 1u32 == 1u32,
            ;
        }
    }
    if forall|b: u32| b < 32 ==> (#[trigger] bit_of(other, b) ==> bit_of(flags, b)) {
        assert(bit_of(other, 0u32) ==> bit_of(flags, 0u32));
        assert(bit_of(other, 1u32) ==> bit_of(flags, 1u32));
        assert(bit_of(other, 2u32) ==> bit_of(flags, 2u32));
        assert(bit_of(other, 3u32) ==> bit_of(flags, 3u32));
        assert(bit_of(other, 4u32) ==> bit_of(flags, 4u32));
        assert(bit_of(other, 5u32) ==> bit_of(flags, 5u32));
        assert(bit_of(other, 6u32) ==> bit_of(flags, 6u32));
        assert(bit_of(other, 7u32) ==> bit_of(flags, 7u32));
        assert(bit_of(other, 8u32) ==> bit_of(flags, 8u32));
        assert(bit_of(other, 9u32) ==> bit_of(flags, 9u32));
        assert(bit_of(other, 10u32) ==> bit_of(flags, 10u32));
        assert(bit_of(other, 11u32) ==> bit_of(flags, 11u32));
        assert(bit_of(other, 12u32) ==> bit_of(flags, 12u32));
        assert(bit_of(other, 13u32) ==> bit_of(flags, 13u32));
        assert(bit_of(other, 14u32) ==> bit_of(flags, 14u32));
        assert(bit_of(other, 15u32) ==> bit_of(flags, 15u32));
        assert(bit_of(other, 16u32) ==> bit_of(flags, 16u32));
        assert(bit_of(other, 17u32) ==> bit_of(flags, 17u32));
        assert(bit_of(other, 18u32) ==> bit_of(flags, 18u32));
        assert(bit_of(other, 19u32) ==> bit_of(flags, 19u32));
        assert(bit_of(other, 20u32) ==> bit_of(flags, 20u32));
        assert(bit_of(other, 21u32) ==> bit_of(flags, 21u32));
        assert(bit_of(other, 22u32) ==> bit_of(flags, 22u32));
        assert(bit_of(other, 23u32) ==> bit_of(flags, 23u32));
        assert(bit_of(other, 24u32) ==> bit_of(flags, 24u32));
        assert(bit_of(other, 25u32) ==> bit_of(flags, 25u32));
        assert(bit_of(other, 26u32) ==> bit_of(flags, 26u32));
        assert(bit_of(other, 27u32) ==> bit_of(flags, 27u32));
        assert(bit_of(other, 28u32) ==> bit_of(flags, 28u32));
        assert(bit_of(other, 29u32) ==> bit_of(flags, 29u32));
        assert(bit_of(other, 30u32) ==> bit_of(flags, 30u32));
        assert(bit_of(other, 31u32) ==> bit_of(flags, 31u32));
        assert(flags & other == other) by (bit_vector)
            requires
                (other >> 0u32) & 1u32 == 1u32 ==> (flags >> 0u32) & 1u32 == 1u32,
                (other >> 1u32) & 1u32 == 1u32 ==> (flags >> 1u32) & 1u32 == 1u32,
                (other >> 2u32) & 1u32 == 1u32 ==> (flags >> 2u32) & 1u32 == 1u32,
                (other >> 3u32) & 1u32 == 1u32 ==> (flags >> 3u32) & 1u32 == 1u32,
                (other >> 4u32) & 1u32 == 1u32 ==> (flags >> 4u32) & 1u32 == 1u32,
                (other >> 5u32) & 1u32 == 1u32 ==> (flags >> 5u32) & 1u32 == 1u32,
                (other >> 6u32) & 1u32 == 1u32 ==> (flags >> 6u32) & 1u32 == 1u32,
                (other >> 7u32) & 1u32 == 1u32 ==> (flags >> 7u32) & 1u32 == 1u32,
                (other >> 8u32) & 1u32 == 1u32 ==> (flags >> 8u32) & 1u32 == 1u32,
                (other >> 9u32) & 1u32 == 1u32 ==> (flags >> 9u32) & 1u32 == 1u32,
                (other >> 10u32) & 1u32 == 1u32 ==> (flags >> 10u32) & 1u32 == 1u32,
                (other >> 11u32) & 1u32 == 1u32 ==> (flags >> 11u32) & 1u32 == 1u32,
                (other >> 12u32) & 1u32 == 1u32 ==> (flags >> 12u32) & 1u32 == 1u32,
                (other >> 13u32) & 1u32 == 1u32 ==> (flags >> 13u32) & 1u32 == 1u32,
                (other >> 14u32) & 1u32 == 1u32 ==> (flags >> 14u32) & 1u32 == 1u32,
                (other >> 15u32) & 1u32 == 1u32 ==> (flags >> 15u32) & 1u32 == 1u32,
                (other >> 16u32) & 1u32 == 1u32 ==> (flags >> 16u32) & 1u32 == 1u32,
                (other >> 17u32) & 1u32 == 1u32 ==> (flags >> 17u32) & 1u32 == 1u32,
                (other >> 18u32) & 1u32 == 1u32 ==> (flags >> 18u32) & 1u32 == 1u32,
                (other >> 19u32) & 1u32 == 1u32 ==> (flags >> 19u32) & 1u32 == 1u32,
                (other >> 20u32) & 1u32 == 1u32 ==> (flags >> 20u32) & 1u32 == 1u32,
                (other >> 21u32) & 1u32 == 1u32 ==> (flags >> 21u32) & 1u32 == 1u32,
                (other >> 22u32) & 1u32 == 1u32 ==> (flags >> 22u32) & 1u32 == 1u32,
                (other >> 23u32) & 1u32 == 1u32 ==> (flags >> 23u32) & 1u32 == 1u32,
                (other >> 24u32) & 1u32 == 1u32 ==> (flags >> 24u32) & 1u32 == 1u32,
                (other >> 25u32) & 1u32 == 1u32 ==> (flags >> 25u32) & 1u32 == 1u32,
                (other >> 26u32) & 1u32 == 1u32 ==> (flags >> 26u32) & 1u32 == 1u32,
                (other >> 27u32) & 1u32 == 1u32 ==> (flags >> 27u32) & 1u32 == 1u32,
                (other >> 28u32) & 1u32 == 1u32 ==> (flags >> 28u32) & 1u32 == 1u32,
                (other >> 29u32) & 1u32 == 1u32 ==> (flags >> 29u32) & 1u32 == 1u32,
                (other >> 30u32) & 1u32 == 1u32 ==> (flags >> 30u32) & 1u32 == 1u32,
                (other >> 31u32) & 1u32 == 1u32 ==> (flags >> 31u32) & 1u32 == 1u32,
        ;
    }
}

/// A memory type is chosen by its own position in the list: type `i` can be
/// chosen exactly when bit `i` of the accepted-type bits is set (tested as
/// `bits & (1 << i) != 0`) and its property flags hold every requested flag.
/// Nothing else of the type, such as its heap, plays a part.
pub proof fn lemma_memory_type_matches_by_index(
    types: Seq<MemoryType>,
    requirements: MemoryRequirements,
    flags: u32,
    i: int,
)
    ensures
        memory_type_matches(types, requirements, flags, i) <==> {
            &&& 0 <= i < types.len()
            &&& i < 32
            &&& requirements.memory_type_bits & (1u32 << (i as u32)) != 0
            &&& types[i].property_flags & flags == flags
        },
{
    if 0 <= i < 32 {
        let bits = requirements.memory_type_bits;
        let k = i as u32;
        assert((bits & (1u32 << k) != 0) == ((bits >> k) & 1u32 == 1u32)) by (bit_vector)
            requires
                k < 32,
        ;
    }
}

/// Whether `flags` holds every bit of `other`, as the `contains` of a set of
/// Vulkan flags answers it.
pub fn contains_flags(flags: u32, other: u32) -> (r: bool)
    ensures
        r == flags_contain(flags, other),
{
    flags & other == other
}

/// Returns the index of the first memory type that the requirements accept
/// and that has all the requested property flags, or `None` if there is none.
///
/// A set of requirements names at most 32 memory types; the search must find
/// a match among the first 32 types whenever more are given.
pub fn find_memory_type_idx(
    memory_types: &[MemoryType],
    requirements: MemoryRequirements,
    flags: u32,
) -> (r: Option<u32>)
    requires
        memory_types@.len() <= 32 || exists|i: int|
            0 <= i < 32 && #[trigger] memory_type_matches(memory_types@, requirements, flags, i),
    ensures
        match r {
            Some(idx) => {
                &&& memory_type_matches(memory_types@, requirements, flags, idx as int)
                &&& forall|j: int|
                    0 <= j < idx ==> !#[trigger] memory_type_matches(
                        memory_types@,
                        requirements,
                        flags,
                        j,
                    )
            },
            None => forall|j: int|
                0 <= j < memory_types@.len() ==> !#[trigger] memory_type_matches(
                    memory_types@,
                    requirements,
                    flags,
                    j,
                ),
        },
{
    let n = memory_types.len();
    let mut i: usize = 0;
    while i < n
        invariant
            n == memory_types@.len(),
            i <= n,
            memory_types@.len() <= 32 || exists|k: int|
                0 <= k < 32 && #[trigger] memory_type_matches(memory_types@, requirements, flags, k),
            forall|j: int|
                0 <= j < i ==> !#[trigger] memory_type_matches(
                    memory_types@,
                    requirements,
                    flags,
                    j,
                ),
        decreases n - i,
    {
        if i >= 32 {
            proof {
                let k = choose|k: int|
                    0 <= k < 32 && #[trigger] memory_type_matches(
                        memory_types@,
                        requirements,
                        flags,
                        k,
                    );
                assert(!memory_type_matches(memory_types@, requirements, flags, k));
            }
        }
        let bits = requirements.memory_type_bits;
        let shift = i as u32;
        let is_supported_type = bits & (1u32 << shift) != 0;
        let has_requested_flags = contains_flags(memory_types[i].property_flags, flags);
        assert(is_supported_type == ((bits >> shift) & 1u32 == 1u32)) by (bit_vector)
            requires
                shift < 32,
                is_supported_type == (bits & (1u32 << shift) != 0),
        ;
        if is_supported_type && has_requested_flags {
            return Some(shift);
        }
        i = i + 1;
    }
    None
}

} // verus!
