//! The choice of a physical device and of a queue family on it for compute work.

use vstd::prelude::*;
use crate::memory::{contains_flags, flags_contain, bit_of};

verus! {

/// The raw bits of `ash::vk::QueueFlags::COMPUTE`, which ash defines as `0b10`.
pub open spec fn compute_bit() -> u32 {
    0b10u32
}

/// The raw bits of `ash::vk::QueueFlags::TRANSFER`, which ash defines as `0b100`.
pub open spec fn transfer_bit() -> u32 {
    0b100u32
}

/// Trusted: reads the raw bits of `ash::vk::QueueFlags::COMPUTE` through its
/// `as_raw`; ash's source defines the constant as `Self(0b10)`.
#[verifier::external_body]
fn queue_flag_compute() -> (r: u32)
    ensures
        r == compute_bit(),
{
    ash::vk::QueueFlags::COMPUTE.as_raw()
}

/// Trusted: reads the raw bits of `ash::vk::QueueFlags::TRANSFER` through its
/// `as_raw`; ash's source defines the constant as `Self(0b100)`.
#[verifier::external_body]
fn queue_flag_transfer() -> (r: u32)
    ensures
        r == transfer_bit(),
{
    ash::vk::QueueFlags::TRANSFER.as_raw()
}

/// A queue family with these raw queue flags supports both compute and
/// transfer operations.
pub open spec fn is_suitable_queue_family(queue_flags: u32) -> bool {
    flags_contain(queue_flags, compute_bit() | transfer_bit())
}

/// Some queue family in `families` is suitable.
pub open spec fn has_suitable_family(families: Seq<u32>) -> bool {
    exists|j: int| 0 <= j < families.len() && #[trigger] is_suitable_queue_family(families[j])
}

/// `q` is the index of the first suitable queue family in `families`.
pub open spec fn is_first_suitable_family(families: Seq<u32>, q: int) -> bool {
    &&& 0 <= q < families.len()
    &&& is_suitable_queue_family(families[q])
    &&& forall|j: int| 0 <= j < q ==> !#[trigger] is_suitable_queue_family(families[j])
}

/// A queue family is suitable exactly when its flags have both the compute bit
/// (bit 1) and the transfer bit (bit 2) set, whatever other bits it has.
pub proof fn lemma_suitable_family_bits(queue_flags: u32)
    ensures
        is_suitable_queue_family(queue_flags) <==> queue_flags & 0b110u32 == 0b110u32,
        is_suitable_queue_family(queue_flags) <==> bit_of(queue_flags, 1) && bit_of(queue_flags, 2),
{
    assert(compute_bit() | transfer_bit() == 0b110u32) by (bit_vector);
    assert((queue_flags & 0b110u32 == 0b110u32) == ((queue_flags >> 1u32) & 1u32 == 1u32
        && (queue_flags >> 2u32) & 1u32 == 1u32)) by (bit_vector);
}

/// A device qualifies exactly when it supports at least the requested version
/// and some queue family of it is suitable. So a device that qualifies for a
/// version qualifies for every lower requested version, and a device with the
/// same queue families and a higher version of its own qualifies as well.
pub proof fn lemma_suitable_device_at_least_version(
    device: PhysicalDeviceInfo,
    newer: PhysicalDeviceInfo,
    api_version: u32,
    lower: u32,
)
    ensures
        is_suitable_device(device, api_version) <==> (device.api_version >= api_version
            && exists|j: int|
            0 <= j < device.queue_family_flags@.len() && #[trigger] device.queue_family_flags@[j]
                & 0b110u32 == 0b110u32),
        is_suitable_device(device, api_version) && lower <= api_version ==> is_suitable_device(
            device,
            lower,
        ),
        is_suitable_device(device, api_version) && newer.api_version >= device.api_version
            && newer.queue_family_flags@ == device.queue_family_flags@ ==> is_suitable_device(
            newer,
            api_version,
        ),
{
    let f = device.queue_family_flags@;
    assert forall|j: int| 0 <= j < f.len() implies is_suitable_queue_family(#[trigger] f[j]) == (f[j]
        & 0b110u32 == 0b110u32) by {
        lemma_suitable_family_bits(f[j]);
    }
}

/// Returns the index of the first queue family, given by the raw bits of its
/// queue flags, that supports both compute and transfer operations.
pub fn find_suitable_queue_family(queue_flags: &[u32]) -> (r: Option<usize>)
    ensures
        match r {
            Some(q) => is_first_suitable_family(queue_flags@, q as int),
            None => !has_suitable_family(queue_flags@),
        },
{
    let required = queue_flag_compute() | queue_flag_transfer();
    let n = queue_flags.len();
    let mut i: usize = 0;
    while i < n
        invariant
            n == queue_flags@.len(),
            i <= n,
            required == compute_bit() | transfer_bit(),
            forall|j: int| 0 <= j < i ==> !#[trigger] is_suitable_queue_family(queue_flags@[j]),
        decreases n - i,
    {
        if contains_flags(queue_flags[i], required) {
            return Some(i);
        }
        i = i + 1;
    }
    None
}

/// What the choice of a device reads of one physical device: the API version
/// it supports, packed as Vulkan packs versions, and the raw queue flags of its
/// queue families, in the order the device reports them.
#[derive(Debug, PartialEq, Eq)]
pub struct PhysicalDeviceInfo {
    pub api_version: u32,
    pub queue_family_flags: Vec<u32>,
}

/// The device supports at least `api_version` and has a queue family that
/// supports both compute and transfer operations.
pub open spec fn is_suitable_device(device: PhysicalDeviceInfo, api_version: u32) -> bool {
    &&& device.api_version >= api_version
    &&& has_suitable_family(device.queue_family_flags@)
}

/// Selects the first physical device, in the order given, that supports at
/// least `api_version` and has a queue family supporting both compute and
/// transfer operations, and returns its index together with the index of the
/// first such family on it.
pub fn select_compute_device(devices: &[PhysicalDeviceInfo], api_version: u32) -> (r: Option<
    (usize, usize),
>)
    ensures
        match r {
            Some((d, q)) => {
                &&& d < devices@.len()
                &&& devices@[d as int].api_version >= api_version
                &&& is_first_suitable_family(devices@[d as int].queue_family_flags@, q as int)
                &&& forall|e: int|
                    0 <= e < d ==> !is_suitable_device(#[trigger] devices@[e], api_version)
            },
            None => forall|e: int|
                0 <= e < devices@.len() ==> !is_suitable_device(#[trigger] devices@[e], api_version),
        },
{
    let n = devices.len();
    let mut d: usize = 0;
    while d < n
        invariant
            n == devices@.len(),
            d <= n,
            forall|e: int| 0 <= e < d ==> !is_suitable_device(#[trigger] devices@[e], api_version),
        decreases n - d,
    {
        let device = &devices[d];
        if device.api_version >= api_version {
            match find_suitable_queue_family(device.queue_family_flags.as_slice()) {
                Some(q) => {
                    return Some((d, q));
                },
                None => {},
            }
        }
        d = d + 1;
    }
    None
}

} // verus!
