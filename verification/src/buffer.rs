//! The sizes and memory properties of the buffers that the host shares with
//! the GPU.

use vstd::prelude::*;

verus! {

/// The raw bits of `ash::vk::MemoryPropertyFlags::DEVICE_LOCAL` (`0b1` in ash).
pub open spec fn device_local_bit() -> u32 {
    0b1u32
}

/// The raw bits of `ash::vk::MemoryPropertyFlags::HOST_VISIBLE` (`0b10` in ash).
pub open spec fn host_visible_bit() -> u32 {
    0b10u32
}

/// The raw bits of `ash::vk::MemoryPropertyFlags::HOST_COHERENT` (`0b100` in ash).
pub open spec fn host_coherent_bit() -> u32 {
    0b100u32
}

/// Trusted: the raw bits of `ash::vk::MemoryPropertyFlags::DEVICE_LOCAL`,
/// read through `as_raw`; ash's source defines the constant as `Self(0b1)`.
#[verifier::external_body]
fn memory_property_device_local() -> (r: u32)
    ensures
        r == device_local_bit(),
{
    ash::vk::MemoryPropertyFlags::DEVICE_LOCAL.as_raw()
}

/// Trusted: the raw bits of `ash::vk::MemoryPropertyFlags::HOST_VISIBLE`,
/// read through `as_raw`; ash's source defines the constant as `Self(0b10)`.
#[verifier::external_body]
fn memory_property_host_visible() -> (r: u32)
    ensures
        r == host_visible_bit(),
{
    ash::vk::MemoryPropertyFlags::HOST_VISIBLE.as_raw()
}

/// Trusted: the raw bits of `ash::vk::MemoryPropertyFlags::HOST_COHERENT`,
/// read through `as_raw`; ash's source defines the constant as `Self(0b100)`.
#[verifier::external_body]
fn memory_property_host_coherent() -> (r: u32)
    ensures
        r == host_coherent_bit(),
{
    ash::vk::MemoryPropertyFlags::HOST_COHERENT.as_raw()
}

/// The memory properties required of a buffer that both the host and the GPU
/// use: device-local, host-visible and host-coherent.
pub fn shared_memory_flags() -> (r: u32)
    ensures
        r == device_local_bit() | host_visible_bit() | host_coherent_bit(),
        r == 7,
{
    let r = memory_property_device_local() | memory_property_host_visible()
        | memory_property_host_coherent();
    assert(0b1u32 | 0b10u32 | 0b100u32 == 7u32) by (bit_vector);
    r
}

/// The size in bytes of a buffer of `size` elements of type `T`.
pub fn buffer_byte_size<T>(size: usize) -> (r: u64)
    requires
        size * vstd::layout::size_of::<T>() <= usize::MAX,
    ensures
        r == size * vstd::layout::size_of::<T>(),
{
    let elem = core::mem::size_of::<T>();
    let bytes = size * elem;
    bytes as u64
}

} // verus!
