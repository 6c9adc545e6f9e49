use framework::buffer::{buffer_byte_size, shared_memory_flags};
use framework::memory::{contains_flags, find_memory_type_idx, MemoryRequirements, MemoryType};

fn types(flags: &[u32]) -> Vec<MemoryType> {
    flags
        .iter()
        .enumerate()
        .map(|(i, f)| MemoryType { property_flags: *f, heap_index: i as u32 })
        .collect()
}

fn reqs(bits: u32) -> MemoryRequirements {
    MemoryRequirements { size: 256, alignment: 16, memory_type_bits: bits }
}

#[test]
fn contains_flags_needs_every_bit() {
    assert!(contains_flags(0b111, 0b101));
    assert!(contains_flags(0b101, 0));
    assert!(!contains_flags(0b101, 0b110));
    assert!(!contains_flags(0, 1));
}

#[test]
fn finds_first_accepted_type_with_flags() {
    let t = types(&[0b001, 0b111, 0b111]);
    assert_eq!(find_memory_type_idx(&t, reqs(0b111), 0b110), Some(1));
}

#[test]
fn skips_types_that_requirements_do_not_accept() {
    let t = types(&[0b111, 0b111, 0b111]);
    assert_eq!(find_memory_type_idx(&t, reqs(0b100), 0b111), Some(2));
}

#[test]
fn no_memory_type_found() {
    let t = types(&[0b001, 0b011]);
    assert_eq!(find_memory_type_idx(&t, reqs(0b11), 0b100), None);
    assert_eq!(find_memory_type_idx(&t, reqs(0), 0), None);
    assert_eq!(find_memory_type_idx(&[], reqs(u32::MAX), 0), None);
}

#[test]
fn highest_memory_type_bit() {
    let mut flags = vec![0u32; 32];
    flags[31] = 0b1;
    let t = types(&flags);
    assert_eq!(find_memory_type_idx(&t, reqs(1 << 31), 0b1), Some(31));
}

#[test]
fn more_than_thirty_two_types_with_an_early_match() {
    let t = types(&[0b10; 40]);
    assert_eq!(find_memory_type_idx(&t, reqs(0b1000), 0b10), Some(3));
}

#[test]
fn shared_memory_is_device_local_visible_and_coherent() {
    assert_eq!(shared_memory_flags(), 0b111);
}

#[test]
fn byte_sizes_of_buffers() {
    assert_eq!(buffer_byte_size::<u32>(3), 12);
    assert_eq!(buffer_byte_size::<u8>(0), 0);
    assert_eq!(buffer_byte_size::<[f32; 8]>(5), 160);
    assert_eq!(buffer_byte_size::<u64>(1024 * 1024), 8 * 1024 * 1024);
}
