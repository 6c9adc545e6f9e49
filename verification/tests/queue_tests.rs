use framework::queue::{find_suitable_queue_family, select_compute_device, PhysicalDeviceInfo};

const GRAPHICS: u32 = 0b1;
const COMPUTE: u32 = 0b10;
const TRANSFER: u32 = 0b100;

#[test]
fn family_needs_compute_and_transfer() {
    assert_eq!(find_suitable_queue_family(&[GRAPHICS, COMPUTE, TRANSFER]), None);
    assert_eq!(find_suitable_queue_family(&[GRAPHICS, COMPUTE | TRANSFER]), Some(1));
    assert_eq!(
        find_suitable_queue_family(&[GRAPHICS | COMPUTE | TRANSFER, COMPUTE | TRANSFER]),
        Some(0)
    );
    assert_eq!(find_suitable_queue_family(&[]), None);
}

const V1_3: u32 = (1 << 22) | (3 << 12);
const V1_4: u32 = (1 << 22) | (4 << 12);

fn device(api_version: u32, families: &[u32]) -> PhysicalDeviceInfo {
    PhysicalDeviceInfo { api_version, queue_family_flags: families.to_vec() }
}

#[test]
fn first_device_with_a_suitable_family() {
    let devices = vec![
        device(V1_4, &[GRAPHICS, COMPUTE]),
        device(V1_4, &[TRANSFER, GRAPHICS | COMPUTE | TRANSFER, COMPUTE | TRANSFER]),
        device(V1_4, &[COMPUTE | TRANSFER]),
    ];
    assert_eq!(select_compute_device(&devices, V1_4), Some((1, 1)));
}

#[test]
fn device_below_requested_version_is_skipped() {
    let devices = vec![
        device(V1_3, &[COMPUTE | TRANSFER]),
        device(V1_4 + 1, &[GRAPHICS, COMPUTE | TRANSFER]),
    ];
    assert_eq!(select_compute_device(&devices, V1_4), Some((1, 1)));
    assert_eq!(select_compute_device(&devices, V1_3), Some((0, 0)));
}

#[test]
fn no_device_is_suitable() {
    let devices = vec![device(V1_4, &[GRAPHICS]), device(V1_4, &[]), device(V1_4, &[COMPUTE, TRANSFER])];
    assert_eq!(select_compute_device(&devices, V1_3), None);
    assert_eq!(select_compute_device(&[device(V1_3, &[COMPUTE | TRANSFER])], V1_4), None);
    assert_eq!(select_compute_device(&[], 0), None);
}
