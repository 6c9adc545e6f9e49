use framework::dispatch::group_count;
use framework::pixels::output_pixel;
use framework::version::{api_version_major_minor, make_api_version};

#[test]
fn group_counts_round_up() {
    assert_eq!(group_count(0, 128), 0);
    assert_eq!(group_count(1, 128), 1);
    assert_eq!(group_count(128, 128), 1);
    assert_eq!(group_count(129, 128), 2);
    assert_eq!(group_count(800, 16), 50);
    assert_eq!(group_count(801, 16), 51);
    assert_eq!(group_count(usize::MAX, 2), usize::MAX / 2 + 1);
    assert_eq!(group_count(7, 1), 7);
}

#[test]
fn group_count_covers_every_item_with_no_spare_group() {
    for items in 0..300usize {
        for size in 1..20usize {
            let g = group_count(items, size);
            assert!(g * size >= items);
            assert!(g == 0 || (g - 1) * size < items);
        }
    }
}

#[test]
fn output_pixels() {
    assert_eq!(output_pixel(0), 0xFF00_0000);
    assert_eq!(output_pixel(0xFFF), 0xFFF0_F0F0);
    assert_eq!(output_pixel(0x123), 0xFF10_2030);
    assert_eq!(output_pixel(0xFFFF_F123), 0xFF10_2030);
    assert_eq!(output_pixel(0xFFFF_FFFF), 0xFFF0_F0F0);
}

#[test]
fn api_versions() {
    let v = make_api_version(0, 1, 4, 0);
    assert_eq!(v, 4_210_688);
    assert_eq!(api_version_major_minor(v), (1, 4));
    assert_eq!(make_api_version(0, 1, 3, 281), (1 << 22) | (3 << 12) | 281);
    assert_eq!(api_version_major_minor(make_api_version(1, 127, 1023, 4095)), (127, 1023));
    assert_eq!(make_api_version(1, 0, 0, 0), 1 << 29);
}
