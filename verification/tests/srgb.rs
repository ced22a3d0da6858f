use contrast::srgb::fifth_root;
use contrast::{linear_channel, LINEAR_ONE};

#[test]
fn test_linear_channel_endpoints() {
    assert_eq!(linear_channel(0), 0);
    assert_eq!(linear_channel(255), LINEAR_ONE);
}

#[test]
fn test_linear_channel_segment_boundary() {
    // 10/255 is still below the 0.03928 threshold, 11/255 is above it.
    assert_eq!(linear_channel(10), 3_035);
    assert_eq!(linear_channel(11), 3_346);
}

#[test]
fn test_linear_channel_values() {
    assert_eq!(linear_channel(1), 303);
    assert_eq!(linear_channel(5), 1_517);
    assert_eq!(linear_channel(128), 215_856);
    assert_eq!(linear_channel(254), 991_090);
}

#[test]
fn test_fifth_root_small() {
    assert_eq!(fifth_root(0), 0);
    assert_eq!(fifth_root(1), 1);
    assert_eq!(fifth_root(31), 1);
    assert_eq!(fifth_root(32), 2);
    assert_eq!(fifth_root(242), 2);
    assert_eq!(fifth_root(243), 3);
}

#[test]
fn test_fifth_root_large() {
    assert_eq!(fifth_root(100_000_000_000_000_000_000), 10_000);
    assert_eq!(fifth_root(99_999_999_999_999_999_999), 9_999);
    assert_eq!(fifth_root(99_950_009_999_000_049_999), 9_999);
    assert_eq!(fifth_root(99_950_009_999_000_049_998), 9_998);
}
