use diskchart::chart_width;
use diskchart::text::{
    hundredths_to_string, pad_left, pad_right, str_eq, str_starts_with, tenths_to_string,
    u64_to_string,
};
use diskchart::units::{bytes_gb_tenths, sectors_gb_hundredths, sectors_gb_tenths};

#[test]
fn gb_conversion_known_sector_values() {
    // 2097152 sectors = 1 GiB exactly.
    assert_eq!(sectors_gb_hundredths(2097152), 100);
    assert_eq!(sectors_gb_tenths(2097152), 10);
    // 20971520 sectors = 10 GiB exactly.
    assert_eq!(sectors_gb_hundredths(20971520), 1000);
    assert_eq!(sectors_gb_tenths(20971520), 100);
    assert_eq!(sectors_gb_hundredths(0), 0);
}

#[test]
fn gb_conversion_known_byte_values() {
    // 1 GiB of bytes exactly.
    assert_eq!(bytes_gb_tenths(1073741824), 10);
    // 5 GiB of bytes exactly.
    assert_eq!(bytes_gb_tenths(5368709120), 50);
    assert_eq!(bytes_gb_tenths(0), 0);
    // Half a GiB rounds to 0.5 GB.
    assert_eq!(bytes_gb_tenths(536870912), 5);
}

#[test]
fn gb_conversion_monotonic_samples() {
    let mut prev = 0;
    for sectors in [0u64, 1, 1000, 2097151, 2097152, 20971520] {
        let h = sectors_gb_hundredths(sectors);
        assert!(h >= prev);
        prev = h;
    }
    assert!(bytes_gb_tenths(1000) <= bytes_gb_tenths(2000));
}

#[test]
fn decimal_rendering() {
    assert_eq!(u64_to_string(0), "0");
    assert_eq!(u64_to_string(7), "7");
    assert_eq!(u64_to_string(1234), "1234");
    assert_eq!(u64_to_string(u64::MAX), "18446744073709551615");
}

#[test]
fn fixed_point_rendering() {
    assert_eq!(tenths_to_string(0), "0.0");
    assert_eq!(tenths_to_string(105), "10.5");
    assert_eq!(tenths_to_string(50), "5.0");
    assert_eq!(hundredths_to_string(1000), "10.00");
    assert_eq!(hundredths_to_string(7), "0.07");
    assert_eq!(hundredths_to_string(230), "2.30");
}

#[test]
fn padding() {
    assert_eq!(pad_left("ab", 4), "  ab");
    assert_eq!(pad_right("ab", 4), "ab  ");
    assert_eq!(pad_left("abcd", 3), "abcd");
    assert_eq!(pad_right("", 2), "  ");
}

#[test]
fn string_comparisons() {
    assert!(str_eq("sda1", "sda1"));
    assert!(!str_eq("sda1", "sda2"));
    assert!(!str_eq("sda", "sda1"));
    assert!(str_starts_with("dm-0", "dm"));
    assert!(!str_starts_with("sda", "dm"));
    assert!(str_starts_with("sda1", "sda"));
    assert!(!str_starts_with("sd", "sda"));
}

#[test]
fn chart_width_policy() {
    assert_eq!(chart_width(None), 80);
    assert_eq!(chart_width(Some(120)), 100);
    assert_eq!(chart_width(Some(110)), 100);
    assert_eq!(chart_width(Some(50)), 40);
    assert_eq!(chart_width(Some(10)), 0);
    assert_eq!(chart_width(Some(5)), 0);
}
