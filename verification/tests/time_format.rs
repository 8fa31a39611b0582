use fbw_systems::time_format::{decimal, format_clock};

#[test]
fn clock_formats() {
    assert_eq!(format_clock(0), "00:00");
    assert_eq!(format_clock(59), "00:59");
    assert_eq!(format_clock(61), "01:01");
    assert_eq!(format_clock(3599), "59:59");
    assert_eq!(format_clock(3600), "01:00:00");
    assert_eq!(format_clock(3661), "01:01:01");
    assert_eq!(format_clock(360_000), "100:00:00");
    assert_eq!(format_clock(u32::MAX), format!("{:02}:{:02}:{:02}", u32::MAX / 3600, (u32::MAX % 3600) / 60, u32::MAX % 60));
}

#[test]
fn decimal_digits() {
    assert_eq!(decimal(0), vec!['0']);
    assert_eq!(decimal(9041), vec!['9', '0', '4', '1']);
}
