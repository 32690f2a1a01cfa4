use helioscope::stamp::{
    audit_file_name, audit_file_name_at, batch_file_name, batch_file_name_at, format_stamp,
    LocalStamp,
};

fn stamp(year: i32, month: u32, day: u32, hour: u32, minute: u32, second: u32, nanosecond: u32) -> LocalStamp {
    LocalStamp { year, month, day, hour, minute, second, nanosecond }
}

#[test]
fn stamp_layout() {
    assert_eq!(format_stamp(&stamp(2024, 3, 7, 9, 5, 3, 0)), "20240307_090503");
    assert_eq!(format_stamp(&stamp(1999, 12, 31, 23, 59, 59, 999_999_999)), "19991231_235959");
}

#[test]
fn stamp_leap_second_shows_sixty() {
    assert_eq!(format_stamp(&stamp(2016, 12, 31, 23, 59, 59, 1_500_000_000)), "20161231_235960");
}

#[test]
fn stamp_years_outside_four_digits() {
    assert_eq!(format_stamp(&stamp(10000, 1, 1, 0, 0, 0, 0)), "+100000101_000000");
    assert_eq!(format_stamp(&stamp(-5, 1, 1, 0, 0, 0, 0)), "-00050101_000000");
    assert_eq!(format_stamp(&stamp(42, 1, 1, 0, 0, 0, 0)), "00420101_000000");
}

#[test]
fn batch_name_at_time() {
    let t = stamp(2024, 3, 7, 9, 5, 3, 0);
    assert_eq!(batch_file_name_at("run", &t), "run_20240307_090503.json");
    assert_eq!(batch_file_name_at("", &t), "_20240307_090503.json");
}

#[test]
fn audit_name_at_time() {
    let t = stamp(2024, 3, 7, 9, 5, 3, 0);
    assert_eq!(audit_file_name_at("S1", &t), "audit_S1_20240307_090503.png");
}

#[test]
fn names_now_have_the_layout() {
    let b = batch_file_name("north");
    assert!(b.starts_with("north_") && b.ends_with(".json"));
    assert_eq!(b.len(), "north_".len() + 15 + ".json".len());
    let a = audit_file_name("S9");
    assert!(a.starts_with("audit_S9_") && a.ends_with(".png"));
    assert_eq!(a.len(), "audit_S9_".len() + 15 + ".png".len());
}
