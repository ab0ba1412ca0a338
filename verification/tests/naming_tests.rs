use folio_core::derive_folder_path;
use folio_core::generate_filename;
use folio_core::generate_folder_path;
use folio_core::parse_exif_datetime;
use folio_core::Timestamp;

#[test]
fn test_generate_filename_format() {
    let t = Timestamp::new(2024, 11, 4, 14, 2, 15).unwrap();
    assert_eq!(generate_filename(&t, "morning", "jpg"), "20241104-140215-morning.jpg");
}

#[test]
fn test_generate_folder_path_format() {
    let t = Timestamp::new(2024, 11, 4, 14, 2, 15).unwrap();
    assert_eq!(generate_folder_path(&t), "2024/11/04");
}

#[test]
fn test_generate_filename_zero_padding() {
    let t = Timestamp::new(33, 1, 2, 3, 4, 5).unwrap();
    assert_eq!(generate_filename(&t, "x", "mov"), "00330102-030405-x.mov");
    assert_eq!(generate_folder_path(&t), "0033/01/02");
}

#[test]
fn test_derive_folder_path_sentinel() {
    let t = Timestamp::new(2024, 11, 4, 0, 0, 0).unwrap();
    assert_eq!(derive_folder_path(&Some(t)), "2024/11/04");
    assert_eq!(derive_folder_path(&None), "unknown-date");
}

#[test]
fn test_timestamp_new_validates_calendar() {
    assert!(Timestamp::new(2024, 11, 4, 14, 2, 15).is_some());
    assert!(Timestamp::new(2024, 2, 29, 0, 0, 0).is_some()); // leap year
    assert!(Timestamp::new(2023, 2, 29, 0, 0, 0).is_none());
    assert!(Timestamp::new(2024, 13, 1, 0, 0, 0).is_none());
    assert!(Timestamp::new(2024, 0, 1, 0, 0, 0).is_none());
    assert!(Timestamp::new(2024, 4, 31, 0, 0, 0).is_none());
    assert!(Timestamp::new(2024, 1, 1, 24, 0, 0).is_none());
    assert!(Timestamp::new(2024, 1, 1, 0, 60, 0).is_none());
    assert!(Timestamp::new(0, 1, 1, 0, 0, 0).is_none());
    assert!(Timestamp::new(10000, 1, 1, 0, 0, 0).is_none());
}

#[test]
fn test_epoch_secs_gaps() {
    let a = Timestamp::new(2024, 11, 4, 14, 0, 0).unwrap();
    let b = Timestamp::new(2024, 11, 4, 15, 30, 0).unwrap();
    assert_eq!(b.epoch_secs() - a.epoch_secs(), 5400);
    let c = Timestamp::new(2024, 11, 5, 14, 0, 0).unwrap();
    assert_eq!(c.epoch_secs() - a.epoch_secs(), 86400);
    // A leap day lies between these two instants.
    let d = Timestamp::new(2024, 2, 28, 0, 0, 0).unwrap();
    let e = Timestamp::new(2024, 3, 1, 0, 0, 0).unwrap();
    assert_eq!(e.epoch_secs() - d.epoch_secs(), 2 * 86400);
}

#[test]
fn test_parse_exif_datetime_well_formed() {
    let t = parse_exif_datetime("2024:11:04 14:02:15");
    assert_eq!(t, Timestamp::new(2024, 11, 4, 14, 2, 15));
}

#[test]
fn test_parse_exif_datetime_trims_whitespace() {
    let t = parse_exif_datetime("  2024:11:04 14:02:15\r\n");
    assert_eq!(t, Timestamp::new(2024, 11, 4, 14, 2, 15));
}

#[test]
fn test_parse_exif_datetime_rejects_malformed() {
    assert_eq!(parse_exif_datetime(""), None);
    assert_eq!(parse_exif_datetime("garbage"), None);
    assert_eq!(parse_exif_datetime("2024-11-04 14:02:15"), None);
    assert_eq!(parse_exif_datetime("2024:11:04T14:02:15"), None);
    assert_eq!(parse_exif_datetime("2024:13:04 14:02:15"), None);
    assert_eq!(parse_exif_datetime("2023:02:29 14:02:15"), None);
    assert_eq!(parse_exif_datetime("2024:11:04 24:02:15"), None);
    assert_eq!(parse_exif_datetime("2024:11:04 14:02:1"), None);
    assert_eq!(parse_exif_datetime("2024:11:04  14:02:15"), None);
}

#[test]
fn test_parse_exif_datetime_leap_day() {
    assert_eq!(
        parse_exif_datetime("2024:02:29 00:00:00"),
        Timestamp::new(2024, 2, 29, 0, 0, 0)
    );
}
