//! Tests of the pure rendering paths: decimal numerals, the fixed timestamp
//! form, path joining, sorting and the exact summary text, all on records
//! built directly from plain values.

use experiment_status::decimal::{format_two_digits, format_u64};
use experiment_status::experiment_structure::{sort_files_newest_first, ExperimentPart};
use experiment_status::file_status::{join_path, ExperimentFile};
use experiment_status::timestamp::{render_ctime, Timestamp};

fn stamp(secs: i64, year: i32, month: u8, day: u8, hour: u8, minute: u8, second: u8) -> Timestamp {
    Timestamp { secs, nanos: 0, year, month, day, hour, minute, second }
}

#[test]
fn decimal_numerals() {
    assert_eq!(format_u64(0), "0");
    assert_eq!(format_u64(7), "7");
    assert_eq!(format_u64(42), "42");
    assert_eq!(format_u64(100), "100");
    assert_eq!(format_u64(98765), "98765");
}

#[test]
fn two_digit_fields_are_zero_padded() {
    assert_eq!(format_two_digits(0), "00");
    assert_eq!(format_two_digits(9), "09");
    assert_eq!(format_two_digits(59), "59");
}

#[test]
fn ctime_rendering() {
    assert_eq!(
        render_ctime(&stamp(0, 2019, 9, 19, 22, 16, 28)),
        "Thu Sep 19 22:16:28 2019"
    );
    // A single-digit day is space-padded; small clock fields are zero-padded.
    assert_eq!(
        render_ctime(&stamp(0, 2019, 9, 4, 1, 2, 3)),
        "Wed Sep  4 01:02:03 2019"
    );
    // Years are zero-padded to four digits.
    assert_eq!(render_ctime(&stamp(0, 99, 1, 1, 0, 0, 0)), "Thu Jan  1 00:00:00 0099");
}

#[test]
fn join_path_inserts_separator() {
    assert_eq!(join_path("figs", "*.png"), "figs/*.png");
    assert_eq!(join_path("figs/", "*.png"), "figs/*.png");
    assert_eq!(join_path("", "*.png"), "*.png");
}

#[test]
fn sort_orders_newest_first() {
    let days = [4u8, 2, 6, 3];
    let mut files = Vec::new();
    for (i, d) in days.iter().enumerate() {
        files.push(ExperimentFile {
            path: format!("file{}.txt", i),
            modified: stamp(*d as i64 * 86_400, 2019, 9, *d, 12, 0, 0),
        });
    }
    let sorted = sort_files_newest_first(files);
    let order: Vec<&str> = sorted.iter().map(|f| f.path.as_str()).collect();
    assert_eq!(order, vec!["file2.txt", "file0.txt", "file3.txt", "file1.txt"]);
    for i in 0..sorted.len() - 1 {
        assert!(sorted[i + 1].modified.is_at_or_before(&sorted[i].modified));
    }
}

#[test]
fn instant_ordering_uses_nanos_to_break_ties() {
    let early = Timestamp { secs: 5, nanos: 10, year: 1970, month: 1, day: 1, hour: 0, minute: 0, second: 5 };
    let late = Timestamp { secs: 5, nanos: 20, year: 1970, month: 1, day: 1, hour: 0, minute: 0, second: 5 };
    assert!(early.is_at_or_before(&late));
    assert!(!late.is_at_or_before(&early));
    assert!(early.is_at_or_before(&early));
}

#[test]
fn exact_summary_two_files() {
    let newest = ExperimentFile {
        path: "b.txt".to_string(),
        modified: stamp(200, 2019, 9, 19, 22, 16, 28),
    };
    let oldest = ExperimentFile {
        path: "a.txt".to_string(),
        modified: stamp(100, 2019, 9, 19, 10, 0, 0),
    };
    let part = ExperimentPart {
        name: "Test".to_string(),
        file_list: vec![newest, oldest],
        n_files: 2,
    };
    assert_eq!(
        part.create_summary(),
        "Test contains 2 file\
         \n    Newest file modified at Thu Sep 19 22:16:28 2019\
         \n    Oldest file modified at Thu Sep 19 10:00:00 2019"
    );
}

#[test]
fn exact_summary_single_file() {
    let only = ExperimentFile {
        path: "a.txt".to_string(),
        modified: stamp(100, 2019, 9, 19, 10, 0, 0),
    };
    let part = ExperimentPart { name: "Test".to_string(), file_list: vec![only], n_files: 1 };
    assert_eq!(
        part.create_summary(),
        "Test contains 1 file\n    Newest file modified at Thu Sep 19 10:00:00 2019"
    );
}

#[test]
fn exact_summary_empty() {
    let part = ExperimentPart { name: "Test".to_string(), file_list: Vec::new(), n_files: 0 };
    assert_eq!(part.create_summary(), "No files found in Test.");
}
