use file_browser::entry::{sort_by_type, FileInfo, FileType};
use file_browser::text::{decimal_text, name_matches};
use file_browser::timestamp::{has_leap_day, month_length, DateStyle, Timestamp};

fn at(year: i32, month: u32, day: u32, hour: u32, minute: u32) -> Timestamp {
    Timestamp::new(year, month, day, hour, minute).unwrap()
}

fn entry(name: &str, file_type: FileType, size: u64, item_count: Option<usize>) -> FileInfo {
    FileInfo::new(
        name.to_string(),
        file_type,
        size,
        item_count,
        at(2024, 5, 17, 9, 30),
        format!("/base/{}", name),
        false,
    )
}

#[test]
fn file_type_comes_from_the_metadata() {
    assert_eq!(FileType::from_metadata(true, false, false), FileType::Folder);
    assert_eq!(FileType::from_metadata(false, true, false), FileType::File);
    assert_eq!(FileType::from_metadata(false, false, true), FileType::SymLink);
    assert_eq!(FileType::from_metadata(true, false, true), FileType::Folder);
    assert_eq!(FileType::from_metadata(false, true, true), FileType::File);
}

#[test]
fn new_keeps_the_path_of_a_search_result_only() {
    let found = FileInfo::new(
        "a.txt".to_string(),
        FileType::File,
        120,
        None,
        at(2024, 5, 17, 9, 30),
        "/home/u/docs/a.txt".to_string(),
        true,
    );
    assert_eq!(found.name, "a.txt");
    assert_eq!(found.file_type, FileType::File);
    assert_eq!(found.size, 120);
    assert_eq!(found.item_count, None);
    assert_eq!(found.last_modified, at(2024, 5, 17, 9, 30));
    assert_eq!(found.full_path, Some("/home/u/docs/a.txt".to_string()));
    let listed = FileInfo::new(
        "docs".to_string(),
        FileType::Folder,
        4096,
        Some(3),
        at(2024, 5, 17, 9, 30),
        "/home/u/docs".to_string(),
        false,
    );
    assert_eq!(listed.full_path, None);
    assert_eq!(listed.item_count, Some(3));
}

#[test]
fn well_formed_snapshots_count_the_items_of_folders_only() {
    assert!(entry("d", FileType::Folder, 0, Some(0)).is_wf());
    assert!(entry("f", FileType::File, 0, None).is_wf());
    assert!(entry("l", FileType::SymLink, 0, None).is_wf());
    assert!(!entry("d", FileType::Folder, 0, None).is_wf());
    assert!(!entry("f", FileType::File, 0, Some(1)).is_wf());
    let mut odd = entry("f", FileType::File, 0, None);
    odd.last_modified.month = 13;
    assert!(!odd.is_wf());
}

#[test]
fn clone_copies_every_field() {
    let mut source = entry("a.txt", FileType::File, 120, None);
    source.full_path = Some("/x/a.txt".to_string());
    assert_eq!(source.clone(), source);
}

#[test]
fn size_fmt_counts_the_items_of_a_folder() {
    assert_eq!(entry("d", FileType::Folder, 4096, Some(0)).size_fmt(), "Empty");
    assert_eq!(entry("d", FileType::Folder, 4096, Some(1)).size_fmt(), "1 item");
    assert_eq!(entry("d", FileType::Folder, 4096, Some(2)).size_fmt(), "2 items");
    assert_eq!(entry("d", FileType::Folder, 4096, Some(3)).size_fmt(), "3 items");
    assert_eq!(entry("d", FileType::Folder, 4096, Some(1204)).size_fmt(), "1204 items");
}

#[test]
fn size_fmt_writes_the_size_of_a_file_in_decimal_units() {
    assert_eq!(entry("f", FileType::File, 0, None).size_fmt(), "0 B");
    assert_eq!(entry("f", FileType::File, 120, None).size_fmt(), "120 B");
    assert_eq!(entry("f", FileType::File, 999, None).size_fmt(), "999 B");
    assert_eq!(entry("f", FileType::File, 1000, None).size_fmt(), "1 kB");
    assert_eq!(entry("f", FileType::File, 1500, None).size_fmt(), "1.50 kB");
    assert_eq!(entry("f", FileType::File, 1_000_000, None).size_fmt(), "1 MB");
    assert_eq!(entry("f", FileType::File, 2_340_000_000, None).size_fmt(), "2.34 GB");
    assert_eq!(entry("l", FileType::SymLink, 12, None).size_fmt(), "12 B");
}

#[test]
fn last_modified_reads_as_time_of_day_on_the_same_day() {
    let mut info = entry("f", FileType::File, 1, None);
    info.last_modified = at(2024, 5, 17, 9, 5);
    assert_eq!(info.last_modified_fmt_at(&at(2024, 5, 17, 23, 59)), "09:05");
    assert_eq!(info.last_modified_fmt_at(&at(2024, 5, 17, 0, 0)), "09:05");
}

#[test]
fn last_modified_reads_as_day_and_month_in_the_same_year() {
    let mut info = entry("f", FileType::File, 1, None);
    info.last_modified = at(2024, 1, 2, 14, 5);
    assert_eq!(info.last_modified_fmt_at(&at(2024, 5, 17, 9, 30)), "02 Jan");
    assert_eq!(info.last_modified_fmt_at(&at(2024, 1, 3, 14, 5)), "02 Jan");
    info.last_modified = at(2024, 12, 31, 0, 0);
    assert_eq!(info.last_modified_fmt_at(&at(2024, 5, 17, 9, 30)), "31 Dec");
}

#[test]
fn last_modified_reads_with_the_year_in_another_year() {
    let mut info = entry("f", FileType::File, 1, None);
    info.last_modified = at(2023, 5, 17, 9, 30);
    assert_eq!(info.last_modified_fmt_at(&at(2024, 5, 17, 9, 30)), "17 May 2023");
    info.last_modified = at(1999, 2, 28, 9, 30);
    assert_eq!(info.last_modified_fmt_at(&at(2024, 5, 17, 9, 30)), "28 Feb 1999");
}

#[test]
fn last_modified_of_a_past_year_reads_with_the_year_today() {
    let mut info = entry("f", FileType::File, 1, None);
    info.last_modified = at(1980, 3, 4, 5, 6);
    assert_eq!(info.last_modified_fmt(), "04 Mar 1980");
}

#[test]
fn date_style_follows_the_distance_in_time() {
    let now = at(2024, 5, 17, 9, 30);
    assert_eq!(DateStyle::choose_for(&at(2024, 5, 17, 1, 1), &now), DateStyle::TimeOfDay);
    assert_eq!(DateStyle::choose_for(&at(2024, 5, 16, 9, 30), &now), DateStyle::DayAndMonth);
    assert_eq!(DateStyle::choose_for(&at(2024, 6, 17, 9, 30), &now), DateStyle::DayAndMonth);
    assert_eq!(DateStyle::choose_for(&at(2023, 5, 17, 9, 30), &now), DateStyle::FullDate);
    assert_eq!(DateStyle::TimeOfDay.as_pattern(), "%H:%M");
    assert_eq!(DateStyle::DayAndMonth.as_pattern(), "%d %b");
    assert_eq!(DateStyle::FullDate.as_pattern(), "%d %b %Y");
}

#[test]
fn timestamp_new_takes_days_of_the_calendar_only() {
    assert!(Timestamp::new(2024, 2, 29, 0, 0).is_some());
    assert!(Timestamp::new(2023, 2, 29, 0, 0).is_none());
    assert!(Timestamp::new(1900, 2, 29, 0, 0).is_none());
    assert!(Timestamp::new(2000, 2, 29, 0, 0).is_some());
    assert!(Timestamp::new(-4, 2, 29, 0, 0).is_some());
    assert!(Timestamp::new(2024, 4, 31, 0, 0).is_none());
    assert!(Timestamp::new(2024, 4, 30, 23, 59).is_some());
    assert!(Timestamp::new(2024, 0, 1, 0, 0).is_none());
    assert!(Timestamp::new(2024, 13, 1, 0, 0).is_none());
    assert!(Timestamp::new(2024, 1, 0, 0, 0).is_none());
    assert!(Timestamp::new(2024, 1, 32, 0, 0).is_none());
    assert!(Timestamp::new(2024, 1, 1, 24, 0).is_none());
    assert!(Timestamp::new(2024, 1, 1, 0, 60).is_none());
    assert!(Timestamp::new(262142, 12, 31, 23, 59).is_some());
    assert!(Timestamp::new(262143, 1, 1, 0, 0).is_none());
    assert!(Timestamp::new(-262143, 1, 1, 0, 0).is_some());
    assert!(Timestamp::new(-262144, 12, 31, 0, 0).is_none());
    assert_eq!(
        Timestamp::new(2024, 5, 17, 9, 30),
        Some(Timestamp { year: 2024, month: 5, day: 17, hour: 9, minute: 30 })
    );
}

#[test]
fn months_have_their_lengths() {
    let lengths: Vec<u32> = (1..=12).map(|m| month_length(2023, m)).collect();
    assert_eq!(lengths, vec![31, 28, 31, 30, 31, 30, 31, 31, 30, 31, 30, 31]);
    assert_eq!(month_length(2024, 2), 29);
    assert!(has_leap_day(2024));
    assert!(has_leap_day(2000));
    assert!(has_leap_day(-400));
    assert!(!has_leap_day(1900));
    assert!(!has_leap_day(2023));
    assert!(!has_leap_day(-1));
}

#[test]
fn decimal_text_writes_the_digits() {
    assert_eq!(decimal_text(0), "0");
    assert_eq!(decimal_text(7), "7");
    assert_eq!(decimal_text(10), "10");
    assert_eq!(decimal_text(1204), "1204");
    assert_eq!(decimal_text(9876543210), "9876543210");
    assert_eq!(decimal_text(usize::MAX), usize::MAX.to_string());
}

#[test]
fn name_matches_whatever_the_case() {
    assert!(name_matches("Report.TXT", "report"));
    assert!(name_matches("report.txt", "PORT.T"));
    assert!(name_matches("report.txt", ""));
    assert!(name_matches("ÉTÉ.md", "été"));
    assert!(!name_matches("report.txt", "reports"));
    assert!(!name_matches("", "a"));
    assert!(!name_matches("abc", "acb"));
}

#[test]
fn sort_by_type_puts_folders_first_and_keeps_the_order_within() {
    let sorted = sort_by_type(vec![
        entry("b.txt", FileType::File, 1, None),
        entry("zeta", FileType::Folder, 0, Some(1)),
        entry("link", FileType::SymLink, 0, None),
        entry("a.txt", FileType::File, 1, None),
        entry("alpha", FileType::Folder, 0, Some(0)),
    ]);
    let names: Vec<&str> = sorted.iter().map(|e| e.name.as_str()).collect();
    assert_eq!(names, vec!["zeta", "alpha", "link", "b.txt", "a.txt"]);
    assert!(sort_by_type(Vec::new()).is_empty());
}
