use file_browser::display::{find_by_id, remove_by_ids, wrap, DisplayFile};
use file_browser::entry::{FileInfo, FileType};
use file_browser::ids::{contains_id, dedup_ids};
use file_browser::timestamp::Timestamp;

fn file(name: &str) -> FileInfo {
    FileInfo {
        name: name.to_string(),
        file_type: FileType::File,
        size: 10,
        item_count: None,
        last_modified: Timestamp { year: 2024, month: 5, day: 17, hour: 9, minute: 30 },
        full_path: None,
    }
}

fn records(ids: &[u128]) -> Vec<DisplayFile> {
    ids.iter().map(|id| DisplayFile::with_id(*id, file(&format!("f{}", id)))).collect()
}

fn ids_of(list: &[DisplayFile]) -> Vec<u128> {
    list.iter().map(|r| r.id).collect()
}

#[test]
fn with_id_wraps_a_snapshot_unselected() {
    let record = DisplayFile::with_id(42, file("a.txt"));
    assert_eq!(record.id, 42);
    assert_eq!(record.info, file("a.txt"));
    assert_eq!(record.info(), file("a.txt"));
    assert!(!record.selected);
}

#[test]
fn from_wraps_a_snapshot_unselected() {
    let record = DisplayFile::from(file("a.txt"));
    assert_eq!(record.info, file("a.txt"));
    assert!(!record.selected);
}

#[test]
fn wrap_keeps_the_snapshots_in_order() {
    let wrapped = wrap(vec![file("a"), file("b"), file("c")]);
    assert_eq!(wrapped.len(), 3);
    assert_eq!(wrapped[0].info, file("a"));
    assert_eq!(wrapped[1].info, file("b"));
    assert_eq!(wrapped[2].info, file("c"));
    assert!(wrapped.iter().all(|r| !r.selected));
    assert!(wrap(Vec::new()).is_empty());
}

#[test]
fn wrapping_twice_gives_other_identities() {
    let first = wrap(vec![file("a"), file("a"), file("b")]);
    let second = wrap(vec![file("a"), file("a"), file("b")]);
    for (a, b) in first.iter().zip(second.iter()) {
        assert_eq!(a.info, b.info);
        assert_ne!(a.id, b.id);
    }
    assert_ne!(first[0].id, first[1].id);
}

#[test]
fn replacing_the_snapshot_keeps_identity_and_flag() {
    let mut record = DisplayFile::with_id(5, file("old"));
    record.selected = true;
    record.replace_info(file("olda"));
    assert_eq!(record.id, 5);
    assert!(record.selected);
    assert_eq!(record.info.name, "olda");
}

#[test]
fn find_by_id_gives_the_first_match() {
    let list = records(&[3, 8, 3, 5]);
    assert_eq!(find_by_id(&list, 3), Some(0));
    assert_eq!(find_by_id(&list, 8), Some(1));
    assert_eq!(find_by_id(&list, 5), Some(3));
    assert_eq!(find_by_id(&list, 4), None);
    assert_eq!(find_by_id(&Vec::new(), 4), None);
}

#[test]
fn dedup_keeps_the_first_of_each_identity() {
    assert_eq!(dedup_ids(&vec![4, 4]), vec![4]);
    assert_eq!(dedup_ids(&vec![1, 2, 1, 3, 2, 1]), vec![1, 2, 3]);
    assert_eq!(dedup_ids(&vec![7, 8, 9]), vec![7, 8, 9]);
    assert_eq!(dedup_ids(&Vec::new()), Vec::<u128>::new());
}

#[test]
fn contains_id_finds_what_is_there() {
    assert!(contains_id(&vec![1, 2, 3], 2));
    assert!(!contains_id(&vec![1, 2, 3], 4));
    assert!(!contains_id(&Vec::new(), 0));
}

#[test]
fn remove_by_ids_takes_out_the_matching_records() {
    let mut list = records(&[1, 2, 3, 4, 5]);
    let removed = remove_by_ids(&mut list, &vec![4, 2]);
    assert_eq!(ids_of(&list), vec![1, 3, 5]);
    assert_eq!(ids_of(&removed), vec![4, 2]);
    assert_eq!(removed[0].info.name, "f4");
    assert_eq!(removed[1].info.name, "f2");
}

#[test]
fn remove_by_ids_passes_over_what_is_not_there() {
    let mut list = records(&[1, 2, 3]);
    let removed = remove_by_ids(&mut list, &vec![9, 3, 8]);
    assert_eq!(ids_of(&list), vec![1, 2]);
    assert_eq!(ids_of(&removed), vec![3]);
    let removed = remove_by_ids(&mut list, &Vec::new());
    assert!(removed.is_empty());
    assert_eq!(ids_of(&list), vec![1, 2]);
}
