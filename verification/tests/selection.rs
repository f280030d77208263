use file_browser::display::DisplayFile;
use file_browser::entry::{FileInfo, FileType};
use file_browser::selection::{deselect_all, select_file, Modifiers, Selection};
use file_browser::timestamp::Timestamp;

const PLAIN: Modifiers = Modifiers { ctrl_key: false, shift_key: false };
const CTRL: Modifiers = Modifiers { ctrl_key: true, shift_key: false };
const SHIFT: Modifiers = Modifiers { ctrl_key: false, shift_key: true };
const CTRL_SHIFT: Modifiers = Modifiers { ctrl_key: true, shift_key: true };

fn list(len: u128) -> Vec<DisplayFile> {
    (0..len)
        .map(|i| {
            DisplayFile::with_id(
                100 + i,
                FileInfo {
                    name: format!("f{}", i),
                    file_type: FileType::File,
                    size: 1,
                    item_count: None,
                    last_modified: Timestamp { year: 2024, month: 5, day: 17, hour: 9, minute: 30 },
                    full_path: None,
                },
            )
        })
        .collect()
}

fn flagged(list: &[DisplayFile]) -> Vec<usize> {
    list.iter().enumerate().filter(|(_, r)| r.selected).map(|(i, _)| i).collect()
}

#[test]
fn modifiers_start_unheld() {
    let m = Modifiers::new();
    assert!(!m.ctrl_key);
    assert!(!m.shift_key);
}

#[test]
fn selection_starts_empty() {
    let s = Selection::new();
    assert!(s.selected_files.is_empty());
    assert_eq!(s.shift_select_pivot, None);
    assert_eq!(s.last_selected_idx, None);
}

#[test]
fn plain_click_selects_the_record() {
    let mut l = list(4);
    let mut s = Selection::new();
    select_file(&mut l, &mut s, 2, PLAIN);
    assert_eq!(flagged(&l), vec![2]);
    assert_eq!(s.selected_files, vec![102]);
    assert_eq!(s.shift_select_pivot, Some(2));
    assert_eq!(s.last_selected_idx, Some(2));
}

#[test]
fn plain_click_on_another_record_moves_the_selection() {
    let mut l = list(4);
    let mut s = Selection::new();
    select_file(&mut l, &mut s, 2, PLAIN);
    select_file(&mut l, &mut s, 0, PLAIN);
    assert_eq!(flagged(&l), vec![0]);
    assert_eq!(s.selected_files, vec![100]);
    assert_eq!(s.shift_select_pivot, Some(0));
}

#[test]
fn plain_click_on_the_sole_selected_record_deselects_it() {
    let mut l = list(4);
    let mut s = Selection::new();
    select_file(&mut l, &mut s, 2, PLAIN);
    select_file(&mut l, &mut s, 2, PLAIN);
    assert_eq!(flagged(&l), Vec::<usize>::new());
    assert_eq!(s.selected_files, vec![102]);
    select_file(&mut l, &mut s, 2, PLAIN);
    assert_eq!(flagged(&l), vec![2]);
}

#[test]
fn shift_click_selects_from_pivot_1_to_4() {
    let mut l = list(6);
    let mut s = Selection::new();
    select_file(&mut l, &mut s, 1, PLAIN);
    select_file(&mut l, &mut s, 4, SHIFT);
    assert_eq!(flagged(&l), vec![1, 2, 3, 4]);
    assert_eq!(s.selected_files, vec![101, 102, 103, 104]);
    assert_eq!(s.shift_select_pivot, Some(1));
    assert_eq!(s.last_selected_idx, Some(4));
}

#[test]
fn shift_click_selects_the_same_range_in_the_other_direction() {
    let mut l = list(6);
    let mut s = Selection::new();
    select_file(&mut l, &mut s, 4, PLAIN);
    select_file(&mut l, &mut s, 1, SHIFT);
    assert_eq!(flagged(&l), vec![1, 2, 3, 4]);
    assert_eq!(s.selected_files, vec![101, 102, 103, 104]);
    assert_eq!(s.shift_select_pivot, Some(4));
    assert_eq!(s.last_selected_idx, Some(1));
}

#[test]
fn repeated_shift_clicks_resize_one_range() {
    let mut l = list(8);
    let mut s = Selection::new();
    select_file(&mut l, &mut s, 3, PLAIN);
    select_file(&mut l, &mut s, 6, SHIFT);
    assert_eq!(flagged(&l), vec![3, 4, 5, 6]);
    select_file(&mut l, &mut s, 4, SHIFT);
    assert_eq!(flagged(&l), vec![3, 4]);
    select_file(&mut l, &mut s, 1, SHIFT);
    assert_eq!(flagged(&l), vec![1, 2, 3]);
    assert_eq!(s.selected_files, vec![101, 102, 103]);
    assert_eq!(s.shift_select_pivot, Some(3));
    select_file(&mut l, &mut s, 3, SHIFT);
    assert_eq!(flagged(&l), vec![3]);
}

#[test]
fn shift_click_without_pivot_acts_as_a_plain_click() {
    let mut l = list(4);
    let mut s = Selection::new();
    select_file(&mut l, &mut s, 2, SHIFT);
    assert_eq!(flagged(&l), vec![2]);
    assert_eq!(s.selected_files, vec![102]);
    assert_eq!(s.shift_select_pivot, None);
    assert_eq!(s.last_selected_idx, Some(2));
}

#[test]
fn shift_click_with_ctrl_adds_the_range() {
    let mut l = list(8);
    let mut s = Selection::new();
    select_file(&mut l, &mut s, 0, PLAIN);
    select_file(&mut l, &mut s, 4, CTRL);
    select_file(&mut l, &mut s, 6, CTRL_SHIFT);
    assert_eq!(flagged(&l), vec![0, 4, 5, 6]);
    assert_eq!(s.selected_files, vec![100, 104, 104, 105, 106]);
    assert_eq!(s.shift_select_pivot, Some(4));
}

#[test]
fn two_ctrl_clicks_select_both_in_order() {
    let mut l = list(5);
    let mut s = Selection::new();
    select_file(&mut l, &mut s, 3, CTRL);
    select_file(&mut l, &mut s, 1, CTRL);
    assert_eq!(flagged(&l), vec![1, 3]);
    assert_eq!(s.selected_files, vec![103, 101]);
    assert_eq!(s.shift_select_pivot, Some(1));
    assert_eq!(s.last_selected_idx, Some(1));
}

#[test]
fn ctrl_click_toggles_and_keeps_the_identity_twice() {
    let mut l = list(3);
    let mut s = Selection::new();
    select_file(&mut l, &mut s, 1, CTRL);
    select_file(&mut l, &mut s, 1, CTRL);
    assert_eq!(flagged(&l), Vec::<usize>::new());
    assert_eq!(s.selected_files, vec![101, 101]);
}

#[test]
fn plain_click_among_many_selects_that_one() {
    let mut l = list(5);
    let mut s = Selection::new();
    select_file(&mut l, &mut s, 0, CTRL);
    select_file(&mut l, &mut s, 2, CTRL);
    select_file(&mut l, &mut s, 4, CTRL);
    select_file(&mut l, &mut s, 2, PLAIN);
    assert_eq!(flagged(&l), vec![2]);
    assert_eq!(s.selected_files, vec![102]);
    select_file(&mut l, &mut s, 0, CTRL);
    select_file(&mut l, &mut s, 3, PLAIN);
    assert_eq!(flagged(&l), vec![3]);
    assert_eq!(s.selected_files, vec![103]);
}

#[test]
fn plain_click_after_two_toggles_of_one_record_selects_it() {
    let mut l = list(3);
    let mut s = Selection::new();
    select_file(&mut l, &mut s, 1, CTRL);
    select_file(&mut l, &mut s, 1, CTRL);
    select_file(&mut l, &mut s, 1, PLAIN);
    assert_eq!(flagged(&l), vec![1]);
    assert_eq!(s.selected_files, vec![101]);
}

#[test]
fn selection_accepts_what_the_list_can_take() {
    let mut s = Selection::new();
    assert!(s.accepts(3, 2, PLAIN));
    assert!(!s.accepts(3, 3, PLAIN));
    assert!(s.accepts(3, 2, SHIFT));
    s.shift_select_pivot = Some(5);
    assert!(!s.accepts(3, 2, SHIFT));
    assert!(!s.accepts(3, 2, CTRL_SHIFT));
    assert!(s.accepts(3, 2, CTRL));
    assert!(s.accepts(6, 2, SHIFT));
}

#[test]
fn deselect_all_clears_the_named_records_only() {
    let mut l = list(4);
    for r in l.iter_mut() {
        r.selected = true;
    }
    deselect_all(&mut l, &vec![101, 103, 999]);
    assert_eq!(flagged(&l), vec![0, 2]);
}
