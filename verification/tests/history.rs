use file_browser::history::History;

#[test]
fn new_history_holds_the_start_directory() {
    let h = History::new("/home/u".to_string());
    assert_eq!(h.len(), 1);
    assert_eq!(h.position(), 0);
    assert_eq!(h.current_dir(), "/home/u");
    assert!(!h.can_go_back());
    assert!(!h.can_go_forward());
}

#[test]
fn entering_from_the_middle_drops_what_lay_ahead() {
    let mut h = History::new("A".to_string());
    h.navigate_to("B".to_string());
    h.navigate_to("C".to_string());
    h.back();
    assert_eq!(h.current_dir(), "B");
    h.enter_dir("x".to_string());
    assert_eq!(h.len(), 3);
    assert_eq!(h.position(), 2);
    assert_eq!(h.entry(0), "A");
    assert_eq!(h.entry(1), "B");
    assert_eq!(h.entry(2), "B/x");
    assert!(!h.can_go_forward());
}

#[test]
fn navigating_from_the_middle_drops_what_lay_ahead() {
    let mut h = History::new("/a".to_string());
    h.enter_dir("b".to_string());
    h.enter_dir("c".to_string());
    h.back();
    h.back();
    h.navigate_to("/elsewhere".to_string());
    assert_eq!(h.len(), 2);
    assert_eq!(h.position(), 1);
    assert_eq!(h.entry(0), "/a");
    assert_eq!(h.entry(1), "/elsewhere");
}

#[test]
fn back_and_forward_move_the_position_only() {
    let mut h = History::new("/a".to_string());
    h.enter_dir("b".to_string());
    h.enter_dir("c".to_string());
    assert_eq!(h.current_dir(), "/a/b/c");
    assert!(h.can_go_back());
    assert!(!h.can_go_forward());
    h.back();
    assert_eq!(h.current_dir(), "/a/b");
    assert!(h.can_go_back());
    assert!(h.can_go_forward());
    h.back();
    assert_eq!(h.current_dir(), "/a");
    assert!(!h.can_go_back());
    assert!(h.can_go_forward());
    h.forward();
    h.forward();
    assert_eq!(h.current_dir(), "/a/b/c");
    assert_eq!(h.len(), 3);
    assert_eq!(h.position(), 2);
}

#[test]
fn position_stays_within_the_entries() {
    let mut h = History::new("/r".to_string());
    let mut pushed = vec!["/r".to_string()];
    let names = ["a", "b", "c", "d", "e", "f", "g"];
    for (round, name) in names.iter().enumerate() {
        if round % 3 == 2 {
            let path = format!("/jump/{}", name);
            pushed.push(path.clone());
            h.navigate_to(path);
        } else {
            let mut path = h.current_dir();
            path.push('/');
            path.push_str(name);
            pushed.push(path);
            h.enter_dir(name.to_string());
        }
        assert!(h.position() < h.len());
        if round % 2 == 1 && h.can_go_back() {
            h.back();
            assert!(h.position() < h.len());
        }
        if round % 4 == 3 && h.can_go_forward() {
            h.forward();
            assert!(h.position() < h.len());
        }
        assert!(pushed.contains(&h.current_dir()));
    }
    while h.can_go_back() {
        h.back();
        assert!(pushed.contains(&h.current_dir()));
    }
    assert_eq!(h.position(), 0);
    assert_eq!(h.current_dir(), "/r");
}
