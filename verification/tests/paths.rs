use file_browser::paths::child_path;

#[test]
fn child_path_puts_one_separator_between_the_parts() {
    assert_eq!(child_path(&"/home/u".to_string(), &"docs".to_string()), "/home/u/docs");
    assert_eq!(child_path(&"B".to_string(), &"x".to_string()), "B/x");
}

#[test]
fn child_path_adds_no_separator_to_the_root() {
    assert_eq!(child_path(&"/".to_string(), &"etc".to_string()), "/etc");
    assert_eq!(child_path(&"/mnt/".to_string(), &"disk".to_string()), "/mnt/disk");
}

#[test]
fn child_path_of_an_empty_directory_is_the_name() {
    assert_eq!(child_path(&String::new(), &"a.txt".to_string()), "a.txt");
}

#[test]
fn child_path_keeps_characters_beyond_ascii() {
    assert_eq!(child_path(&"/home/zoë".to_string(), &"été".to_string()), "/home/zoë/été");
}
