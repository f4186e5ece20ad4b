use file_tracker::events::to_null_terminated;
use file_tracker::paths::get_relative_path;
use file_tracker::paths::get_volume_label;
use file_tracker::paths::join_under;
use file_tracker::paths::str_eq;
use file_tracker::tag::tag_stream_path;

#[test]
fn relative_of_equal_paths_is_empty() {
    let r = get_relative_path("/V/a.txt", "/V/a.txt").unwrap();
    assert_eq!(r, "");
}

#[test]
fn relative_of_direct_child() {
    let r = get_relative_path("/V/d1", "/V/d1/x.txt").unwrap();
    assert_eq!(r, "x.txt");
}

#[test]
fn relative_of_deep_descendant() {
    let r = get_relative_path("/V", "/V/d1/d2/x.txt").unwrap();
    assert_eq!(r, "d1/d2/x.txt");
}

#[test]
fn relative_with_trailing_separator_base() {
    let r = get_relative_path("/V/d1/", "/V/d1/x.txt").unwrap();
    assert_eq!(r, "x.txt");
}

#[test]
fn relative_rejects_non_component_prefix() {
    // "/V/d" is a character prefix of "/V/d1/x.txt" but not a componentwise one.
    assert!(get_relative_path("/V/d", "/V/d1/x.txt").is_err());
}

#[test]
fn relative_rejects_unrelated_base() {
    assert!(get_relative_path("/W", "/V/a.txt").is_err());
}

#[test]
fn relative_rejects_longer_base() {
    assert!(get_relative_path("/V/a/b", "/V/a").is_err());
}

#[test]
fn relative_with_backslash_separators() {
    let r = get_relative_path("C:\\d1", "C:\\d1\\x.txt").unwrap();
    assert_eq!(r, "x.txt");
}

#[test]
fn volume_label_of_rooted_path() {
    assert_eq!(get_volume_label("/V/a.txt"), "/");
}

#[test]
fn volume_label_of_drive_path() {
    assert_eq!(get_volume_label("C:\\V\\a.txt"), "C:\\");
}

#[test]
fn volume_label_of_bare_name_is_empty() {
    assert_eq!(get_volume_label("abc"), "");
}

#[test]
fn join_inserts_separator() {
    assert_eq!(join_under("/V/d2", "x.txt"), "/V/d2/x.txt");
}

#[test]
fn join_after_trailing_separator() {
    assert_eq!(join_under("/", "x.txt"), "/x.txt");
}

#[test]
fn str_eq_agrees_with_equality() {
    assert!(str_eq("abc", "abc"));
    assert!(!str_eq("abc", "abd"));
    assert!(!str_eq("abc", "ab"));
    assert!(str_eq("", ""));
}

#[test]
fn null_terminated_appends_one_zero() {
    let b = to_null_terminated("C:\\");
    assert_eq!(b, vec![b'C', b':', b'\\', 0u8]);
    assert_eq!(to_null_terminated(""), vec![0u8]);
}

#[test]
fn tag_stream_path_appends_stream_name() {
    assert_eq!(tag_stream_path("/V/a.txt"), "/V/a.txt:dd_tag");
}
