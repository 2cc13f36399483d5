use v4l::discovery::{is_device_entry, join_entry, select_devices};
use v4l::name::name_from_contents;

fn names(items: &[&str]) -> Vec<String> {
    items.iter().map(|s| s.to_string()).collect()
}

#[test]
fn enumeration_keeps_device_entries_only() {
    let found = select_devices("/dev", &names(&["video0", "v4l-subdev0", "foo"]));
    assert_eq!(found.len(), 2);
    assert_eq!(found[0].path(), "/dev/video0");
    assert_eq!(found[1].path(), "/dev/v4l-subdev0");
}

#[test]
fn enumeration_follows_listing_order() {
    let found = select_devices("/dev", &names(&["video3", "tty", "video1", "v4l-subdev2"]));
    let paths: Vec<&str> = found.iter().map(|n| n.path()).collect();
    assert_eq!(paths, vec!["/dev/video3", "/dev/video1", "/dev/v4l-subdev2"]);
}

#[test]
fn enumeration_of_empty_listing_is_empty() {
    assert!(select_devices("/dev", &Vec::new()).is_empty());
}

#[test]
fn enumeration_without_matches_is_empty() {
    assert!(select_devices("/dev", &names(&["null", "tty0", "vid"])).is_empty());
}

#[test]
fn entry_names_are_classified_by_prefix() {
    assert!(is_device_entry("video0"));
    assert!(is_device_entry("v4l-subdev1"));
    assert!(is_device_entry("video"));
    assert!(!is_device_entry("foo"));
    assert!(!is_device_entry("v4l-sub"));
}

#[test]
fn join_puts_one_separator() {
    assert_eq!(join_entry("/dev", "video0"), "/dev/video0");
    assert_eq!(join_entry("/dev/", "video0"), "/dev/video0");
    assert_eq!(join_entry("", "video0"), "video0");
}

#[test]
fn missing_metadata_gives_no_name() {
    assert_eq!(name_from_contents(None), None);
}

#[test]
fn name_is_trimmed() {
    assert_eq!(
        name_from_contents(Some(String::from("USB Camera\n"))),
        Some(String::from("USB Camera"))
    );
}

#[test]
fn name_trim_keeps_inner_space() {
    assert_eq!(
        name_from_contents(Some(String::from(" \t Integrated  Webcam \r\n"))),
        Some(String::from("Integrated  Webcam"))
    );
    assert_eq!(name_from_contents(Some(String::from(" \n"))), Some(String::new()));
}
