use v4l::node::{IndexError, Node};
use v4l::path_text::{file_name, starts_with};

#[test]
fn capture_index_single_digit() {
    let node = Node::new("/dev/video0");
    assert!(!node.is_v4l_subdev());
    assert_eq!(node.index(), Ok(0));
}

#[test]
fn capture_index_two_digits() {
    assert_eq!(Node::new("/dev/video12").index(), Ok(12));
}

#[test]
fn capture_index_ignores_noise_between_digits() {
    assert_eq!(Node::new("/dev/video1x2").index(), Ok(12));
    assert_eq!(Node::new("/dev/video-0_7").index(), Ok(7));
}

#[test]
fn subdev_kind_and_index() {
    let node = Node::new("/dev/v4l-subdev3");
    assert!(node.is_v4l_subdev());
    assert_eq!(node.index(), Ok(3));
}

#[test]
fn subdev_index_large() {
    assert_eq!(Node::new("/dev/v4l-subdev4096").index(), Ok(4096));
}

#[test]
fn capture_path_is_no_subdev() {
    assert!(!Node::new("/dev/video5").is_v4l_subdev());
}

#[test]
fn path_without_file_name_is_no_subdev() {
    assert!(!Node::new("").is_v4l_subdev());
    assert!(!Node::new("/").is_v4l_subdev());
    assert!(!Node::new("/dev/..").is_v4l_subdev());
}

#[test]
fn index_of_unrecognised_name_is_error() {
    assert_eq!(Node::new("/dev/foo").index(), Err(IndexError::MissingPrefix));
    assert_eq!(Node::new("/dev/tty0").index(), Err(IndexError::MissingPrefix));
}

#[test]
fn index_without_file_name_is_error() {
    assert_eq!(Node::new("").index(), Err(IndexError::NoFileName));
    assert_eq!(Node::new("/").index(), Err(IndexError::NoFileName));
    assert_eq!(Node::new("/dev/..").index(), Err(IndexError::NoFileName));
}

#[test]
fn index_without_digits_is_error() {
    assert_eq!(Node::new("/dev/video").index(), Err(IndexError::NoDigits));
    assert_eq!(Node::new("/dev/v4l-subdevabc").index(), Err(IndexError::NoDigits));
}

#[test]
fn index_too_large_is_error() {
    let node = Node::new("/dev/video123456789012345678901234567890");
    assert_eq!(node.index(), Err(IndexError::Overflow));
}

#[test]
fn index_at_largest_value() {
    let text = format!("/dev/video{}", usize::MAX);
    assert_eq!(Node::new(&text).index(), Ok(usize::MAX));
}

#[test]
fn index_with_leading_zeros() {
    assert_eq!(Node::new("/dev/video007").index(), Ok(7));
}

#[test]
fn trailing_separator_and_dot_are_skipped() {
    assert_eq!(Node::new("/dev/video4/").index(), Ok(4));
    assert_eq!(Node::new("/dev/video4/.").index(), Ok(4));
    assert_eq!(Node::new("video9").index(), Ok(9));
}

#[test]
fn path_is_kept_verbatim() {
    let node = Node::new("/dev//video1/");
    assert_eq!(node.path(), "/dev//video1/");
}

#[test]
fn name_path_of_capture_device() {
    let node = Node::new("/dev/video2");
    assert_eq!(
        node.name_path(),
        Ok(String::from("/sys/class/video4linux/video2/name"))
    );
}

#[test]
fn name_path_of_subdev() {
    let node = Node::new("/dev/v4l-subdev130");
    assert_eq!(
        node.name_path(),
        Ok(String::from("/sys/class/video4linux/v4l-subdev130/name"))
    );
}

#[test]
fn name_path_of_unrecognised_name_is_error() {
    assert_eq!(Node::new("/dev/foo").name_path(), Err(IndexError::MissingPrefix));
}

#[test]
fn file_name_edge_cases() {
    assert_eq!(file_name("/dev/video0"), Some(String::from("video0")));
    assert_eq!(file_name("a/./"), Some(String::from("a")));
    assert_eq!(file_name("./b"), Some(String::from("b")));
    assert_eq!(file_name("."), None);
    assert_eq!(file_name("/."), None);
    assert_eq!(file_name("a/.."), None);
    assert_eq!(file_name("a/.b"), Some(String::from(".b")));
}

#[test]
fn prefix_test() {
    assert!(starts_with("video0", "video"));
    assert!(!starts_with("vid", "video"));
    assert!(!starts_with("v4l-subdev0", "video"));
}
