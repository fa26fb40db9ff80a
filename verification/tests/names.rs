use system_broadcaster::name::{create_name, NAME_MAX, NAME_PREFIX};
use system_broadcaster::InvalidNameError;

fn created(name: &str) -> Result<Vec<u8>, InvalidNameError> {
    create_name(name).map(|name| name.as_bytes_with_nul().to_vec())
}

#[test]
fn names_correctly_validated() {
    let too_long_name = "a".repeat((libc::PATH_MAX + 5) as usize);

    for (name, expected) in [
        ("", Err(InvalidNameError::Empty)),
        (too_long_name.as_str(), Err(InvalidNameError::TooLong)),
        ("name/with/slashes", Err(InvalidNameError::ContainsSlash)),
        ("name_with_nul\0", Err(InvalidNameError::ContainsNul)),
        ("good_name", Ok(b"/sys-broadc-good_name\0".to_vec())),
    ] {
        assert_eq!(created(name), expected)
    }
}

#[test]
fn longest_name_leaves_room_for_the_prefix() {
    assert_eq!(NAME_MAX, libc::NAME_MAX as usize);
    let room = NAME_MAX - NAME_PREFIX.len();
    assert_eq!(room, 244);
    let name = created(&"a".repeat(room)).unwrap();
    assert_eq!(name.len(), 1 + 255 + 1);
    assert_eq!(created(&"a".repeat(room + 1)), Err(InvalidNameError::TooLong));
}

#[test]
fn names_that_the_system_cannot_use_are_too_long() {
    for length in [245, 255, 256, 300, 4083, 4084] {
        assert_eq!(created(&"a".repeat(length)), Err(InvalidNameError::TooLong));
    }
}

#[test]
fn length_is_counted_in_bytes() {
    assert!(created(&"é".repeat(122)).is_ok());
    assert_eq!(created(&"é".repeat(123)), Err(InvalidNameError::TooLong));
}

#[test]
fn first_reason_wins() {
    assert_eq!(created(&"/\0".repeat(4000)), Err(InvalidNameError::TooLong));
    assert_eq!(created("\0/"), Err(InvalidNameError::ContainsSlash));
    assert_eq!(created("a\0b"), Err(InvalidNameError::ContainsNul));
}

#[test]
fn names_outside_ascii_are_kept() {
    assert_eq!(created("naïve").unwrap(), "/sys-broadc-naïve\0".as_bytes());
}

#[test]
fn different_names_give_different_queues() {
    assert_eq!(created("foobar_123"), created("foobar_123"));
    assert_ne!(created("foobar_123"), created("foobar_124"));
    assert_ne!(created("foobar"), created("foobar_123"));
}

#[test]
fn accepted_name_is_one_path_component() {
    let name = created("foobar_123").unwrap();
    let (nul, path) = name.split_last().unwrap();
    assert_eq!(*nul, 0);
    assert_eq!(path[0], b'/');
    assert!(path[1..].iter().all(|&byte| byte != b'/' && byte != 0));
}
