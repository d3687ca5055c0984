//! Tests for capability advertisement and ref rendering.
use remote_helper::caps::{capability_lines, Capabilities};
use remote_helper::model::{Object, Ref};
use remote_helper::render::format_ref;

fn caps(connect: bool, list: bool, list_for_push: bool, fetch: bool, push: bool) -> Capabilities {
    Capabilities { connect, list, list_for_push, fetch, push }
}

#[test]
fn advertisement_lists_exactly_the_capabilities() {
    assert_eq!(
        capability_lines(&caps(true, true, true, true, true)),
        vec!["connect".to_string(), "push".to_string(), "fetch".to_string()]
    );
    assert_eq!(
        capability_lines(&caps(false, true, false, true, false)),
        vec!["fetch".to_string()]
    );
    assert_eq!(
        capability_lines(&caps(false, true, true, false, true)),
        vec!["push".to_string()]
    );
    assert_eq!(capability_lines(&caps(false, false, false, false, false)), Vec::<String>::new());
    assert_eq!(
        capability_lines(&caps(true, false, false, false, false)),
        vec!["connect".to_string()]
    );
}

#[test]
fn format_hash_ref() {
    let r = Ref {
        object: Object::Hash(vec![0u8; 20]),
        name: "refs/heads/main".to_string(),
        unchanged: false,
    };
    assert_eq!(
        format_ref(&r),
        "0000000000000000000000000000000000000000 refs/heads/main"
    );
}

#[test]
fn format_hash_ref_lowercase_hex() {
    let r = Ref {
        object: Object::Hash(vec![0xde, 0xad, 0xbe, 0xef, 0, 1, 2, 3, 4, 5, 6, 7, 8, 9, 10, 11, 12, 13, 14, 0xff]),
        name: "refs/tags/v1".to_string(),
        unchanged: false,
    };
    assert_eq!(
        format_ref(&r),
        "deadbeef000102030405060708090a0b0c0d0eff refs/tags/v1"
    );
}

#[test]
fn format_link_ref_with_unchanged() {
    let r = Ref {
        object: Object::Link("refs/heads/main".to_string()),
        name: "HEAD".to_string(),
        unchanged: true,
    };
    assert_eq!(format_ref(&r), "@refs/heads/main HEAD unchanged");
}
