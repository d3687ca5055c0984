//! Tests for token parsing: hash-or-link tokens, fetch lines, push lines,
//! and the text helpers they are built on.
use remote_helper::errors::ProtoError;
use remote_helper::model::{Object, PushObject};
use remote_helper::parse::{parse_fetch_line, parse_object, parse_push_line};
use remote_helper::text::{tokenize, trim};

#[test]
fn tokenize_splits_on_blanks() {
    let toks = tokenize("  fetch   abc  name\n");
    assert_eq!(toks, vec!["fetch".to_string(), "abc".to_string(), "name".to_string()]);
    assert_eq!(tokenize(""), Vec::<String>::new());
    assert_eq!(tokenize("   \n"), Vec::<String>::new());
}

#[test]
fn trim_removes_surrounding_blanks() {
    assert_eq!(trim("  list \n"), "list");
    assert_eq!(trim("list for-push\n"), "list for-push");
    assert_eq!(trim("   "), "");
}

#[test]
fn parse_link_token() {
    assert_eq!(parse_object("@foo"), Ok(Object::Link("foo".to_string())));
    assert_eq!(parse_object("@"), Ok(Object::Link(String::new())));
}

#[test]
fn parse_hash_token_round_trip() {
    let bytes: Vec<u8> = (0u8..20).collect();
    let hexed = "000102030405060708090a0b0c0d0e0f10111213";
    assert_eq!(parse_object(hexed), Ok(Object::Hash(bytes)));
    // Uppercase digits decode to the same bytes.
    let upper = "000102030405060708090A0B0C0D0E0F10111213";
    assert_eq!(parse_object(upper), parse_object(hexed));
}

#[test]
fn parse_hash_token_rejects_bad_shapes() {
    // Wrong length.
    assert_eq!(parse_object(""), Err(ProtoError::BadHash));
    assert_eq!(parse_object("abc"), Err(ProtoError::BadHash));
    assert_eq!(
        parse_object("000102030405060708090a0b0c0d0e0f101112"),
        Err(ProtoError::BadHash)
    );
    assert_eq!(
        parse_object("000102030405060708090a0b0c0d0e0f1011121314"),
        Err(ProtoError::BadHash)
    );
    // Right length, non-hex character.
    assert_eq!(
        parse_object("g00102030405060708090a0b0c0d0e0f10111213"),
        Err(ProtoError::BadHash)
    );
}

#[test]
fn parse_fetch_line_builds_object_path() {
    let hexed = "000102030405060708090a0b0c0d0e0f10111213";
    let line = format!("fetch {} refs/heads/main", hexed);
    let fo = parse_fetch_line(&line, "/repo/objects").unwrap();
    assert_eq!(fo.object, Object::Hash((0u8..20).collect()));
    assert_eq!(fo.name, "refs/heads/main");
    assert_eq!(
        fo.path,
        "/repo/objects/00/0102030405060708090a0b0c0d0e0f10111213"
    );
}

#[test]
fn parse_fetch_line_rejects_bad_lines() {
    assert_eq!(
        parse_fetch_line("fetch", "/r"),
        Err(ProtoError::MissingHash)
    );
    assert_eq!(
        parse_fetch_line("fetch abcdef0123abcdef0123abcdef0123abcdef01", "/r"),
        Err(ProtoError::MissingName)
    );
    assert_eq!(
        parse_fetch_line("fetch abcdef0123abcdef0123abcdef0123abcdef01 name extra", "/r"),
        Err(ProtoError::ExtraFetchArg)
    );
    assert_eq!(
        parse_fetch_line("fetch zzz name", "/r"),
        Err(ProtoError::BadHash)
    );
    assert_eq!(
        parse_fetch_line("fetch @ name", "/r"),
        Err(ProtoError::ShortFetchToken)
    );
}

#[test]
fn parse_push_line_forced_and_plain() {
    assert_eq!(
        parse_push_line("push +a:b"),
        Ok(PushObject { forced: true, src: "a".to_string(), dst: "b".to_string() })
    );
    assert_eq!(
        parse_push_line("push a:b"),
        Ok(PushObject { forced: false, src: "a".to_string(), dst: "b".to_string() })
    );
}

#[test]
fn parse_push_line_rejects_bad_refspecs() {
    assert_eq!(parse_push_line("push a:b:c"), Err(ProtoError::ExtraRefSpecPart));
    assert_eq!(parse_push_line("push ab"), Err(ProtoError::MissingDst));
    assert_eq!(parse_push_line("push"), Err(ProtoError::MissingRefSpec));
    // A lone `+` before the ref-spec forces an empty source.
    assert_eq!(
        parse_push_line("push +:b"),
        Ok(PushObject { forced: true, src: String::new(), dst: "b".to_string() })
    );
    // Extra whitespace-separated tokens after the ref-spec are ignored.
    assert_eq!(
        parse_push_line("push a:b extra"),
        Ok(PushObject { forced: false, src: "a".to_string(), dst: "b".to_string() })
    );
}
