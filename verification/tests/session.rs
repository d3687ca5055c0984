//! Tests that drive whole protocol sessions through the engine, the way the
//! driver does: feed a line, run the action it answers with.
use remote_helper::caps::Capabilities;
use remote_helper::engine::{Action, Engine};
use remote_helper::errors::{OpKind, ProtoError};
use remote_helper::model::{Object, Ref};
use remote_helper::render::format_ref;

fn full_caps() -> Capabilities {
    Capabilities { connect: true, list: true, list_for_push: true, fetch: true, push: true }
}

fn engine(caps: Capabilities) -> Engine {
    Engine::new(caps, "/repo/objects".to_string())
}

#[test]
fn greeting_then_advertisement() {
    let mut e = engine(full_caps());
    match e.step(Some("capabilities\n")) {
        Ok(Action::Advertise(lines)) => {
            assert_eq!(lines, vec!["connect".to_string(), "push".to_string(), "fetch".to_string()]);
        },
        other => panic!("expected advertisement, got {:?}", result_kind(&other)),
    }
}

#[test]
fn greeting_must_come_first() {
    let mut e = engine(full_caps());
    assert!(matches!(e.step(Some("list\n")), Err(ProtoError::BadGreeting)));
}

#[test]
fn read_failure_is_fatal() {
    let mut e = engine(full_caps());
    assert!(matches!(e.step(None), Err(ProtoError::UnexpectedEnd)));
}

#[test]
fn list_session_renders_refs() {
    // A session `capabilities`, `list`, blank, against a backend whose list
    // yields one hash ref, produces the capability lines, the rendered ref,
    // and a blank line.
    let mut e = engine(full_caps());
    let mut output: Vec<String> = Vec::new();
    match e.step(Some("capabilities\n")).unwrap() {
        Action::Advertise(lines) => {
            for l in lines {
                output.push(l);
            }
            output.push(String::new());
        },
        _ => panic!("expected advertisement"),
    }
    match e.step(Some("list\n")).unwrap() {
        Action::RunList => {
            // The backend's listing, as the driver would stream it.
            let listed = vec![Ref {
                object: Object::Hash(vec![0u8; 20]),
                name: "refs/heads/main".to_string(),
                unchanged: false,
            }];
            for r in &listed {
                output.push(format_ref(r));
            }
            output.push(String::new());
        },
        _ => panic!("expected a list run"),
    }
    match e.step(Some("\n")).unwrap() {
        Action::Finish => {},
        _ => panic!("expected the session to finish"),
    }
    assert_eq!(
        output,
        vec![
            "connect".to_string(),
            "push".to_string(),
            "fetch".to_string(),
            String::new(),
            "0000000000000000000000000000000000000000 refs/heads/main".to_string(),
            String::new(),
        ]
    );
}

#[test]
fn list_unsupported_fails_fast() {
    let caps = Capabilities { connect: false, list: false, list_for_push: false, fetch: false, push: false };
    let mut e = engine(caps);
    match e.step(Some("capabilities\n")).unwrap() {
        Action::Advertise(lines) => assert!(lines.is_empty()),
        _ => panic!("expected advertisement"),
    }
    assert!(matches!(
        e.step(Some("list\n")),
        Err(ProtoError::Unsupported(OpKind::List))
    ));
}

#[test]
fn list_for_push_dispatches() {
    let mut e = engine(full_caps());
    e.step(Some("capabilities\n")).unwrap();
    assert!(matches!(e.step(Some("list for-push\n")), Ok(Action::RunListForPush)));
}

#[test]
fn fetch_batch_collects_in_order() {
    let h1 = "000102030405060708090a0b0c0d0e0f10111213";
    let h2 = "ffeeddccbbaa99887766554433221100ffeeddcc";
    let mut e = engine(full_caps());
    e.step(Some("capabilities\n")).unwrap();
    assert!(matches!(
        e.step(Some(format!("fetch {} one\n", h1).as_str())),
        Ok(Action::ReadMore)
    ));
    assert!(matches!(
        e.step(Some(format!("fetch {} two\n", h2).as_str())),
        Ok(Action::ReadMore)
    ));
    match e.step(Some("\n")).unwrap() {
        Action::RunFetch(objs) => {
            assert_eq!(objs.len(), 2);
            assert_eq!(objs[0].name, "one");
            assert_eq!(objs[0].path, format!("/repo/objects/{}/{}", &h1[..2], &h1[2..]));
            assert_eq!(objs[1].name, "two");
            assert_eq!(objs[1].path, format!("/repo/objects/{}/{}", &h2[..2], &h2[2..]));
            assert_eq!(objs[0].object, Object::Hash((0u8..20).collect()));
        },
        _ => panic!("expected the batch to run"),
    }
    // The batch ran exactly once; the engine is idle again.
    assert!(matches!(e.step(Some("\n")), Ok(Action::Finish)));
}

#[test]
fn fetch_batch_with_missing_name_never_runs() {
    let h1 = "000102030405060708090a0b0c0d0e0f10111213";
    let mut e = engine(full_caps());
    e.step(Some("capabilities\n")).unwrap();
    e.step(Some(format!("fetch {} one\n", h1).as_str())).unwrap();
    // Second batch line lacks the name: fatal, the batch is never handed over.
    assert!(matches!(
        e.step(Some(format!("fetch {}\n", h1).as_str())),
        Err(ProtoError::MissingName)
    ));
}

#[test]
fn fetch_batch_rejects_other_commands() {
    let h1 = "000102030405060708090a0b0c0d0e0f10111213";
    let mut e = engine(full_caps());
    e.step(Some("capabilities\n")).unwrap();
    e.step(Some(format!("fetch {} one\n", h1).as_str())).unwrap();
    assert!(matches!(
        e.step(Some("push a:b\n")),
        Err(ProtoError::UnexpectedCommand)
    ));
}

#[test]
fn fetch_unsupported_fails_when_batch_closes() {
    let caps = Capabilities { connect: false, list: true, list_for_push: false, fetch: false, push: false };
    let h1 = "000102030405060708090a0b0c0d0e0f10111213";
    let mut e = engine(caps);
    e.step(Some("capabilities\n")).unwrap();
    assert!(matches!(
        e.step(Some(format!("fetch {} one\n", h1).as_str())),
        Ok(Action::ReadMore)
    ));
    assert!(matches!(
        e.step(Some("\n")),
        Err(ProtoError::Unsupported(OpKind::Fetch))
    ));
}

#[test]
fn push_batch_forced_refspec() {
    let mut e = engine(full_caps());
    e.step(Some("capabilities\n")).unwrap();
    assert!(matches!(
        e.step(Some("push +refs/heads/a:refs/heads/b\n")),
        Ok(Action::ReadMore)
    ));
    match e.step(Some("\n")).unwrap() {
        Action::RunPush(objs) => {
            assert_eq!(objs.len(), 1);
            assert!(objs[0].forced);
            assert_eq!(objs[0].src, "refs/heads/a");
            assert_eq!(objs[0].dst, "refs/heads/b");
        },
        _ => panic!("expected the push batch to run"),
    }
}

#[test]
fn push_batch_bad_refspec_is_fatal() {
    let mut e = engine(full_caps());
    e.step(Some("capabilities\n")).unwrap();
    e.step(Some("push a:b\n")).unwrap();
    assert!(matches!(
        e.step(Some("push a:b:c\n")),
        Err(ProtoError::ExtraRefSpecPart)
    ));
}

#[test]
fn unknown_command_finishes_gracefully() {
    let mut e = engine(full_caps());
    e.step(Some("capabilities\n")).unwrap();
    assert!(matches!(e.step(Some("option verbosity 1\n")), Ok(Action::Finish)));
}

#[test]
fn error_messages_name_the_failure() {
    assert_eq!(ProtoError::UnexpectedEnd.message(), "unexpected end of input");
    assert_eq!(ProtoError::BadHash.message(), "invalid hash");
    assert_eq!(
        ProtoError::Unsupported(OpKind::Push).message(),
        "operation push not supported"
    );
}

fn result_kind(r: &Result<Action, ProtoError>) -> String {
    match r {
        Ok(_) => "an action".to_string(),
        Err(e) => e.message(),
    }
}
