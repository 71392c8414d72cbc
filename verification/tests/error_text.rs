use ttrpc::error::{get_status, sock_error_msg, status_debug_text, Error};
use ttrpc::messages::{Any, Code, Response, Status};

#[test]
fn status_renders_code_name_message_and_details() {
    let s = get_status(Code::INVALID_ARGUMENT, "bad \"arg\"".to_string());
    assert_eq!(
        status_debug_text(&s),
        "Status { code: INVALID_ARGUMENT, message: \"bad \\\"arg\\\"\", details: [] }"
    );
}

#[test]
fn status_with_unknown_code_renders_the_number() {
    let s = Status { code: -7, message: "x".into(), details: vec![] };
    assert_eq!(status_debug_text(&s), "Status { code: -7, message: \"x\", details: [] }");
    let s = Status { code: 99, message: String::new(), details: vec![] };
    assert_eq!(status_debug_text(&s), "Status { code: 99, message: \"\", details: [] }");
}

#[test]
fn status_renders_each_detail() {
    let s = Status {
        code: 0,
        message: "m".into(),
        details: vec![
            Any { type_url: "t/a".into(), value: vec![1, 200] },
            Any { type_url: "t/b".into(), value: vec![] },
        ],
    };
    assert_eq!(
        status_debug_text(&s),
        "Status { code: OK, message: \"m\", details: [Any { type_url: \"t/a\", value: [1, 200] }, \
         Any { type_url: \"t/b\", value: [] }] }"
    );
}

#[test]
fn error_messages() {
    let e = Error::RpcStatus(get_status(Code::NOT_FOUND, "gone".to_string()));
    assert_eq!(e.message(), "rpc status: Status { code: NOT_FOUND, message: \"gone\", details: [] }");
    assert_eq!(Error::Socket("closed".into()).message(), "socket err: closed");
    assert_eq!(Error::Others("x".into()).message(), "ttrpc err: x");
    assert_eq!(Error::LocalClosed.message(), "ttrpc err: local stream closed");
    assert_eq!(Error::RemoteClosed.message(), "ttrpc err: remote stream closed");
    assert_eq!(Error::Eof.message(), "eof");
}

#[test]
fn short_reads_become_errors() {
    assert!(matches!(sock_error_msg(0, "m".into()), Error::Socket(s) if s == "socket disconnected"));
    match sock_error_msg(3, "short".into()) {
        Error::RpcStatus(s) => {
            assert_eq!(s.code, 3);
            assert_eq!(s.message, "short");
        }
        _ => panic!("expected a status"),
    }
}

#[test]
fn response_from_error_keeps_a_status() {
    let r = Response::from_error(Error::RpcStatus(get_status(Code::ABORTED, "a".into())));
    assert_eq!(r.status.unwrap().code, 10);
    let r = Response::from_error(Error::Eof);
    let st = r.status.unwrap();
    assert_eq!(st.code, 2);
    assert_eq!(st.message, "eof");
    assert!(r.payload.is_empty());
}

#[test]
fn error_debug_texts() {
    assert_eq!(Error::Socket("s".into()).debug_text(), "Socket(\"s\")");
    assert_eq!(Error::Others("o".into()).debug_text(), "Others(\"o\")");
    assert_eq!(Error::Eof.debug_text(), "Eof");
    assert_eq!(Error::LocalClosed.debug_text(), "LocalClosed");
    assert_eq!(Error::RemoteClosed.debug_text(), "RemoteClosed");
    assert_eq!(
        Error::RpcStatus(get_status(Code::INTERNAL, "i".into())).debug_text(),
        "RpcStatus(Status { code: INTERNAL, message: \"i\", details: [] })"
    );
    assert!(Error::Nix(nix::errno::Errno::EINVAL).debug_text().starts_with("Nix("));
}
