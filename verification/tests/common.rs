use ttrpc::common::{parse_sockaddr, parse_vscok, tcp_nodelay_enabled, Domain};
use ttrpc::error::Error;

#[test]
fn common_test_parse_sockaddr() {
    for i in &[
        ("unix:///run/a.sock", Some(Domain::Unix), "/run/a.sock", true),
        ("vsock://8:1024", Some(Domain::Vsock), "8:1024", true),
        ("Vsock://8:1025", Some(Domain::Vsock), "8:1025", false),
        ("unix://@/run/b.sock", Some(Domain::Unix), "@/run/b.sock", true),
        ("abc:///run/c.sock", None, "", false),
        ("tcp://127.0.0.1:65500", Some(Domain::Tcp), "127.0.0.1:65500", true),
    ] {
        let (input, domain, addr, success) = (i.0, i.1, i.2, i.3);
        let r = parse_sockaddr(input);
        if success {
            let (rd, ra) = r.unwrap();
            assert_eq!(rd, domain.unwrap());
            assert_eq!(ra, addr);
        } else {
            assert!(r.is_err());
        }
    }
}

#[test]
fn test_parse_vscok() {
    for i in &[
        ("-1:1024", (libc::VMADDR_CID_ANY, 1024)),
        ("0:1", (0, 1)),
        ("1:2", (1, 2)),
        ("4294967294:3", (4294967294, 3)),
        ("4294967295:4", (libc::VMADDR_CID_ANY, 4)),
    ] {
        let (input, (cid, port)) = (i.0, i.1);
        let r = parse_vscok(input);
        assert_eq!(r.unwrap(), (cid, port), "parse {:?} failed", i);
    }
}

#[test]
fn parse_sockaddr_error_text() {
    match parse_sockaddr("abc:///run/c.sock") {
        Err(Error::Others(m)) => assert_eq!(m, "Scheme \"abc:///run/c.sock\" is not supported"),
        other => panic!("unexpected {:?}", other),
    }
}

#[test]
fn parse_vscok_errors() {
    match parse_vscok("1:2:3") {
        Err(Error::Others(m)) => assert_eq!(m, "sockaddr 1:2:3 is not right for vsock"),
        other => panic!("unexpected {:?}", other),
    }
    match parse_vscok("x:2") {
        Err(Error::Others(m)) => assert!(m.starts_with("failed to parse cid from \"x\" error: ")),
        other => panic!("unexpected {:?}", other),
    }
    match parse_vscok("1:y") {
        Err(Error::Others(m)) => assert!(m.starts_with("failed to parse port from \"y\" error: ")),
        other => panic!("unexpected {:?}", other),
    }
    assert!(parse_vscok(" -1 :5").is_ok());
}

#[test]
fn nodelay_values() {
    assert!(tcp_nodelay_enabled(Some("1")));
    assert!(tcp_nodelay_enabled(Some("TRUE")));
    assert!(!tcp_nodelay_enabled(Some("0")));
    assert!(!tcp_nodelay_enabled(None));
}
