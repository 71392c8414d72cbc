use std::collections::HashMap;
use std::sync::mpsc;
use ttrpc::context::Context;
use ttrpc::error::Error;
use ttrpc::messages::{KeyValue, Request, Response, Status};
use ttrpc::proto::{Codec, MessageHeader, MESSAGE_LENGTH_MAX, MESSAGE_TYPE_DATA, MESSAGE_TYPE_REQUEST, MESSAGE_TYPE_RESPONSE};
use ttrpc::security_extension::ConnectionContext;
use ttrpc::sync::channel::{
    body_from_read, body_written, discard_chunk, header_from_read, header_written, read_progress,
    write_progress,
};
use ttrpc::sync::client::{
    finish_request, frame_request, next_stream_id, prepare_request, read_failure, request_wait,
    frame_next_request, trans_resp, StreamIds,
};
use ttrpc::sync::net::{client_wakeup, listener_wakeup, retryable_code, Wakeup};
use ttrpc::sync::server::{
    check_listener, check_no_listener, check_thread_counts, client_request, decode_argument,
    dispatch_workload, handler_response, merge_answer, missing_method, refuse_missing_method, threads_to_start,
    worker_admitted, worker_low, Dispatch,
};
use ttrpc::sync::utils::{bounded_response, response_to_channel, send_response};
use ttrpc::security_extension::FrameSender;

#[test]
fn read_and_write_progress() {
    assert_eq!(read_progress(0, 10, 4), (4, false));
    assert_eq!(read_progress(4, 10, 6), (10, true));
    assert_eq!(read_progress(4, 10, 0), (4, true));
    assert_eq!(write_progress(0, 3, 3), (3, true));
    assert_eq!(write_progress(0, 3, 1), (1, false));
    assert_eq!(discard_chunk(10_000), 4096);
    assert_eq!(discard_chunk(10), 10);
}

#[test]
fn short_header_read_errors() {
    match header_from_read(&[1, 2, 3]) {
        Err(Error::RpcStatus(s)) => {
            assert_eq!(s.code, 3);
            assert_eq!(s.message, "Message header length 3 is too small");
        }
        other => panic!("unexpected {:?}", other),
    }
    match header_from_read(&[]) {
        Err(Error::Socket(m)) => assert_eq!(m, "socket disconnected"),
        other => panic!("unexpected {:?}", other),
    }
    let h = header_from_read(&[0, 0, 0, 5, 0, 0, 0, 7, 1, 0]).unwrap();
    assert_eq!((h.length, h.stream_id, h.type_, h.flags), (5, 7, 1, 0));
}

#[test]
fn body_and_write_checks() {
    assert_eq!(body_from_read(vec![1, 2], 2).unwrap(), vec![1, 2]);
    match body_from_read(vec![1], 2) {
        Err(Error::RpcStatus(s)) => assert_eq!(s.message, "Message length 1 is not 2"),
        other => panic!("unexpected {:?}", other),
    }
    assert!(header_written(10).is_ok());
    match header_written(4) {
        Err(Error::RpcStatus(s)) => assert_eq!(s.message, "Send Message header length size 4 is not right"),
        other => panic!("unexpected {:?}", other),
    }
    assert!(body_written(5, 5).is_ok());
    match body_written(0, 5) {
        Err(Error::Socket(m)) => assert_eq!(m, "socket disconnected"),
        other => panic!("unexpected {:?}", other),
    }
}

#[test]
fn client_stream_ids_and_waits() {
    assert_eq!(next_stream_id(1), 3);
    assert_eq!(request_wait(0), None);
    assert_eq!(request_wait(5), Some(5));
    assert_eq!(request_wait(-1), Some(u64::MAX));
}

#[test]
fn prepare_request_encodes() {
    let req = Request { service: "s".into(), ..Request::default() };
    assert_eq!(prepare_request(&req).unwrap(), vec![10, 1, b's']);
    let big = Request { payload: vec![0; MESSAGE_LENGTH_MAX], ..Request::default() };
    assert!(matches!(prepare_request(&big), Err(Error::Others(_))));
}

#[test]
fn frame_request_sets_header() {
    let ctx: ConnectionContext<()> = ConnectionContext::default();
    let (h, b) = frame_request(&ctx, 7, vec![1, 2, 3]).unwrap();
    assert_eq!(b, vec![1, 2, 3]);
    assert_eq!(h, MessageHeader { length: 3, stream_id: 7, type_: MESSAGE_TYPE_REQUEST, flags: 0 });
}

#[test]
fn read_failure_broadcasts_socket_errors() {
    match read_failure(&Error::Socket("eof".into())) {
        Some(Error::Socket(m)) => assert_eq!(m, "socket error eof"),
        other => panic!("unexpected {:?}", other),
    }
    assert!(read_failure(&Error::Eof).is_none());
}

#[test]
fn finish_request_outcomes() {
    let ok = Response { status: Some(Status::new()), payload: vec![4] };
    let r = finish_request(Ok(ok.encode().unwrap())).unwrap();
    assert_eq!(r.payload, vec![4]);
    let bad = Response { status: Some(Status { code: 5, message: "nf".into(), details: vec![] }), payload: vec![] };
    match finish_request(Ok(bad.encode().unwrap())) {
        Err(Error::RpcStatus(s)) => assert_eq!((s.code, s.message.as_str()), (5, "nf")),
        other => panic!("unexpected {:?}", other),
    }
    match finish_request(Ok(vec![0x80])) {
        Err(Error::Others(m)) => assert_eq!(m, "Unpack response error failed to decode Protobuf message: invalid varint"),
        other => panic!("unexpected {:?}", other),
    }
    assert!(matches!(finish_request(Err(Error::Eof)), Err(Error::Eof)));
}

#[test]
fn trans_resp_routes_by_stream() {
    let mut map = HashMap::new();
    let (tx, _rx) = mpsc::sync_channel::<Result<Vec<u8>, Error>>(1);
    map.insert(3u32, tx);
    assert!(trans_resp(&mut map, MessageHeader::new_response(9, 0), Ok(vec![1])).is_none());
    assert!(map.contains_key(&3));
    match trans_resp(&mut map, MessageHeader::new_data(3, 0), Ok(vec![2, 10])) {
        Some(Err(Error::Others(m))) => assert_eq!(
            m,
            "Recver got malformed packet MessageHeader { length: 0, stream_id: 3, type_: 3, flags: 0 } Ok([2, 10])"
        ),
        other => panic!("unexpected {:?}", other),
    }
    assert!(map.contains_key(&3));
    match trans_resp(&mut map, MessageHeader::new_data(3, 0), Err(Error::Others("x".into()))) {
        Some(Err(Error::Others(m))) => assert!(m.ends_with(" Err(Others(\"x\"))")),
        other => panic!("unexpected {:?}", other),
    }
    assert_eq!(trans_resp(&mut map, MessageHeader::new_response(3, 1), Ok(vec![7])).unwrap().unwrap(), vec![7]);
    assert!(!map.contains_key(&3));
    let _ = MESSAGE_TYPE_DATA;
}

#[test]
fn thread_count_checks() {
    assert!(check_thread_counts(3, 1, 5).is_ok());
    match check_thread_counts(5, 1, 5) {
        Err(Error::Others(m)) => assert_eq!(m, "thread_count_default should smaller than thread_count_max"),
        other => panic!("unexpected {:?}", other),
    }
    match check_thread_counts(1, 1, 5) {
        Err(Error::Others(m)) => assert_eq!(m, "thread_count_default should bigger than thread_count_min"),
        other => panic!("unexpected {:?}", other),
    }
    assert!(worker_admitted(4, 5));
    assert!(!worker_admitted(5, 5));
    assert!(worker_low(1, 1));
    assert!(!worker_low(2, 1));
    assert_eq!(threads_to_start(0, 1, 3), 3);
    assert_eq!(threads_to_start(2, 1, 3), 0);
}

#[test]
fn listener_checks() {
    assert!(check_no_listener(0).is_ok());
    match check_no_listener(1) {
        Err(Error::Others(m)) => assert_eq!(m, "ttrpc-rust just support 1 sockaddr now"),
        other => panic!("unexpected {:?}", other),
    }
    match check_listener(0) {
        Err(Error::Others(m)) => assert_eq!(m, "ttrpc-rust not bind"),
        other => panic!("unexpected {:?}", other),
    }
}

#[test]
fn dispatch_decisions() {
    let h = MessageHeader::new_request(1, 0);
    let req = Request { service: "grpc.S".into(), method: "M".into(), ..Request::default() };
    match dispatch_workload(&h, Ok(req.encode().unwrap())) {
        Dispatch::Call { path, req: r } => {
            assert_eq!(path, "/grpc.S/M");
            assert_eq!(r, req);
        }
        _ => panic!("expected a call"),
    }
    assert!(matches!(dispatch_workload(&MessageHeader::new_data(1, 0), Ok(vec![])), Dispatch::Skip));
    match dispatch_workload(&h, Ok(vec![0x80])) {
        Dispatch::Reply(res) => {
            let st = res.status.unwrap();
            assert_eq!(st.code, 3);
            assert_eq!(st.message, "failed to decode Protobuf message: invalid varint");
        }
        _ => panic!("expected a reply"),
    }
    match dispatch_workload(&h, Err(Error::Eof)) {
        Dispatch::Reply(res) => {
            let st = res.status.unwrap();
            assert_eq!(st.code, 2);
            assert_eq!(st.message, "eof");
            assert!(res.payload.is_empty());
        }
        _ => panic!("expected a reply"),
    }
    let m = missing_method("/a/b");
    assert_eq!(m.status.unwrap().message, "/a/b does not exist");
}

#[test]
fn handler_responses() {
    let kv = KeyValue { key: "k".into(), value: "v".into() };
    let r = handler_response(Ok::<KeyValue, Error>(kv.clone()));
    assert_eq!(r.status.as_ref().unwrap().code, 0);
    assert_eq!(r.payload, kv.encode().unwrap());
    let r = handler_response::<KeyValue>(Err(Error::RpcStatus(Status { code: 7, message: "no".into(), details: vec![] })));
    assert_eq!(r.status.unwrap().code, 7);
    let r = handler_response::<KeyValue>(Err(Error::Eof));
    let st = r.status.unwrap();
    assert_eq!(st.code, 2);
    assert_eq!(st.message, "Eof");
    let r = handler_response::<KeyValue>(Err(Error::Others("boom".into())));
    assert_eq!(r.status.unwrap().message, "Others(\"boom\")");
}

#[test]
fn stream_ids_go_up_by_two_from_one() {
    let mut ids = StreamIds::new();
    assert_eq!(ids.peek(), 1);
    assert_eq!(ids.take(), 1);
    assert_eq!(ids.take(), 3);
    assert_eq!(ids.take(), 5);
    assert_eq!(ids.peek(), 7);
}

#[test]
fn generated_client_helpers() {
    let mut ctx = Context::default();
    ctx.timeout_nano = 9;
    ctx.add("a".into(), "1".into());
    let arg = KeyValue { key: "x".into(), value: "y".into() };
    let req = client_request("svc", "m", ctx, &arg);
    assert_eq!(req.service, "svc");
    assert_eq!(req.method, "m");
    assert_eq!(req.timeout_nano, 9);
    assert_eq!(req.metadata, vec![KeyValue { key: "a".into(), value: "1".into() }]);
    assert_eq!(req.payload, arg.encode().unwrap());

    let back: KeyValue = decode_argument(&req.payload).unwrap();
    assert_eq!(back, arg);
    match decode_argument::<KeyValue>(&[0x80]) {
        Err(Error::Others(m)) => assert_eq!(m, "Unpack request error failed to decode Protobuf message: invalid varint"),
        other => panic!("unexpected {:?}", other),
    }
    let mut cres = KeyValue::default();
    let res = Response { status: None, payload: req.payload.clone() };
    merge_answer(&mut cres, &res).unwrap();
    assert_eq!(cres, arg);
}

#[test]
fn bounded_response_replaces_oversize() {
    let small = Response { status: None, payload: vec![1] };
    assert_eq!(bounded_response(&small, 100), small.encode().unwrap());
    let buf = bounded_response(&small, 2);
    let back = Response::decode(&buf).unwrap();
    let st = back.status.unwrap();
    assert_eq!(st.code, 3);
    assert_eq!(st.message, "response payload 3 bytes exceeds safe limit 2 bytes (after transform overhead)");
    assert!(back.payload.is_empty());
}

#[test]
fn response_to_channel_sends_frame() {
    let (tx, rx) = mpsc::channel();
    let res = Response { status: None, payload: vec![5] };
    let mut tx = FrameSender::new(tx);
    response_to_channel(3, res, &mut tx).unwrap();
    let (h, b) = rx.recv().unwrap();
    assert_eq!(h, MessageHeader { length: 3, stream_id: 3, type_: MESSAGE_TYPE_RESPONSE, flags: 0 });
    assert_eq!(b, vec![18, 1, 5]);
}

#[test]
fn response_to_channel_fails_when_receiver_gone() {
    let (tx, rx) = mpsc::channel();
    drop(rx);
    let mut tx = FrameSender::new(tx);
    let res = Response { status: None, payload: vec![] };
    match response_to_channel(1, res, &mut tx) {
        Err(Error::Others(m)) => assert!(m.starts_with("send to wire channel failed: ")),
        other => panic!("unexpected {:?}", other),
    }
}

#[test]
fn send_response_replaces_oversized_answer() {
    let (tx, rx) = mpsc::channel();
    let mut tx = FrameSender::new(tx);
    let ctx: ConnectionContext<()> = ConnectionContext::default();
    let res = Response { status: None, payload: vec![0; 5 << 20] };
    send_response(4, res, &mut tx, &ctx).unwrap();
    let (h, b) = rx.recv().unwrap();
    assert_eq!(h.stream_id, 4);
    assert_eq!(h.type_, MESSAGE_TYPE_RESPONSE);
    assert_eq!(h.length as usize, b.len());
    let r = Response::decode(&b).unwrap();
    let st = r.status.unwrap();
    assert_eq!(st.code, 3);
    assert_eq!(
        st.message,
        format!("response payload {} bytes exceeds safe limit 4194304 bytes (after transform overhead)", (5 << 20) + 5)
    );
}

#[test]
fn wakeup_decisions() {
    assert!(retryable_code(4));
    assert!(retryable_code(11));
    assert!(!retryable_code(9));
    assert!(listener_wakeup(-1, 0, 0) == Wakeup::Failed);
    assert!(listener_wakeup(1, 1, 1) == Wakeup::Spurious);
    assert!(listener_wakeup(1, 0, 1) == Wakeup::Ready);
    assert!(client_wakeup(-1, 4, 0, 0) == Wakeup::Spurious);
    assert!(client_wakeup(1, 0, 1, 1) == Wakeup::Closed);
    assert!(client_wakeup(2, 0, 0, 1) == Wakeup::Ready);
}

#[test]
fn missing_method_is_refused_with_one_frame() {
    let (tx, rx) = mpsc::channel();
    let mut tx = FrameSender::new(tx);
    let ctx: ConnectionContext<()> = ConnectionContext::default();
    refuse_missing_method(7, "/svc/Nope", &mut tx, &ctx).unwrap();
    let (h, b) = rx.recv().unwrap();
    assert!(rx.try_recv().is_err());
    assert_eq!((h.stream_id, h.type_, h.flags, h.length as usize), (7, MESSAGE_TYPE_RESPONSE, 0, b.len()));
    let st = Response::decode(&b).unwrap().status.unwrap();
    assert_eq!(st.code, 3);
    assert_eq!(st.message, "/svc/Nope does not exist");
}

#[test]
fn sender_frames_requests_under_successive_ids() {
    let ctx: ConnectionContext<()> = ConnectionContext::default();
    let mut ids = StreamIds::new();
    let (h, b) = frame_next_request(&mut ids, &ctx, vec![1, 2, 3]).unwrap();
    assert_eq!(h, MessageHeader { length: 3, stream_id: 1, type_: MESSAGE_TYPE_REQUEST, flags: 0 });
    assert_eq!(b, vec![1, 2, 3]);
    // an oversized request fails but still takes its id
    assert!(frame_next_request(&mut ids, &ctx, vec![0; MESSAGE_LENGTH_MAX + 1]).is_err());
    let (h, _) = frame_next_request(&mut ids, &ctx, vec![]).unwrap();
    assert_eq!(h.stream_id, 5);
}
