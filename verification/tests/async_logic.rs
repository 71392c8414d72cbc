use ttrpc::asynchronous::client::{request_frame, response_route, stream_init_flags, Route, StreamRegistrationGuard};
use ttrpc::asynchronous::connection::{
    discard_before_write, request_timeout_error, run_step, settle_write, RunAction, Settlement, WriteOutcome,
    WriterEnd,
};
use ttrpc::asynchronous::server::{
    classify_frame, decode_request_frame, initial_data, inactive_stream_status, method_deadline,
    method_outcome, missing_method_status, missing_service, oversize_checked, response_message,
    stream_outcome, FrameAction,
};
use ttrpc::asynchronous::stream::{channel_result, Kind, ReceiverState};
use ttrpc::asynchronous::utils::get_path;
use ttrpc::error::Error;
use ttrpc::messages::{Request, Response, Status};
use ttrpc::proto::{Codec, GenMessage, GenMessageError, MessageHeader, MESSAGE_LENGTH_MAX, MESSAGE_TYPE_DATA, MESSAGE_TYPE_RESPONSE};

fn receiver(recveivable: bool) -> ReceiverState {
    ReceiverState { stream_id: 5, recveivable, remote_closed: false, kind: Kind::Client }
}

#[test]
fn receiver_data_frames() {
    let mut r = receiver(true);
    assert_eq!(r.on_message(GenMessage::new_data(5, vec![1, 2])).unwrap(), vec![1, 2]);
    assert!(!r.remote_closed);
    let mut close = GenMessage::new_close(5);
    assert!(matches!(r.on_message(close.clone()), Err(Error::Eof)));
    assert!(r.remote_closed);
    assert!(matches!(r.before_recv(), Err(Error::RemoteClosed)));
    let mut r = receiver(true);
    close.payload = vec![9];
    match r.on_message(close) {
        Err(Error::Others(m)) => assert_eq!(m, "stream 5: close message cannot include data"),
        other => panic!("unexpected {:?}", other),
    }
    let mut r = receiver(false);
    match r.on_message(GenMessage::new_data(5, vec![])) {
        Err(Error::Others(m)) => assert_eq!(m, "received data from non-streaming server."),
        other => panic!("unexpected {:?}", other),
    }
    assert!(r.remote_closed);
}

#[test]
fn receiver_response_frames() {
    let mut r = receiver(true);
    let ok = Response { status: Some(Status::new()), payload: vec![3] };
    assert_eq!(r.on_message(GenMessage::new_response(5, ok.encode().unwrap())).unwrap(), vec![3]);
    assert!(r.remote_closed);
    let mut r = receiver(true);
    let bad = Response { status: Some(Status { code: 14, message: "down".into(), details: vec![] }), payload: vec![] };
    assert!(matches!(r.on_message(GenMessage::new_response(5, bad.encode().unwrap())), Err(Error::RpcStatus(_))));
    let mut r = receiver(true);
    let mut other = GenMessage::new_data(5, vec![]);
    other.header.type_ = 9;
    match r.on_message(other) {
        Err(Error::Others(m)) => assert_eq!(m, "not support"),
        other => panic!("unexpected {:?}", other),
    }
    match channel_result(None) {
        Err(Error::Others(m)) => assert_eq!(m, "Receive packet from Receiver error"),
        other => panic!("unexpected {:?}", other),
    }
}

#[test]
fn client_routing() {
    assert!(matches!(response_route(&MessageHeader::new_response(1, 0)), Route::Deliver { remove: true }));
    assert!(matches!(response_route(&MessageHeader::new_data(1, 0)), Route::Deliver { remove: false }));
    let mut h = MessageHeader::new_data(1, 0);
    h.set_flags(1);
    assert!(matches!(response_route(&h), Route::Deliver { remove: true }));
    h.type_ = 7;
    match response_route(&h) {
        Route::Fail(Error::Others(m)) => assert_eq!(
            m,
            "Receiver got malformed packet MessageHeader { length: 0, stream_id: 1, type_: 7, flags: 1 }"
        ),
        _ => panic!("expected failure"),
    }
    assert_eq!(format!("{:?}", h), "MessageHeader { length: 0, stream_id: 1, type_: 7, flags: 1 }");
}

#[test]
fn stream_flags_and_frames() {
    assert_eq!(stream_init_flags(true, true).unwrap(), 0x2 | 0x4);
    assert_eq!(stream_init_flags(false, false).unwrap(), 0x1);
    match stream_init_flags(true, false) {
        Err(Error::RpcStatus(s)) => assert_eq!(s.message, "Creating a ClientStream and sending payload at the same time is not allowed"),
        other => panic!("unexpected {:?}", other),
    }
    let req = Request { method: "m".into(), ..Request::default() };
    let g = request_frame(3, req.clone()).unwrap();
    assert_eq!(g.payload, req.encode().unwrap());
    assert_eq!(g.header.length as usize, g.payload.len());
    let big = Request { payload: vec![0; MESSAGE_LENGTH_MAX], ..Request::default() };
    assert!(request_frame(3, big).is_err());
}

#[test]
fn registration_guard() {
    let mut g = StreamRegistrationGuard::new(11);
    assert_eq!(g.pending_removal(), Some(11));
    g.disarm();
    assert_eq!(g.pending_removal(), None);
}

#[test]
fn writer_settlement() {
    assert!(matches!(discard_before_write(true, true), Some(Error::LocalClosed)));
    match discard_before_write(false, true) {
        Some(Error::Others(m)) => assert_eq!(m, "Request deadline elapsed"),
        other => panic!("unexpected {:?}", other),
    }
    assert!(discard_before_write(false, false).is_none());
    assert!(matches!(settle_write(WriteOutcome::Complete(Ok(()))), Settlement::Report(Ok(()))));
    assert!(matches!(settle_write(WriteOutcome::Discarded(Error::Eof)), Settlement::Report(Err(Error::Eof))));
    match settle_write(WriteOutcome::Cancelled) {
        Settlement::Abort(Error::LocalClosed, Error::Socket(m)) => {
            assert_eq!(m, "connection closed after a request was cancelled during write")
        }
        _ => panic!("expected abort"),
    }
    match settle_write(WriteOutcome::DeadlineElapsed) {
        Settlement::Abort(Error::Others(a), Error::Socket(_)) => assert_eq!(a, "Request deadline elapsed"),
        _ => panic!("expected abort"),
    }
    assert!(matches!(request_timeout_error(), Error::Others(_)));
}

#[test]
fn server_frame_decisions() {
    match classify_frame(&MessageHeader::new_request(2, 0)) {
        FrameAction::Refuse(s) => assert_eq!((s.code, s.message.as_str()), (3, "stream id must be odd")),
        _ => panic!("expected refusal"),
    }
    assert!(matches!(classify_frame(&MessageHeader::new_request(3, 0)), FrameAction::Request));
    assert!(matches!(classify_frame(&MessageHeader::new_data(3, 0)), FrameAction::Data));
    assert!(matches!(classify_frame(&MessageHeader::new_response(3, 0)), FrameAction::Ignore));
    let req = Request { service: "s".into(), ..Request::default() };
    let m = decode_request_frame(GenMessage::new_data(3, req.encode().unwrap())).unwrap();
    assert_eq!(m.payload, req);
    let e = decode_request_frame(GenMessage::new_data(3, vec![0x80])).unwrap_err();
    assert_eq!(e.code, 3);
    assert_eq!(missing_service("svc").message, "svc service does not exist");
    let u = missing_method_status("m");
    assert_eq!((u.code, u.message.as_str()), (12, "m method"));
    assert_eq!(inactive_stream_status().message, "Stream is no longer active");
    assert_eq!(get_path("a.B", "C"), "/a.B/C");
}

#[test]
fn server_method_outcomes() {
    let e = method_outcome(None).unwrap_err();
    assert_eq!((e.code, e.message.as_str()), (4, "timeout"));
    let e = method_outcome(Some(Err(Error::Others("x".into())))).unwrap_err();
    assert_eq!((e.code, e.message.as_str()), (2, "ttrpc err: x"));
    assert!(method_outcome(Some(Ok(Response::default()))).unwrap().is_some());
    assert!(stream_outcome(Ok(None)).unwrap().is_none());
    assert_eq!(method_deadline(0), None);
    assert_eq!(method_deadline(3), Some(3));
}

#[test]
fn server_response_framing() {
    let big = Response { status: None, payload: vec![0; MESSAGE_LENGTH_MAX] };
    let r = oversize_checked(big);
    let st = r.status.unwrap();
    assert_eq!(st.code, 3);
    assert!(r.payload.is_empty());
    let small = Response { status: None, payload: vec![1] };
    let m = response_message(7, &small, 1000);
    assert_eq!(m.header.type_, MESSAGE_TYPE_RESPONSE);
    assert_eq!(m.payload, small.encode().unwrap());
    assert!(initial_data(7, 0x4, vec![1]).is_none());
    let d = initial_data(7, 0, vec![1, 2]).unwrap();
    assert_eq!((d.header.type_, d.header.length), (MESSAGE_TYPE_DATA, 2));
}

#[test]
fn reader_loop_steps() {
    assert!(matches!(run_step(Some(WriterEnd::Returned(Ok(()))), true, None), RunAction::Stop));
    match run_step(Some(WriterEnd::Failed("panicked".into())), false, None) {
        RunAction::Disconnect(Error::Others(m)) => assert_eq!(m, "Writer task failed: panicked"),
        _ => panic!("expected a disconnect"),
    }
    assert!(matches!(
        run_step(Some(WriterEnd::Returned(Err(Error::Eof))), false, None),
        RunAction::Disconnect(Error::Eof)
    ));
    let msg = GenMessage::new_data(3, vec![1]);
    assert!(matches!(run_step(None, true, Some(Ok(msg.clone()))), RunAction::Stop));
    match run_step(None, false, Some(Ok(msg))) {
        RunAction::HandleMsg(m) => assert_eq!(m.header.stream_id, 3),
        _ => panic!("expected the frame"),
    }
    let h = MessageHeader::new_request(5, 0);
    assert!(matches!(
        run_step(None, false, Some(Err(GenMessageError::ReturnError(h, Error::Eof)))),
        RunAction::HandleErr(x, Error::Eof) if x == h
    ));
    assert!(matches!(
        run_step(None, false, Some(Err(GenMessageError::InternalError(Error::LocalClosed)))),
        RunAction::Abort(Error::LocalClosed)
    ));
    assert!(matches!(run_step(None, false, None), RunAction::Wait));
}
