use ttrpc::messages::{KeyValue, Request, Response, Status};
use ttrpc::proto::{
    check_oversize, Codec, GenMessage, Message, MessageHeader, MESSAGE_HEADER_LENGTH,
    MESSAGE_LENGTH_MAX, MESSAGE_TYPE_DATA, MESSAGE_TYPE_REQUEST, MESSAGE_TYPE_RESPONSE,
};
use ttrpc::error::Error;
use ttrpc::wire::CodecError;

static MESSAGE_HEADER: [u8; MESSAGE_HEADER_LENGTH] = [
    0x10, 0x0, 0x0, 0x0, // length
    0x0, 0x0, 0x0, 0x03, // stream_id
    0x2,  // type_
    0xef, // flags
];

const TEST_PAYLOAD_LEN: usize = 67;

static PROTOBUF_MESSAGE_HEADER: [u8; MESSAGE_HEADER_LENGTH] = [
    0x00, 0x0, 0x0, TEST_PAYLOAD_LEN as u8, // length
    0x0, 0x12, 0x34, 0x56, // stream_id
    0x1,  // type_
    0xef, // flags
];

static PROTOBUF_REQUEST: [u8; TEST_PAYLOAD_LEN] = [
    10, 17, 103, 114, 112, 99, 46, 84, 101, 115, 116, 83, 101, 114, 118, 105, 99, 101, 115, 18,
    4, 84, 101, 115, 116, 26, 9, 1, 2, 3, 4, 5, 6, 7, 8, 9, 32, 128, 218, 196, 9, 42, 24, 10,
    9, 116, 101, 115, 116, 95, 107, 101, 121, 49, 18, 11, 116, 101, 115, 116, 95, 118, 97, 108,
    117, 101, 49,
];

fn new_protobuf_request() -> Request {
    let meta = vec![KeyValue {
        key: "test_key1".to_string(),
        value: "test_value1".to_string(),
    }];
    Request {
        service: "grpc.TestServices".to_owned(),
        method: "Test".to_owned(),
        timeout_nano: 20 * 1000 * 1000,
        metadata: meta,
        payload: vec![0x1, 0x2, 0x3, 0x4, 0x5, 0x6, 0x7, 0x8, 0x9],
    }
}

#[test]
fn message_header() {
    let mh = MessageHeader::from_bytes(&MESSAGE_HEADER);
    assert_eq!(mh.length, 0x1000_0000);
    assert_eq!(mh.stream_id, 0x3);
    assert_eq!(mh.type_, MESSAGE_TYPE_RESPONSE);
    assert_eq!(mh.flags, 0xef);

    let mut buf2 = vec![0; MESSAGE_HEADER_LENGTH];
    mh.into_buf(&mut buf2);
    assert_eq!(&MESSAGE_HEADER, &buf2[..]);

    let mh = MessageHeader::from_bytes(&PROTOBUF_MESSAGE_HEADER);
    assert_eq!(mh.length as usize, TEST_PAYLOAD_LEN);
}

#[test]
fn protobuf_codec() {
    let creq = new_protobuf_request();
    let buf = creq.encode().unwrap();
    assert_eq!(&buf, &PROTOBUF_REQUEST);
    let dreq = Request::decode(&buf).unwrap();
    assert_eq!(creq, dreq);
    let dreq2 = Request::decode(&PROTOBUF_REQUEST).unwrap();
    assert_eq!(creq, dreq2);
}

#[test]
fn gen_message_to_message() {
    let req = new_protobuf_request();
    let msg = Message::new_request(3, req).unwrap();
    let msg_clone = msg.clone();
    let gen: GenMessage = msg.into_gen().unwrap();
    let dmsg = Message::<Request>::from_gen(gen).unwrap();
    assert_eq!(msg_clone, dmsg);
}

#[test]
fn header_to_bytes_roundtrip() {
    let mut h = MessageHeader::new_request(0x0102_0304, 0x0a0b_0c0d);
    h.set_flags(0x80);
    h.add_flags(0x01);
    let bytes = h.to_bytes();
    assert_eq!(bytes, vec![0x0a, 0x0b, 0x0c, 0x0d, 0x01, 0x02, 0x03, 0x04, MESSAGE_TYPE_REQUEST, 0x81]);
    assert_eq!(MessageHeader::from_bytes(&bytes), h);
}

#[test]
fn header_constructors_set_type() {
    assert_eq!(MessageHeader::new_response(5, 7).type_, MESSAGE_TYPE_RESPONSE);
    let d = MessageHeader::new_data(5, 7);
    assert_eq!((d.type_, d.stream_id, d.length, d.flags), (MESSAGE_TYPE_DATA, 5, 7, 0));
    let mut h = MessageHeader::default();
    h.set_stream_id(9);
    assert_eq!(h.stream_id, 9);
}

#[test]
fn check_oversize_limits() {
    assert!(check_oversize(MESSAGE_LENGTH_MAX, true).is_ok());
    match check_oversize(MESSAGE_LENGTH_MAX + 1, false) {
        Err(Error::Others(m)) => {
            assert_eq!(m, "message length 4194305 exceed maximum message size of 4194304")
        }
        other => panic!("unexpected {:?}", other),
    }
    match check_oversize(MESSAGE_LENGTH_MAX + 1, true) {
        Err(Error::RpcStatus(s)) => {
            assert_eq!(s.code, 3);
            assert_eq!(s.message, "message length 4194305 exceed maximum message size of 4194304");
        }
        other => panic!("unexpected {:?}", other),
    }
}

#[test]
fn gen_message_check_and_close() {
    let mut g = GenMessage::new_data(1, vec![1, 2, 3]);
    assert_eq!(g.header.length, 3);
    assert!(g.check().is_ok());
    g.header.length = (MESSAGE_LENGTH_MAX + 1) as u32;
    assert!(g.check().is_err());
    let c = GenMessage::new_close(7);
    assert_eq!(c.header.flags, 0x1 | 0x4);
    assert!(c.payload.is_empty());
    let r = GenMessage::new_response(3, vec![9]);
    assert_eq!(r.header.type_, MESSAGE_TYPE_RESPONSE);
}

#[test]
fn new_request_header_length_is_encoded_size() {
    let req = new_protobuf_request();
    let msg = Message::new_request(11, req).unwrap();
    assert_eq!(msg.header.length as usize, TEST_PAYLOAD_LEN);
    assert_eq!(msg.header.stream_id, 11);
    assert_eq!(msg.header.type_, MESSAGE_TYPE_REQUEST);
}

#[test]
fn new_request_refuses_oversize() {
    let mut req = new_protobuf_request();
    req.payload = vec![0u8; MESSAGE_LENGTH_MAX];
    assert!(matches!(Message::new_request(1, req), Err(Error::Others(_))));
}

#[test]
fn response_codec_roundtrip() {
    let res = Response {
        status: Some(Status { code: -2, message: "bad".to_string(), details: vec![] }),
        payload: vec![7, 8],
    };
    let buf = res.encode().unwrap();
    assert_eq!(res.size() as usize, buf.len());
    let back = Response::decode(&buf).unwrap();
    assert_eq!(back, res);
}

#[test]
fn empty_status_is_still_encoded() {
    let res = Response { status: Some(Status::new()), payload: vec![] };
    assert_eq!(res.encode().unwrap(), vec![10, 0]);
    let back = Response::decode(&[10, 0]).unwrap();
    assert_eq!(back.status, Some(Status::new()));
}

#[test]
fn decode_skips_unknown_fields() {
    // field 9 (varint 5), then service "a"
    let buf = [72, 5, 10, 1, b'a'];
    let req = Request::decode(&buf).unwrap();
    assert_eq!(req.service, "a");
}

fn cause(e: &CodecError) -> &CodecError {
    match e {
        CodecError::Located { inner, .. } => cause(inner),
        _ => e,
    }
}

#[test]
fn decode_reports_faults() {
    let e = Request::decode(&[10, 5, 1]).unwrap_err();
    assert!(matches!(e, CodecError::Located { message: "Request", field: "service", .. }));
    assert!(matches!(cause(&e), CodecError::BufferUnderflow));
    assert!(matches!(Request::decode(&[0x80]), Err(CodecError::InvalidVarint)));
    assert!(matches!(Request::decode(&[0]), Err(CodecError::InvalidTag)));
    assert!(matches!(Request::decode(&[7]), Err(CodecError::InvalidWireType(7))));
    let e = Request::decode(&[8, 1]).unwrap_err();
    assert!(matches!(cause(&e), CodecError::UnexpectedWireType { actual: 0, expected: 2 }));
    let e = Request::decode(&[10, 1, 0xff]).unwrap_err();
    assert!(matches!(cause(&e), CodecError::InvalidString));
    let e = Request::decode(&[10, 5, 1]).unwrap_err();
    assert_eq!(e.message(), "failed to decode Protobuf message: Request.service: buffer underflow");
    let e = Request::decode(&[8, 1]).unwrap_err();
    assert_eq!(
        e.message(),
        "failed to decode Protobuf message: Request.service: invalid wire type: Varint (expected LengthDelimited)"
    );
    let e = Request::decode(&[0x80]).unwrap_err();
    assert_eq!(e.message(), "failed to decode Protobuf message: invalid varint");
}

#[test]
fn nested_fault_names_every_field_it_is_in() {
    // a response whose status holds a detail whose type URL is not UTF-8
    let buf = [10, 5, 26, 3, 10, 1, 0xff];
    let e = Response::decode(&buf).unwrap_err();
    assert_eq!(
        e.message(),
        "failed to decode Protobuf message: Any.type_url: Status.details: Response.status: \
         invalid string value: data is not UTF-8 encoded"
    );
}

#[test]
fn nested_message_over_its_length_fails() {
    // metadata entry declared 2 bytes long, whose key field claims 3 bytes
    let buf = [42, 2, 10, 3, b'a', b'b', b'c'];
    let e = Request::decode(&buf).unwrap_err();
    assert!(matches!(cause(&e), CodecError::DelimitedLengthExceeded));
    assert_eq!(e.message(), "failed to decode Protobuf message: Request.metadata: delimited length exceeded");
}

#[test]
fn merge_keeps_fields_read_before_a_failure() {
    let mut req = Request::default();
    let r = req.merge(&[10, 1, b'x', 18, 9]);
    assert!(r.is_err());
    assert_eq!(req.service, "x");
    assert_eq!(req.method, "");
}

#[test]
fn negative_timeout_roundtrips() {
    let mut req = new_protobuf_request();
    req.timeout_nano = -1;
    let buf = req.encode().unwrap();
    assert_eq!(Request::decode(&buf).unwrap().timeout_nano, -1);
}

#[test]
fn unskippable_field_reports_prost_description() {
    // an unknown field 9 that opens with an end-group key
    let e = Request::decode(&[0x4c]).unwrap_err();
    assert_eq!(e.message(), "failed to decode Protobuf message: unexpected end group tag");
    // the same inside a response's status
    let e = Response::decode(&[10, 1, 0x24]).unwrap_err();
    assert_eq!(e.message(), "failed to decode Protobuf message: Response.status: unexpected end group tag");
    // an unknown group with no end
    let e = Request::decode(&[0x4b]).unwrap_err();
    assert_eq!(e.message(), "failed to decode Protobuf message: invalid varint");
}
