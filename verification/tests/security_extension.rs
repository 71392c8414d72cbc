use std::any::Any;
use std::collections::HashMap;
use std::sync::Arc;
use ttrpc::error::Error;
use ttrpc::proto::{GenMessage, MessageHeader, MESSAGE_LENGTH_MAX};
use ttrpc::security_extension::{
    accept_hook_target, accept_outcome, connect_hook_context, connect_hook_failure, connect_hook_target, connect_hook_without_fd, missing_fd_hook_error,
    serialize_aad, ConnectionContext, HookError, HookOutput, PayloadTransform,
};

type ConnectionData = HashMap<String, Box<dyn Any + Send + Sync>>;

fn get_typed<'a, T: 'static>(data: &'a ConnectionData, key: &str) -> Option<&'a T> {
    data.get(key)?.downcast_ref::<T>()
}

#[test]
fn accept_error_debug_rejected() {
    let e = HookError::Rejected("bad cid".into());
    assert_eq!(e.debug_text(), "Rejected(bad cid)");
}

#[test]
fn accept_error_debug_timeout() {
    let e = HookError::Timeout;
    assert_eq!(e.debug_text(), "Timeout");
}

#[test]
fn accept_error_debug_io() {
    let e = HookError::Io(std::io::Error::new(std::io::ErrorKind::BrokenPipe, "pipe"));
    let dbg = e.debug_text();
    assert!(dbg.starts_with("Io("));
}

#[test]
fn accept_error_debug_other() {
    let e = HookError::Other("misc".into());
    assert_eq!(e.debug_text(), "Other(misc)");
}

#[test]
fn accept_error_display_rejected() {
    let e = HookError::Rejected("no auth".into());
    assert_eq!(e.display_text(), "connection rejected: no auth");
}

#[test]
fn accept_error_display_timeout() {
    let e = HookError::Timeout;
    assert_eq!(e.display_text(), "handshake timeout");
}

#[test]
fn accept_error_display_io() {
    let e = HookError::Io(std::io::Error::new(std::io::ErrorKind::ConnectionRefused, "refused"));
    let s = e.display_text();
    assert!(s.starts_with("I/O error:"));
}

#[test]
fn accept_error_display_other() {
    let e = HookError::Other("something went wrong".into());
    assert_eq!(e.display_text(), "something went wrong");
}

#[derive(Debug)]
struct NoopTransform;

impl PayloadTransform for NoopTransform {
    fn transform_inbound(&self, data: Vec<u8>, _aad: &[u8]) -> Result<Vec<u8>, String> {
        Ok(data)
    }
    fn transform_outbound(&self, data: Vec<u8>, _aad: &[u8]) -> Result<Vec<u8>, String> {
        Ok(data)
    }
}

#[test]
fn accept_output_empty_data_no_transform() {
    let out = HookOutput { data: ConnectionData::new(), payload_transform: None };
    assert!(out.data.is_empty());
    assert!(out.payload_transform.is_none());
}

#[test]
fn accept_output_with_data_and_transform() {
    let mut data = ConnectionData::new();
    data.insert("peer".into(), Box::new(1234u32));
    let out = HookOutput { data, payload_transform: Some(Box::new(NoopTransform)) };
    assert_eq!(get_typed::<u32>(&out.data, "peer"), Some(&1234u32));
    assert!(out.payload_transform.is_some());
}

#[test]
fn context_default_is_empty() {
    let ctx: ConnectionContext<ConnectionData> = ConnectionContext::default();
    assert!(ctx.data.is_empty());
    assert!(ctx.payload_transform.is_none());
}

#[test]
fn context_new_none_equals_default() {
    let ctx: ConnectionContext<ConnectionData> = ConnectionContext::new(None);
    assert!(ctx.data.is_empty());
    assert!(ctx.payload_transform.is_none());
}

#[test]
fn context_new_with_data_only() {
    let mut data = ConnectionData::new();
    data.insert("role".into(), Box::new(String::from("server")));
    let output = HookOutput { data, payload_transform: None };
    let ctx = ConnectionContext::new(Some(output));
    assert_eq!(get_typed::<String>(&ctx.data, "role").map(String::as_str), Some("server"));
    assert!(ctx.payload_transform.is_none());
}

#[test]
fn context_new_with_data_and_transform() {
    let mut data = ConnectionData::new();
    data.insert("cid".into(), Box::new(42u32));
    let output = HookOutput { data, payload_transform: Some(Box::new(NoopTransform)) };
    let ctx = ConnectionContext::new(Some(output));
    assert_eq!(get_typed::<u32>(&ctx.data, "cid"), Some(&42u32));
    assert!(ctx.payload_transform.is_some());
}

#[test]
fn transform_inbound_no_transform_returns_original() {
    let ctx: ConnectionContext<ConnectionData> = ConnectionContext::default();
    let payload = vec![1, 2, 3, 4];
    let result = ctx.transform_inbound(payload.clone(), &[]).unwrap();
    assert_eq!(result, payload);
}

#[test]
fn transform_outbound_no_transform_returns_original() {
    let ctx: ConnectionContext<ConnectionData> = ConnectionContext::default();
    let payload = vec![5, 6, 7, 8];
    let result = ctx.transform_outbound(payload.clone(), &[]).unwrap();
    assert_eq!(result, payload);
}

#[test]
fn inbound_no_transform_is_noop() {
    let ctx: ConnectionContext<ConnectionData> = ConnectionContext::default();
    let mut msg = GenMessage { payload: vec![10, 20, 30], ..Default::default() };
    ctx.inbound(&mut msg, false).unwrap();
    assert_eq!(msg.payload, vec![10, 20, 30]);
}

#[test]
fn outbound_no_transform_is_noop() {
    let ctx: ConnectionContext<ConnectionData> = ConnectionContext::default();
    let mut msg = GenMessage { payload: vec![10, 20, 30], ..Default::default() };
    ctx.outbound(&mut msg, false).unwrap();
    assert_eq!(msg.payload, vec![10, 20, 30]);
}

#[test]
fn transform_inbound_noop_preserves_data() {
    let output = HookOutput { data: ConnectionData::new(), payload_transform: Some(Box::new(NoopTransform)) };
    let ctx = ConnectionContext::new(Some(output));
    let payload = vec![0xDE, 0xAD, 0xBE, 0xEF];
    let result = ctx.transform_inbound(payload.clone(), &[]).unwrap();
    assert_eq!(result, payload);
}

#[test]
fn transform_outbound_noop_preserves_data() {
    let output = HookOutput { data: ConnectionData::new(), payload_transform: Some(Box::new(NoopTransform)) };
    let ctx = ConnectionContext::new(Some(output));
    let payload = vec![0xCA, 0xFE];
    let result = ctx.transform_outbound(payload.clone(), &[]).unwrap();
    assert_eq!(result, payload);
}

const XOR_ALGO_ID: u16 = 0x0001;
const XOR_KEY: u16 = 0xA5A5;
const XOR_HEADER_LEN: usize = 6;

#[derive(Debug)]
struct XorPayloadTransform;

impl PayloadTransform for XorPayloadTransform {
    fn transform_outbound(&self, data: Vec<u8>, _aad: &[u8]) -> Result<Vec<u8>, String> {
        let payload_len = data.len();
        let mut padded = data;
        if padded.len() % 2 != 0 {
            padded.push(0x00);
        }
        let mut encrypted = Vec::with_capacity(XOR_HEADER_LEN + padded.len());
        encrypted.extend_from_slice(&XOR_ALGO_ID.to_be_bytes());
        encrypted.extend_from_slice(&(payload_len as u32).to_be_bytes());
        for chunk in padded.chunks(2) {
            let val = u16::from_be_bytes([chunk[0], chunk[1]]);
            let xored = val ^ XOR_KEY;
            encrypted.extend_from_slice(&xored.to_be_bytes());
        }
        Ok(encrypted)
    }

    fn transform_inbound(&self, data: Vec<u8>, _aad: &[u8]) -> Result<Vec<u8>, String> {
        if data.len() < XOR_HEADER_LEN {
            return Err(format!("xor: packet too short ({} < {})", data.len(), XOR_HEADER_LEN));
        }
        let algo_id = u16::from_be_bytes([data[0], data[1]]);
        if algo_id != XOR_ALGO_ID {
            return Err(format!("xor: unknown algo 0x{:04X}", algo_id));
        }
        let payload_len = u32::from_be_bytes([data[2], data[3], data[4], data[5]]) as usize;
        let encrypted = &data[XOR_HEADER_LEN..];
        if encrypted.len() % 2 != 0 {
            return Err("xor: encrypted data has odd length".into());
        }
        let mut decrypted = Vec::with_capacity(encrypted.len());
        for chunk in encrypted.chunks(2) {
            let val = u16::from_be_bytes([chunk[0], chunk[1]]);
            let xored = val ^ XOR_KEY;
            decrypted.extend_from_slice(&xored.to_be_bytes());
        }
        decrypted.truncate(payload_len);
        Ok(decrypted)
    }
}

fn xor_context() -> ConnectionContext<ConnectionData> {
    let output = HookOutput { data: ConnectionData::new(), payload_transform: Some(Box::new(XorPayloadTransform)) };
    ConnectionContext::new(Some(output))
}

#[test]
fn xor_roundtrip_basic() {
    let ctx = xor_context();
    let original = vec![0x01, 0x02, 0x03, 0x04, 0x05, 0x06];
    let encrypted = ctx.transform_outbound(original.clone(), &[]).unwrap();
    let decrypted = ctx.transform_inbound(encrypted, &[]).unwrap();
    assert_eq!(decrypted, original);
}

#[test]
fn xor_roundtrip_empty_payload() {
    let ctx = xor_context();
    let original = vec![];
    let encrypted = ctx.transform_outbound(original.clone(), &[]).unwrap();
    assert_eq!(encrypted.len(), XOR_HEADER_LEN);
    let decrypted = ctx.transform_inbound(encrypted, &[]).unwrap();
    assert_eq!(decrypted, original);
}

#[test]
fn xor_roundtrip_odd_length() {
    let ctx = xor_context();
    let original = vec![0xAA, 0xBB, 0xCC];
    let encrypted = ctx.transform_outbound(original.clone(), &[]).unwrap();
    assert_eq!(encrypted.len(), XOR_HEADER_LEN + 4);
    let decrypted = ctx.transform_inbound(encrypted, &[]).unwrap();
    assert_eq!(decrypted, original);
}

#[test]
fn xor_roundtrip_single_byte() {
    let ctx = xor_context();
    let original = vec![0xFF];
    let encrypted = ctx.transform_outbound(original.clone(), &[]).unwrap();
    let decrypted = ctx.transform_inbound(encrypted, &[]).unwrap();
    assert_eq!(decrypted, original);
}

#[test]
fn xor_roundtrip_large_payload() {
    let ctx = xor_context();
    let original: Vec<u8> = (0..1024).map(|i| (i % 256) as u8).collect();
    let encrypted = ctx.transform_outbound(original.clone(), &[]).unwrap();
    let decrypted = ctx.transform_inbound(encrypted, &[]).unwrap();
    assert_eq!(decrypted, original);
}

#[test]
fn xor_header_algo_id() {
    let xform = XorPayloadTransform;
    let encrypted = xform.transform_outbound(vec![0x00, 0x01], &[]).unwrap();
    let algo_id = u16::from_be_bytes([encrypted[0], encrypted[1]]);
    assert_eq!(algo_id, XOR_ALGO_ID);
}

#[test]
fn xor_header_payload_length() {
    let xform = XorPayloadTransform;
    let payload = vec![0x10, 0x20, 0x30, 0x40, 0x50];
    let encrypted = xform.transform_outbound(payload, &[]).unwrap();
    let recorded_len = u32::from_be_bytes([encrypted[2], encrypted[3], encrypted[4], encrypted[5]]) as usize;
    assert_eq!(recorded_len, 5);
}

#[test]
fn xor_encrypted_data_differs_from_plaintext() {
    let xform = XorPayloadTransform;
    let original = vec![0x00, 0x00, 0x00, 0x00];
    let encrypted = xform.transform_outbound(original.clone(), &[]).unwrap();
    let body = &encrypted[XOR_HEADER_LEN..];
    assert_ne!(body, &original[..]);
    assert_eq!(body, &[0xA5, 0xA5, 0xA5, 0xA5]);
}

#[test]
fn xor_inbound_too_short() {
    let xform = XorPayloadTransform;
    let result = xform.transform_inbound(vec![0x00, 0x01], &[]);
    assert!(result.is_err());
    assert!(result.unwrap_err().contains("too short"));
}

#[test]
fn xor_inbound_wrong_algo() {
    let xform = XorPayloadTransform;
    let data = vec![0x00, 0x99, 0x00, 0x00, 0x00, 0x00, 0x00, 0x00];
    let result = xform.transform_inbound(data, &[]);
    assert!(result.is_err());
    assert!(result.unwrap_err().contains("unknown algo"));
}

#[test]
fn xor_inbound_odd_body_length() {
    let xform = XorPayloadTransform;
    let data = vec![0x00, 0x01, 0x00, 0x00, 0x00, 0x02, 0xAB, 0xCD, 0xEF];
    let result = xform.transform_inbound(data, &[]);
    assert!(result.is_err());
    assert!(result.unwrap_err().contains("odd length"));
}

#[test]
fn xor_outbound_msg() {
    let ctx = xor_context();
    let mut msg = GenMessage { payload: vec![0x01, 0x02, 0x03, 0x04], ..Default::default() };
    ctx.outbound(&mut msg, false).unwrap();
    assert_eq!(msg.payload.len(), XOR_HEADER_LEN + 4);
    let algo = u16::from_be_bytes([msg.payload[0], msg.payload[1]]);
    assert_eq!(algo, XOR_ALGO_ID);
}

#[test]
fn xor_inbound_msg() {
    let ctx = xor_context();
    let original = vec![0xDE, 0xAD, 0xBE, 0xEF];
    let mut msg = GenMessage { payload: original.clone(), ..Default::default() };
    ctx.outbound(&mut msg, false).unwrap();
    ctx.inbound(&mut msg, false).unwrap();
    assert_eq!(msg.payload, original);
}

#[test]
fn xor_msg_roundtrip_updates_header_length() {
    let ctx = xor_context();
    let mut msg = GenMessage::default();
    msg.header.stream_id = 42;
    msg.header.type_ = 1;
    msg.header.flags = 0x80;
    msg.payload = vec![0x11, 0x22, 0x33];

    ctx.outbound(&mut msg, false).unwrap();
    assert_eq!(msg.header.length, 10);
    assert_eq!(msg.header.stream_id, 42);

    ctx.inbound(&mut msg, false).unwrap();
    assert_eq!(msg.header.length, 3);
    assert_eq!(msg.payload, vec![0x11, 0x22, 0x33]);
}

#[derive(Debug)]
struct FailTransform;

impl PayloadTransform for FailTransform {
    fn transform_inbound(&self, _data: Vec<u8>, _aad: &[u8]) -> Result<Vec<u8>, String> {
        Err("inbound failed".into())
    }
    fn transform_outbound(&self, _data: Vec<u8>, _aad: &[u8]) -> Result<Vec<u8>, String> {
        Err("outbound failed".into())
    }
}

#[test]
fn failing_transform_propagates_error() {
    let output = HookOutput { data: ConnectionData::new(), payload_transform: Some(Box::new(FailTransform)) };
    let ctx = ConnectionContext::new(Some(output));
    assert!(ctx.transform_inbound(vec![1], &[]).is_err());
    assert!(ctx.transform_outbound(vec![1], &[]).is_err());
}

#[test]
fn failing_transform_pipeline_propagates_error() {
    let output = HookOutput { data: ConnectionData::new(), payload_transform: Some(Box::new(FailTransform)) };
    let ctx = ConnectionContext::new(Some(output));
    let mut msg = GenMessage { payload: vec![1, 2, 3], ..Default::default() };
    assert!(ctx.inbound(&mut msg, false).is_err());
    assert!(ctx.outbound(&mut msg, false).is_err());
}

#[test]
fn context_data_is_arc_shared() {
    let mut data = ConnectionData::new();
    data.insert("key".into(), Box::new(99u64));
    let output = HookOutput { data, payload_transform: None };
    let ctx = ConnectionContext::new(Some(output));
    let data2 = ctx.data.clone();
    assert_eq!(Arc::strong_count(&ctx.data), 2);
    assert_eq!(get_typed::<u64>(&data2, "key"), Some(&99u64));
}

#[test]
fn context_transform_is_arc_shared() {
    let output = HookOutput { data: ConnectionData::new(), payload_transform: Some(Box::new(NoopTransform)) };
    let ctx = ConnectionContext::new(Some(output));
    let t1 = ctx.payload_transform.clone().unwrap();
    let t2 = ctx.payload_transform.clone().unwrap();
    assert!(Arc::ptr_eq(&t1, &t2));
}

#[test]
fn xor_roundtrip_all_zeros() {
    let ctx = xor_context();
    let original = vec![0x00; 16];
    let encrypted = ctx.transform_outbound(original.clone(), &[]).unwrap();
    let body = &encrypted[XOR_HEADER_LEN..];
    assert!(body.iter().all(|&b| b == 0xA5));
    let decrypted = ctx.transform_inbound(encrypted, &[]).unwrap();
    assert_eq!(decrypted, original);
}

#[test]
fn xor_roundtrip_all_ones() {
    let ctx = xor_context();
    let original = vec![0xFF; 20];
    let encrypted = ctx.transform_outbound(original.clone(), &[]).unwrap();
    let decrypted = ctx.transform_inbound(encrypted, &[]).unwrap();
    assert_eq!(decrypted, original);
}

#[test]
fn xor_inbound_empty_header_exactly() {
    let xform = XorPayloadTransform;
    let data = vec![0x00, 0x01, 0x00, 0x00, 0x00, 0x00];
    let result = xform.transform_inbound(data, &[]);
    assert!(result.is_ok());
    assert!(result.unwrap().is_empty());
}

#[test]
fn xor_transform_inbound_idempotent_after_outbound() {
    let xform = XorPayloadTransform;
    let original = vec![0x01, 0x02, 0x03, 0x04];
    let encrypted = xform.transform_outbound(original.clone(), &[]).unwrap();
    let decrypted = xform.transform_inbound(encrypted.clone(), &[]).unwrap();
    assert_eq!(decrypted, original);
    let result = xform.transform_inbound(decrypted, &[]);
    assert!(result.is_err(), "Double-decrypt should fail");
}

#[test]
fn aad_serializes_routing_fields() {
    let h = MessageHeader { length: 77, stream_id: 0x0102_0304, type_: 2, flags: 5 };
    assert_eq!(serialize_aad(&h), [1, 2, 3, 4, 2, 5]);
    let h2 = MessageHeader { length: 1, ..h };
    assert_eq!(serialize_aad(&h2), serialize_aad(&h));
}

#[test]
fn max_raw_payload_len_accounts_for_overhead() {
    let ctx: ConnectionContext<ConnectionData> = ConnectionContext::default();
    assert_eq!(ctx.max_raw_payload_len(), MESSAGE_LENGTH_MAX);
    let x = xor_context();
    assert_eq!(x.max_raw_payload_len(), MESSAGE_LENGTH_MAX - 64);
}

#[test]
fn outbound_refuses_raw_payload_over_safe_limit() {
    let x = xor_context();
    let mut msg = GenMessage { payload: vec![0; MESSAGE_LENGTH_MAX - 63], ..Default::default() };
    match x.outbound(&mut msg, false) {
        Err(Error::Others(m)) => assert_eq!(
            m,
            "payload 4194241 bytes exceeds safe limit 4194240 bytes (MESSAGE_LENGTH_MAX - transform overhead); reduce payload size"
        ),
        other => panic!("unexpected {:?}", other),
    }
    assert_eq!(msg.payload.len(), MESSAGE_LENGTH_MAX - 63);
}

#[test]
fn failed_transform_reports_direction() {
    let output = HookOutput { data: ConnectionData::new(), payload_transform: Some(Box::new(FailTransform)) };
    let ctx = ConnectionContext::new(Some(output));
    match ctx.inbound_buf(vec![1], &[], false) {
        Err(Error::Others(m)) => assert_eq!(m, "transform_inbound failed: inbound failed"),
        other => panic!("unexpected {:?}", other),
    }
}

#[test]
fn accept_outcome_timeout() {
    let r = accept_outcome::<ConnectionData>(None);
    assert!(matches!(r, Err(HookError::Timeout)));
}

#[test]
fn accept_outcome_task_failure() {
    let r = accept_outcome::<ConnectionData>(Some(Err("task panicked".to_string())));
    match r {
        Err(HookError::Other(m)) => assert_eq!(m, "accept hook task failed: task panicked"),
        _ => panic!("expected a task failure"),
    }
}

#[test]
fn accept_outcome_accepted_keeps_output() {
    let mut data = ConnectionData::new();
    data.insert("role".into(), Box::new(String::from("peer")));
    let output = HookOutput { data, payload_transform: None };
    let r = accept_outcome(Some(Ok(Ok(output))));
    let out = r.ok().flatten().expect("accepted");
    assert_eq!(get_typed::<String>(&out.data, "role").map(|s| s.as_str()), Some("peer"));
}

#[test]
fn accept_outcome_rejected_keeps_error() {
    let r = accept_outcome::<ConnectionData>(Some(Ok(Err(HookError::Rejected("bad cid".into())))));
    match r {
        Err(e) => assert_eq!(e.display_text(), "connection rejected: bad cid"),
        Ok(_) => panic!("expected a rejection"),
    }
}

#[test]
fn missing_fd_error_names_the_remedy() {
    let e = missing_fd_hook_error();
    assert!(e.display_text().contains("accept hook requires a raw fd"));
}

#[test]
fn send_control_kept_without_transform() {
    let ctx: ConnectionContext<ConnectionData> = ConnectionContext::default();
    assert_eq!(ctx.send_control(Some(7u32)), Some(7));
}

#[test]
fn send_control_dropped_with_transform() {
    let ctx = xor_context();
    assert_eq!(ctx.send_control(Some(7u32)), None);
}

#[test]
fn connect_hook_failure_names_descriptor_and_cause() {
    let e = connect_hook_failure(true, 7, &HookError::Rejected("client rejected".into()));
    assert!(matches!(e, Error::Others(ref m) if m == "sync client connect hook failed (fd=7): connection rejected: client rejected"));
    let e = connect_hook_failure(false, -1, &HookError::Timeout);
    assert!(matches!(e, Error::Others(ref m) if m == "client connect hook failed (fd=-1): handshake timeout"));
}

#[test]
fn with_hook_requires_raw_fd() {
    let err = connect_hook_without_fd();
    let err_str = err.message();
    assert!(
        err_str.contains("socket has no raw fd"),
        "error should tell caller to use Socket::connect / Socket::from: {}",
        err_str
    );
    assert!(err_str.starts_with("ttrpc err: client connect hook configured but socket has no raw fd"));
}

#[test]
fn accept_hook_targets() {
    assert!(matches!(accept_hook_target(false, None), Ok(None)));
    assert!(matches!(accept_hook_target(false, Some(3)), Ok(None)));
    assert!(matches!(accept_hook_target(true, Some(3)), Ok(Some(3))));
    match accept_hook_target(true, None) {
        Err(HookError::Other(m)) => assert!(m.starts_with("accept hook requires a raw fd")),
        _ => panic!("expected the missing-fd error"),
    }
}

#[test]
fn connect_hook_targets_and_contexts() {
    assert!(matches!(connect_hook_target(Some(5)), Ok(5)));
    assert!(matches!(connect_hook_target(None), Err(Error::Others(ref m)) if m.contains("socket has no raw fd")));
    let mut data = ConnectionData::new();
    data.insert("cid".into(), Box::new(42u32));
    let ctx = connect_hook_context(false, 5, Ok(HookOutput { data, payload_transform: None })).ok().unwrap();
    assert_eq!(get_typed::<u32>(&ctx.data, "cid"), Some(&42));
    assert!(ctx.payload_transform.is_none());
    match connect_hook_context::<ConnectionData>(false, 5, Err(HookError::Timeout)) {
        Err(Error::Others(m)) => assert_eq!(m, "client connect hook failed (fd=5): handshake timeout"),
        _ => panic!("expected a hook failure"),
    }
}
