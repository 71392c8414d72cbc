use ttrpc::proto::MessageHeader;
use ttrpc::security_extension::{serialize_aad, PayloadTransform};

const XOR_KEY: u16 = 0xA5A5;
const XOR_ALGO_ID: u16 = 0x0001;
/// algo_id(2) + aad_tag(2) + payload_len(4)
const XOR_HEADER_LEN: usize = 8;

/// An XOR transform keyed by the frame's authenticated header bytes, so that a
/// changed stream id, type or flags is detected on the way in.
struct AadXorTransform;

fn aad_to_u16(aad: &[u8]) -> u16 {
    let mut k: u16 = 0;
    for (i, &b) in aad.iter().enumerate() {
        if i % 2 == 0 {
            k ^= (b as u16) << 8;
        } else {
            k ^= b as u16;
        }
    }
    k
}

fn effective_key(aad: &[u8]) -> u16 {
    XOR_KEY ^ aad_to_u16(aad)
}

impl PayloadTransform for AadXorTransform {
    fn transform_outbound(&self, data: Vec<u8>, aad: &[u8]) -> Result<Vec<u8>, String> {
        let key = effective_key(aad);
        let payload_len = data.len();
        let mut padded = data;
        if padded.len() % 2 != 0 {
            padded.push(0x00);
        }
        let mut encrypted = Vec::with_capacity(XOR_HEADER_LEN + padded.len());
        encrypted.extend_from_slice(&XOR_ALGO_ID.to_be_bytes());
        encrypted.extend_from_slice(&aad_to_u16(aad).to_be_bytes());
        encrypted.extend_from_slice(&(payload_len as u32).to_be_bytes());
        for chunk in padded.chunks(2) {
            let val = u16::from_be_bytes([chunk[0], chunk[1]]);
            encrypted.extend_from_slice(&(val ^ key).to_be_bytes());
        }
        Ok(encrypted)
    }

    fn transform_inbound(&self, data: Vec<u8>, aad: &[u8]) -> Result<Vec<u8>, String> {
        if data.len() < XOR_HEADER_LEN {
            return Err(format!("xor: packet too short ({} < {})", data.len(), XOR_HEADER_LEN));
        }
        let algo_id = u16::from_be_bytes([data[0], data[1]]);
        if algo_id != XOR_ALGO_ID {
            return Err(format!("xor: unknown algo 0x{:04X}", algo_id));
        }
        let stored_tag = u16::from_be_bytes([data[2], data[3]]);
        let expected_tag = aad_to_u16(aad);
        if stored_tag != expected_tag {
            return Err(format!(
                "xor: AAD mismatch (stored=0x{:04X}, expected=0x{:04X}) — header tampered",
                stored_tag, expected_tag
            ));
        }
        let payload_len = u32::from_be_bytes([data[4], data[5], data[6], data[7]]) as usize;
        let encrypted = &data[XOR_HEADER_LEN..];
        if encrypted.len() % 2 != 0 {
            return Err("xor: encrypted data has odd length".into());
        }
        let key = effective_key(aad);
        let mut decrypted = Vec::with_capacity(encrypted.len());
        for chunk in encrypted.chunks(2) {
            let val = u16::from_be_bytes([chunk[0], chunk[1]]);
            decrypted.extend_from_slice(&(val ^ key).to_be_bytes());
        }
        decrypted.truncate(payload_len);
        Ok(decrypted)
    }
}

/// The authenticated bytes of a frame with this stream id, type and flags.
fn make_aad(stream_id: u32, type_: u8, flags: u8) -> [u8; 6] {
    serialize_aad(&MessageHeader { length: 0, stream_id, type_, flags })
}

#[test]
fn aad_layout_is_stream_id_type_flags() {
    assert_eq!(make_aad(0x01020304, 0x03, 0x05), [1, 2, 3, 4, 3, 5]);
}

#[test]
fn roundtrip_with_matching_aad() {
    let xform = AadXorTransform;
    let aad = make_aad(1, 0x01, 0x00);
    let plaintext = b"hello world".to_vec();

    let encrypted = xform.transform_outbound(plaintext.clone(), &aad).unwrap();
    let decrypted = xform.transform_inbound(encrypted, &aad).unwrap();
    assert_eq!(decrypted, plaintext);
}

#[test]
fn detect_stream_id_tampering() {
    let xform = AadXorTransform;
    let aad_orig = make_aad(1, 0x01, 0x00);
    let encrypted = xform.transform_outbound(b"secret data".to_vec(), &aad_orig).unwrap();

    let aad_tampered = make_aad(99, 0x01, 0x00);
    let err = xform.transform_inbound(encrypted, &aad_tampered).unwrap_err();
    assert!(err.contains("AAD mismatch"), "expected AAD error, got: {}", err);
}

#[test]
fn detect_message_type_tampering() {
    let xform = AadXorTransform;
    let aad_orig = make_aad(3, 0x01, 0x00);
    let encrypted = xform.transform_outbound(b"request payload".to_vec(), &aad_orig).unwrap();

    let aad_tampered = make_aad(3, 0x02, 0x00);
    let err = xform.transform_inbound(encrypted, &aad_tampered).unwrap_err();
    assert!(err.contains("AAD mismatch"), "expected AAD error, got: {}", err);
}

#[test]
fn detect_flags_tampering() {
    let xform = AadXorTransform;
    let aad_orig = make_aad(5, 0x03, 0x00);
    let encrypted = xform.transform_outbound(b"streaming chunk".to_vec(), &aad_orig).unwrap();

    let aad_tampered = make_aad(5, 0x03, 0xFF);
    let err = xform.transform_inbound(encrypted, &aad_tampered).unwrap_err();
    assert!(err.contains("AAD mismatch"), "expected AAD error, got: {}", err);
}

#[test]
fn detect_close_frame_aad() {
    let xform = AadXorTransform;
    let aad_close = make_aad(7, 0x03, 0x05);
    let empty_payload: Vec<u8> = vec![];

    let encrypted = xform.transform_outbound(empty_payload.clone(), &aad_close).unwrap();

    let decrypted = xform.transform_inbound(encrypted.clone(), &aad_close).unwrap();
    assert_eq!(decrypted, empty_payload);

    let aad_wrong = make_aad(99, 0x03, 0x05);
    let err = xform.transform_inbound(encrypted, &aad_wrong).unwrap_err();
    assert!(err.contains("AAD mismatch"), "expected AAD error, got: {}", err);
}
