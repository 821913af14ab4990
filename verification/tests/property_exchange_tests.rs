//! Property exchange messages.

use pedalboard::bounded::BoundedVec;
use pedalboard::property_exchange::{build_set_inquiry, build_set_reply, extract_body, is_ci_message, is_set_property, request_id, source_muid, CI_VERSION, PE_SET_INQUIRY, PE_SET_REPLY, SUB_ID1_MIDI_CI, UNIVERSAL_SYSEX};


#[test]
fn roundtrip_set_property() {
    let payload = b"hello";
    let msg = build_set_inquiry([0x10, 0x20, 0x30, 0x40], [0x01, 0x02, 0x03, 0x04], 0x07, payload);

    assert!(is_ci_message(&msg));
    assert!(is_set_property(&msg));
    assert_eq!(request_id(&msg), 0x07);
    assert_eq!(source_muid(&msg), [0x10, 0x20, 0x30, 0x40]);
    assert_eq!(extract_body(&msg).unwrap(), b"hello");
}

#[test]
fn not_ci_for_opendeck() {
    let buf = [0xF0, 0x00, 0x53, 0x43, 0x00, 0x00, 0x01, 0xF7];
    assert!(!is_ci_message(&buf));
}

#[test]
fn reply_structure() {
    let reply = build_set_reply([0x01, 0x02, 0x03, 0x04], [0x10, 0x20, 0x30, 0x40], 0x07);
    assert_eq!(reply[0], 0xF0);
    assert_eq!(reply[4], PE_SET_REPLY);
    assert_eq!(reply[14], 0x07);
    assert_eq!(*reply.last().unwrap(), 0xF7);
}

#[test]
fn extract_body_with_header() {
    let mut msg: BoundedVec<u8, 128> = BoundedVec::new();
    let _ = msg.push(0xF0);
    let _ = msg.push(UNIVERSAL_SYSEX);
    let _ = msg.push(0x7F);
    let _ = msg.push(SUB_ID1_MIDI_CI);
    let _ = msg.push(PE_SET_INQUIRY);
    let _ = msg.push(CI_VERSION);
    for &b in &[0x10, 0x20, 0x30, 0x40, 0x01, 0x02, 0x03, 0x04] {
        let _ = msg.push(b);
    }
    let _ = msg.push(0x01); // request_id
    // header_len = 3
    let _ = msg.push(0x03);
    let _ = msg.push(0x00);
    for &b in b"abc" {
        let _ = msg.push(b);
    }
    // chunks
    let _ = msg.push(0x01);
    let _ = msg.push(0x00);
    let _ = msg.push(0x01);
    let _ = msg.push(0x00);
    // body_len = 4
    let _ = msg.push(0x04);
    let _ = msg.push(0x00);
    for &b in b"data" {
        let _ = msg.push(b);
    }
    let _ = msg.push(0xF7);

    assert_eq!(extract_body(&msg).unwrap(), b"data");
}
