//! Minimal MIDI-CI Property Exchange (PE) framing.
//!
//! Handles Set Property Inquiry (sub-ID2 = 0x36) and replies with ACK (0x37).
//! The messages are those of MIDI-CI 1.2.
//!
//! SysEx7 message layout:
//!   F0 7E <device_id> 0D <sub_id2> <ci_version>
//!   <source_muid: 4 bytes> <dest_muid: 4 bytes>
//!   <request_id>
//!   <header_len_lo> <header_len_hi>
//!   <header_data...>
//!   <num_chunks_lo> <num_chunks_hi>
//!   <chunk_num_lo> <chunk_num_hi>
//!   <body_len_lo> <body_len_hi>
//!   <body_data...>
//!   F7

use vstd::prelude::*;

use crate::bounded::{clip, lemma_clip_append, BoundedVec};

verus! {

pub const UNIVERSAL_SYSEX: u8 = 0x7E;

pub const SUB_ID1_MIDI_CI: u8 = 0x0D;

/// Sub-ID2: Inquiry Set Property Data (MIDI-CI 1.2)
pub const PE_SET_INQUIRY: u8 = 0x36;

/// Sub-ID2: Reply to Set Property Data
pub const PE_SET_REPLY: u8 = 0x37;

pub const CI_VERSION: u8 = 0x02;

/// A MIDI-CI message: long enough for a request id, and marked as such.
pub open spec fn ci_message(buf: Seq<u8>) -> bool {
    buf.len() >= 15 && buf[0] == 0xF0 && buf[1] == 0x7E && buf[3] == 0x0D
}

/// A Set Property Inquiry.
pub open spec fn set_property(buf: Seq<u8>) -> bool {
    ci_message(buf) && buf[4] == PE_SET_INQUIRY
}

/// A length out of its low and its high byte, 7 bits each.
pub open spec fn length14(lo: u8, hi: u8) -> usize {
    (lo as usize) | ((hi as usize) << 7)
}

/// On bytes of 7 bits a length is what the two say together.
pub proof fn law_length14(lo: u8, hi: u8)
    ensures
        length14(lo, hi) <= 32767,
        lo < 128 ==> length14(lo, hi) == lo + 128 * hi,
{
    let l = lo as usize;
    let h = hi as usize;
    assert((l | (h << 7)) <= 32767 && (l < 128 ==> (l | (h << 7)) == l + 128 * h)) by (bit_vector)
        requires
            l <= 255,
            h <= 255,
    ;
}

/// Where the two bytes of the body length stand.
pub open spec fn body_len_at(buf: Seq<u8>) -> int {
    15 + 2 + length14(buf[15], buf[16]) + 4
}

/// The body of a Set Property Inquiry: what the lengths in the message delimit.
/// There is none where the message is of another kind or ends before its body does.
pub open spec fn body(buf: Seq<u8>) -> Option<Seq<u8>> {
    if !set_property(buf) || buf.len() < 17 || body_len_at(buf) + 2 > buf.len() {
        None
    } else {
        let at = body_len_at(buf);
        let len = length14(buf[at], buf[at + 1]);
        if at + 2 + len > buf.len() {
            None
        } else {
            Some(buf.subrange(at + 2, at + 2 + len))
        }
    }
}

/// Check if a SysEx buffer is a MIDI-CI message.
pub fn is_ci_message(buf: &[u8]) -> (r: bool)
    ensures
        r == ci_message(buf@),
{
    buf.len() >= 15 && buf[0] == 0xF0 && buf[1] == UNIVERSAL_SYSEX && buf[3] == SUB_ID1_MIDI_CI
}

/// Check if the message is a Set Property Inquiry.
pub fn is_set_property(buf: &[u8]) -> (r: bool)
    ensures
        r == set_property(buf@),
{
    is_ci_message(buf) && buf[4] == PE_SET_INQUIRY
}

/// The request that a message belongs to.
pub open spec fn request_of(buf: Seq<u8>) -> u8 {
    buf[14]
}

/// The MUID of the sender of a message.
pub open spec fn sender_of(buf: Seq<u8>) -> Seq<u8> {
    buf.subrange(6, 10)
}

/// Extract the request_id field.
pub fn request_id(buf: &[u8]) -> (r: u8)
    requires
        buf@.len() > 14,
    ensures
        r == request_of(buf@),
{
    buf[14]
}

/// Extract the source MUID (4 bytes).
pub fn source_muid(buf: &[u8]) -> (r: [u8; 4])
    requires
        buf@.len() > 9,
    ensures
        r@ == sender_of(buf@),
{
    let muid: [u8; 4] = [buf[6], buf[7], buf[8], buf[9]];
    assert(muid@ =~= buf@.subrange(6, 10));
    muid
}

/// Extract the body payload from a Set Property Inquiry.
pub fn extract_body(buf: &[u8]) -> (r: Option<&[u8]>)
    ensures
        match (r, body(buf@)) {
            (Some(found), Some(expected)) => found@ == expected,
            (None, None) => true,
            _ => false,
        },
{
    if !is_set_property(buf) {
        return None;
    }
    if buf.len() < 16 {
        return None;
    }
    let mut pos: usize = 15;

    // header_len (2 bytes, 7-bit LSB encoding)
    if buf.len() - pos < 2 {
        return None;
    }
    let header_len: usize = (buf[pos] as usize) | ((buf[pos + 1] as usize) << 7);
    proof {
        law_length14(buf@[15], buf@[16]);
    }
    pos = pos + 2 + header_len;

    // num_chunks + chunk_num (4 bytes)
    if pos + 4 > buf.len() {
        return None;
    }
    pos = pos + 4;

    // body_len (2 bytes, 7-bit LSB encoding)
    if buf.len() - pos < 2 {
        return None;
    }
    let body_len: usize = (buf[pos] as usize) | ((buf[pos + 1] as usize) << 7);
    pos = pos + 2;

    if buf.len() - pos < body_len {
        return None;
    }
    Some(vstd::slice::slice_subrange(buf, pos, pos + body_len))
}

/// The bytes of every message up to its header length: what it is, who sends it,
/// who it is for, and which request it belongs to.
pub open spec fn preamble(
    sub_id2: u8,
    source: Seq<u8>,
    dest: Seq<u8>,
    req_id: u8,
) -> Seq<u8> {
    seq![0xF0u8, 0x7E, 0x7F, 0x0D, sub_id2, 0x02] + source + dest + seq![req_id]
}

/// A Set Property Reply: no header, one chunk, no body.
pub open spec fn set_reply(device: Seq<u8>, dest: Seq<u8>, req_id: u8) -> Seq<u8> {
    preamble(PE_SET_REPLY, device, dest, req_id) + seq![0u8, 0, 1, 0, 1, 0, 0, 0, 0xF7]
}

/// A Set Property Inquiry: no header, one chunk, the body with its length.
pub open spec fn set_inquiry(
    source: Seq<u8>,
    dest: Seq<u8>,
    req_id: u8,
    body: Seq<u8>,
) -> Seq<u8> {
    preamble(PE_SET_INQUIRY, source, dest, req_id) + seq![
        0u8,
        0,
        1,
        0,
        1,
        0,
        (body.len() % 128) as u8,
        (body.len() / 128 % 128) as u8,
    ] + body + seq![0xF7u8]
}

/// Build a Set Property Reply (ACK).
pub fn build_set_reply(device_muid: [u8; 4], dest_muid: [u8; 4], req_id: u8) -> (r: BoundedVec<
    u8,
    32,
>)
    ensures
        r@ == set_reply(device_muid@, dest_muid@, req_id),
{
    let mut msg: BoundedVec<u8, 32> = BoundedVec::new();
    // device_id 0x7F: function block
    msg.push_all(&[0xF0, UNIVERSAL_SYSEX, 0x7F, SUB_ID1_MIDI_CI, PE_SET_REPLY, CI_VERSION]);
    msg.push_all(device_muid.as_slice());
    msg.push_all(dest_muid.as_slice());
    let _ = msg.push(req_id);
    // header_len = 0, num_chunks = 1, chunk_num = 1, body_len = 0
    msg.push_all(&[0x00, 0x00, 0x01, 0x00, 0x01, 0x00, 0x00, 0x00, 0xF7]);
    assert(msg@ =~= set_reply(device_muid@, dest_muid@, req_id));
    msg
}

/// Build a Set Property Inquiry message (CLI to device).
/// `body` must contain only 7-bit safe bytes. What does not fit in 256 bytes is
/// left out.
pub fn build_set_inquiry(
    source_muid: [u8; 4],
    dest_muid: [u8; 4],
    req_id: u8,
    body: &[u8],
) -> (r: BoundedVec<u8, 256>)
    ensures
        r@ == clip(set_inquiry(source_muid@, dest_muid@, req_id, body@), 256),
{
    let mut msg: BoundedVec<u8, 256> = BoundedVec::new();
    msg.push_all(&[0xF0, UNIVERSAL_SYSEX, 0x7F, SUB_ID1_MIDI_CI, PE_SET_INQUIRY, CI_VERSION]);
    msg.push_all(source_muid.as_slice());
    msg.push_all(dest_muid.as_slice());
    let _ = msg.push(req_id);
    // header_len = 0, num_chunks = 1, chunk_num = 1
    msg.push_all(&[0x00, 0x00, 0x01, 0x00, 0x01, 0x00]);
    let len: usize = body.len();
    assert(len & 0x7F == len % 128 && (len >> 7) & 0x7F == len / 128 % 128) by (bit_vector);
    let _ = msg.push((len & 0x7F) as u8);
    let _ = msg.push(((len >> 7) & 0x7F) as u8);
    let ghost head = msg@;
    msg.push_all(body);
    proof {
        lemma_clip_append(head + body@, seq![0xF7u8], 256);
        assert(clip(head + body@, 256).push(0xF7u8) =~= clip(head + body@, 256) + seq![0xF7u8]);
        assert(head + body@ + seq![0xF7u8] =~= set_inquiry(
            source_muid@,
            dest_muid@,
            req_id,
            body@,
        ));
    }
    let _ = msg.push(0xF7);
    msg
}

/// A Set Property Inquiry is read back as it was built: it is one, and it has the
/// request id, the sender and the body that went into it. This holds of every body
/// that a message of 256 bytes can carry whole.
pub proof fn law_inquiry_roundtrip(
    source: Seq<u8>,
    dest: Seq<u8>,
    req_id: u8,
    payload: Seq<u8>,
)
    requires
        source.len() == 4,
        dest.len() == 4,
        payload.len() <= 233,
    ensures
        ({
            let msg = clip(set_inquiry(source, dest, req_id, payload), 256);
            &&& set_property(msg)
            &&& request_of(msg) == req_id
            &&& sender_of(msg) == source
            &&& body(msg) == Some(payload)
        }),
{
    let msg = clip(set_inquiry(source, dest, req_id, payload), 256);
    assert(msg.subrange(6, 10) =~= source);
    law_length14(0, 0);
    law_length14((payload.len() % 128) as u8, (payload.len() / 128 % 128) as u8);
    assert(msg[15] == 0 && msg[16] == 0);
    assert(body_len_at(msg) == 21);
    assert(msg[21] == (payload.len() % 128) as u8 && msg[22] == (payload.len() / 128 % 128) as u8);
    assert(msg.subrange(23, 23 + payload.len() as int) =~= payload);
}

/// A reply is a MIDI-CI message for the request it answers, from the device to
/// whoever asked, and is not itself taken for an inquiry: it has no body to extract.
pub proof fn law_reply_answers(device: Seq<u8>, dest: Seq<u8>, req_id: u8)
    requires
        device.len() == 4,
        dest.len() == 4,
    ensures
        ({
            let msg = set_reply(device, dest, req_id);
            &&& ci_message(msg)
            &&& msg[4] == PE_SET_REPLY
            &&& request_of(msg) == req_id
            &&& sender_of(msg) == device
            &&& msg.subrange(10, 14) == dest
            &&& msg.last() == 0xF7
            &&& body(msg) is None
        }),
{
    let msg = set_reply(device, dest, req_id);
    assert(msg.subrange(6, 10) =~= device);
    assert(msg.subrange(10, 14) =~= dest);
}

} // verus!
