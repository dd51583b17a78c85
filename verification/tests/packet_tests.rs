use mc_honeypot::packet::{read_packet, write_packet};
use mc_honeypot::strcodec::{prefix_str_len, read_string};
use mc_honeypot::CodecError;

#[test]
fn packet_round_trips() {
    let payload_lens: [usize; 3] = [0, 1, 300];
    for id in 0..3i32 {
        for len in payload_lens {
            let mut payload = Vec::new();
            for i in 0..len {
                payload.push((i % 256) as u8);
            }
            let wire = write_packet(id, &payload);
            let (got_id, got_payload, consumed) = read_packet(&wire, 0).unwrap();
            assert_eq!(got_id, id);
            assert_eq!(got_payload, payload);
            assert_eq!(consumed, wire.len());
        }
    }
}

#[test]
fn packet_wire_layout() {
    // total length 4 = 1 (id varint) + 3 (payload), then id, then payload.
    let wire = write_packet(2, &[0xaa, 0xbb, 0xcc]);
    assert_eq!(wire, vec![0x04, 0x02, 0xaa, 0xbb, 0xcc]);
}

#[test]
fn negative_payload_length_is_protocol_error() {
    // total 0, id consumes one byte: payload length would be -1.
    assert_eq!(read_packet(&[0x00, 0x00], 0), Err(CodecError::ProtocolError));
}

#[test]
fn short_payload_is_truncated() {
    // total 5, id 0 (one byte): four payload bytes owed, none present.
    assert_eq!(read_packet(&[0x05, 0x00], 0), Err(CodecError::Truncated));
}

#[test]
fn missing_length_is_truncated() {
    assert_eq!(read_packet(&[], 0), Err(CodecError::Truncated));
}

#[test]
fn string_round_trip() {
    let wire = prefix_str_len("localhost");
    assert_eq!(wire[0], 9);
    assert_eq!(&wire[1..], b"localhost");
    let (text, consumed) = read_string(&wire, 0).unwrap();
    assert_eq!(text, "localhost");
    assert_eq!(consumed, wire.len());
}

#[test]
fn string_empty() {
    let wire = prefix_str_len("");
    assert_eq!(wire, vec![0x00]);
    let (text, consumed) = read_string(&wire, 0).unwrap();
    assert_eq!(text, "");
    assert_eq!(consumed, 1);
}

#[test]
fn string_bytes_widen_to_code_points() {
    // 0xc3 0xa9 is the two-byte text encoding of one character, but each raw
    // byte widens to its own code point.
    let (text, consumed) = read_string(&[0x02, 0xc3, 0xa9], 0).unwrap();
    let chars: Vec<char> = text.chars().collect();
    assert_eq!(chars, vec![0xc3 as u8 as char, 0xa9 as u8 as char]);
    assert_eq!(consumed, 3);
}

#[test]
fn string_negative_length_reads_empty() {
    // varint -1: the length loop runs zero times.
    let (text, consumed) = read_string(&[0xff, 0xff, 0xff, 0xff, 0x0f], 0).unwrap();
    assert_eq!(text, "");
    assert_eq!(consumed, 5);
}

#[test]
fn string_short_body_is_truncated() {
    assert_eq!(read_string(&[0x05, b'a', b'b'], 0), Err(CodecError::Truncated));
}
