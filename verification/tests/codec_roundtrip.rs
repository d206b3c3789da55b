use edn8::channel::MockChannel;
use edn8::cmd::frame_command;
use edn8::codec::{decode_u16, decode_u32, encode_str, encode_u16, encode_u32, hex2dec,
    is_status_healthy};
use edn8::err::EdError;
use edn8::session::EDIO;

#[test]
fn frame_command_builds_envelope() {
    assert_eq!(frame_command(0x10), vec![0x2B, 0xD4, 0x10, 0xEF]);
}

#[test]
fn frame_command_complements_every_opcode() {
    for op in [0x00u8, 0x11, 0x7F, 0xC4, 0xF1, 0xFF] {
        let f = frame_command(op);
        assert_eq!(f.len(), 4);
        assert_eq!(f[0], 0x2B);
        assert_eq!(f[1], 0xD4);
        assert_eq!(f[2], op);
        assert_eq!(f[3], op ^ 0xFF);
    }
}

#[test]
fn status_word_decode() {
    assert!(is_status_healthy(0xA500));
    assert!(is_status_healthy(0xA501));
    assert!(!is_status_healthy(0x0000));
    assert!(!is_status_healthy(0x00A5));
    assert!(is_status_healthy(0xA5FF));
}

#[test]
fn little_endian_u16() {
    assert_eq!(encode_u16(0x1234), vec![0x34, 0x12]);
    assert_eq!(encode_u16(0), vec![0, 0]);
    assert_eq!(encode_u16(0xFFFF), vec![0xFF, 0xFF]);
    assert_eq!(decode_u16(0x34, 0x12), 0x1234);
}

#[test]
fn little_endian_u32() {
    assert_eq!(encode_u32(0x12345678), vec![0x78, 0x56, 0x34, 0x12]);
    assert_eq!(encode_u32(0x1810000), vec![0x00, 0x00, 0x81, 0x01]);
    assert_eq!(decode_u32(0x78, 0x56, 0x34, 0x12), 0x12345678);
    assert_eq!(decode_u32(0xFF, 0xFF, 0xFF, 0xFF), u32::MAX);
}

#[test]
fn bcd_byte_decode() {
    assert_eq!(hex2dec(0x59), 59);
    assert_eq!(hex2dec(0x00), 0);
    assert_eq!(hex2dec(0x25), 25);
    assert_eq!(hex2dec(0x10), 10);
}

#[test]
fn encode_str_prefixes_byte_length() {
    let e = encode_str("abc").unwrap();
    assert_eq!(e, vec![3, 0, b'a', b'b', b'c']);
    // multi-byte UTF-8: the prefix counts bytes, not characters
    let e = encode_str("é").unwrap();
    assert_eq!(e, vec![2, 0, 0xC3, 0xA9]);
}

#[test]
fn encode_str_empty_is_two_bytes() {
    assert_eq!(encode_str("").unwrap(), vec![0x00, 0x00]);
}

#[test]
fn encode_str_too_long() {
    let big = "x".repeat(65536);
    assert_eq!(encode_str(&big), Err(EdError::TooLong));
    let edge = "x".repeat(65535);
    assert_eq!(encode_str(&edge).unwrap().len(), 2 + 65535);
}

#[test]
fn string_round_trip() {
    let texts = ["", "hello", "pong.nes", "naïve ünïcode ✓ 名前", "01/Games & Demos"];
    for t in texts {
        let enc = encode_str(t).unwrap();
        let mut ed = EDIO::new(MockChannel::new(enc, vec![]));
        let s = ed.rx_string().unwrap();
        assert_eq!(s, t);
        assert_eq!(ed.channel().remaining(), 0);
    }
}

#[test]
fn string_round_trip_max_length() {
    let t = "y".repeat(65535);
    let enc = encode_str(&t).unwrap();
    let mut ed = EDIO::new(MockChannel::new(enc, vec![]));
    assert_eq!(ed.rx_string().unwrap(), t);
}

#[test]
fn empty_string_consumes_nothing_further() {
    // length zero, followed by unrelated bytes that must stay unread
    let mut ed = EDIO::new(MockChannel::new(vec![0x00, 0x00, 0x99, 0x98], vec![]));
    assert_eq!(ed.rx_string().unwrap(), "");
    assert_eq!(ed.channel().remaining(), 2);
}

#[test]
fn rx_string_rejects_malformed_utf8() {
    // two bytes announced, 0xFF 0xFE is not valid UTF-8
    let mut ed = EDIO::new(MockChannel::new(vec![0x02, 0x00, 0xFF, 0xFE], vec![]));
    assert_eq!(ed.rx_string(), Err(EdError::BadText));
}

#[test]
fn rx_string_times_out_on_short_stream() {
    // three bytes announced, only one present
    let mut ed = EDIO::new(MockChannel::new(vec![0x03, 0x00, b'a'], vec![]));
    assert_eq!(ed.rx_string(), Err(EdError::Transport));
}

#[test]
fn tx_str_writes_prefixed_text() {
    let mut ed = EDIO::new(MockChannel::new(vec![], vec![]));
    ed.tx_str("ab").unwrap();
    assert_eq!(ed.channel().written_bytes(), &vec![2, 0, b'a', b'b']);
    let big = "z".repeat(70000);
    assert_eq!(ed.tx_str(&big), Err(EdError::TooLong));
}
