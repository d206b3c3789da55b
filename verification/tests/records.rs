use edn8::channel::MockChannel;
use edn8::cmd::frame_command;
use edn8::codec::{encode_u16, encode_u32};
use edn8::datetime::{decode_datetime, DateTime};
use edn8::err::EdError;
use edn8::session::{EDIO, FileInfo};

fn connected_session(incoming: Vec<u8>) -> EDIO<MockChannel> {
    let mut script = vec![0x00, 0xA5];
    script.extend_from_slice(&incoming);
    let mut ed = EDIO::new(MockChannel::new(script, vec![]));
    ed.connect().unwrap();
    ed
}

// day=15, month=6, year offset 20 -> 2000-06-15
const PACKED_DATE: u16 = 15 | (6 << 5) | (20 << 9);
// half-seconds=10, minute=45, hour=13 -> 13:45:20
const PACKED_TIME: u16 = 10 | (45 << 5) | (13 << 11);

#[test]
fn datetime_decode_known_pair() {
    let dt = decode_datetime(PACKED_DATE, PACKED_TIME).unwrap();
    assert_eq!(
        dt,
        DateTime { year: 2000, month: 6, day: 15, hour: 13, minute: 45, second: 20 }
    );
}

#[test]
fn datetime_rejects_month_zero() {
    let date = 15 | (0 << 5) | (20 << 9);
    assert_eq!(decode_datetime(date, PACKED_TIME), Err(EdError::BadDate));
}

#[test]
fn datetime_rejects_day_zero() {
    let date = 0 | (6 << 5) | (20 << 9);
    assert_eq!(decode_datetime(date, PACKED_TIME), Err(EdError::BadDate));
}

#[test]
fn datetime_leap_year_rules() {
    // 2000-02-29 is valid (divisible by 400)
    let date = 29 | (2 << 5) | (20 << 9);
    assert!(decode_datetime(date, 0).is_ok());
    // 2001-02-29 is not
    let date = 29 | (2 << 5) | (21 << 9);
    assert_eq!(decode_datetime(date, 0), Err(EdError::BadDate));
    // 2100-02-29 is not (divisible by 100, not by 400)
    let date = 29 | (2 << 5) | (120 << 9);
    assert_eq!(decode_datetime(date, 0), Err(EdError::BadDate));
    // April has 30 days
    let date = 31 | (4 << 5) | (20 << 9);
    assert_eq!(decode_datetime(date, 0), Err(EdError::BadDate));
}

#[test]
fn datetime_rejects_bad_time_of_day() {
    let date = PACKED_DATE;
    // hour 24
    assert_eq!(decode_datetime(date, 24 << 11), Err(EdError::BadDate));
    // minute 60
    assert_eq!(decode_datetime(date, 60 << 5), Err(EdError::BadDate));
    // second 60 (stored as 30 half-seconds)
    assert_eq!(decode_datetime(date, 30), Err(EdError::BadDate));
}

#[test]
fn attribute_bit_classifies_directories() {
    let dir = FileInfo {
        size: 0,
        date: DateTime { year: 2000, month: 1, day: 1, hour: 0, minute: 0, second: 0 },
        attrib: 0x10,
        name: String::from("GAMES"),
    };
    assert!(dir.is_dir());
    let archive = FileInfo { attrib: 0x20, ..dir };
    assert!(!archive.is_dir());
}

fn record_bytes(size: u32, date: u16, time: u16, attrib: u8, name: &str) -> Vec<u8> {
    let mut v = encode_u32(size);
    v.extend_from_slice(&encode_u16(date));
    v.extend_from_slice(&encode_u16(time));
    v.push(attrib);
    v.extend_from_slice(&encode_u16(name.len() as u16));
    v.extend_from_slice(name.as_bytes());
    v
}

#[test]
fn dir_read_decodes_record() {
    let mut script = vec![0x00];
    script.extend_from_slice(&record_bytes(0x12345678, PACKED_DATE, PACKED_TIME, 0x10, "GAMES"));
    let mut ed = connected_session(script);
    let fi = ed.dir_read().unwrap();
    assert_eq!(fi.size, 0x12345678);
    assert_eq!(
        fi.date,
        DateTime { year: 2000, month: 6, day: 15, hour: 13, minute: 45, second: 20 }
    );
    assert_eq!(fi.attrib, 0x10);
    assert!(fi.is_dir());
    assert_eq!(fi.name, "GAMES");
    assert_eq!(ed.channel().remaining(), 0);
    // the command and the 0xFF entry selector were framed
    let mut sent = frame_command(0x10);
    sent.extend_from_slice(&frame_command(0xC4));
    sent.extend_from_slice(&encode_u16(0xFF));
    assert_eq!(ed.channel().written_bytes(), &sent);
}

#[test]
fn dir_read_reports_device_error() {
    let mut ed = connected_session(vec![0x33]);
    assert_eq!(ed.dir_read(), Err(EdError::DeviceError(0x33)));
}

#[test]
fn dir_read_rejects_invalid_date() {
    let mut script = vec![0x00];
    script.extend_from_slice(&record_bytes(10, 0, 0, 0, "X"));
    let mut ed = connected_session(script);
    assert_eq!(ed.dir_read(), Err(EdError::BadDate));
}

#[test]
fn dir_read_rejects_malformed_name() {
    let mut script = vec![0x00];
    let mut rec = encode_u32(10);
    rec.extend_from_slice(&encode_u16(PACKED_DATE));
    rec.extend_from_slice(&encode_u16(PACKED_TIME));
    rec.push(0);
    rec.extend_from_slice(&encode_u16(2));
    rec.extend_from_slice(&[0xFF, 0xFE]);
    script.extend_from_slice(&rec);
    let mut ed = connected_session(script);
    assert_eq!(ed.dir_read(), Err(EdError::BadText));
}

#[test]
fn file_info_decodes_record() {
    let mut script = vec![0x00];
    script.extend_from_slice(&record_bytes(4096, PACKED_DATE, PACKED_TIME, 0x20, "pong.nes"));
    let mut ed = connected_session(script);
    let fi = ed.file_info("pong.nes").unwrap();
    assert_eq!(fi.size, 4096);
    assert_eq!(fi.attrib, 0x20);
    assert!(!fi.is_dir());
    assert_eq!(fi.name, "pong.nes");
}

#[test]
fn file_info_reports_access_error() {
    let mut ed = connected_session(vec![0x04]);
    assert_eq!(ed.file_info("gone.nes"), Err(EdError::DeviceError(0x04)));
}

#[test]
fn dir_get_size_reads_count() {
    let mut ed = connected_session(vec![0x2A, 0x00]);
    assert_eq!(ed.dir_get_size().unwrap(), 42);
}

#[test]
fn dir_open_frames_path_and_checks_status() {
    let mut ed = connected_session(vec![0x00, 0xA5]);
    ed.dir_open("abc").unwrap();
    let mut sent = frame_command(0x10);
    sent.extend_from_slice(&frame_command(0xC3));
    sent.extend_from_slice(&[3, 0, b'a', b'b', b'c']);
    sent.extend_from_slice(&frame_command(0x10));
    assert_eq!(ed.channel().written_bytes(), &sent);
}

#[test]
fn dir_load_frames_sort_flag_and_path() {
    let mut ed = connected_session(vec![0x00, 0xA5]);
    ed.dir_load("", 1).unwrap();
    let mut sent = frame_command(0x10);
    sent.extend_from_slice(&frame_command(0xC5));
    sent.push(1);
    sent.extend_from_slice(&[0, 0]);
    sent.extend_from_slice(&frame_command(0x10));
    assert_eq!(ed.channel().written_bytes(), &sent);
}

#[test]
fn dir_open_fails_on_unhealthy_status() {
    let mut ed = connected_session(vec![0x00, 0x00]);
    assert_eq!(ed.dir_open("abc"), Err(EdError::BadStatus(0x0000)));
}

#[test]
fn file_open_frames_mode_and_path() {
    let mut ed = connected_session(vec![0x00, 0xA5]);
    ed.file_open("f.nes", 0x08 | 0x02).unwrap();
    let mut sent = frame_command(0x10);
    sent.extend_from_slice(&frame_command(0xC9));
    sent.push(0x0A);
    sent.extend_from_slice(&[5, 0, b'f', b'.', b'n', b'e', b's']);
    sent.extend_from_slice(&frame_command(0x10));
    assert_eq!(ed.channel().written_bytes(), &sent);
}

#[test]
fn file_close_checks_status() {
    let mut ed = connected_session(vec![0x00, 0xA5]);
    ed.file_close().unwrap();
    let mut sent = frame_command(0x10);
    sent.extend_from_slice(&frame_command(0xCE));
    sent.extend_from_slice(&frame_command(0x10));
    assert_eq!(ed.channel().written_bytes(), &sent);
}

#[test]
fn rtc_get_decodes_bcd_fields() {
    let mut ed = connected_session(vec![0x25, 0x12, 0x31, 0x23, 0x59, 0x08]);
    let t = ed.rtc_get().unwrap();
    assert_eq!(t.year, 2025);
    assert_eq!(t.month, 12);
    assert_eq!(t.day, 31);
    assert_eq!(t.hour, 23);
    assert_eq!(t.minute, 59);
    assert_eq!(t.second, 8);
}

#[test]
fn sel_game_pushes_fifo_messages_and_reads_mapper() {
    let mut ed = connected_session(vec![0x00, 0x34, 0x12]);
    let mapper = ed.sel_game("pong.nes").unwrap();
    assert_eq!(mapper, 0x1234);
    let fifo_msg = |payload: &[u8]| {
        let mut m = frame_command(0x1A);
        m.extend_from_slice(&encode_u32(0x1810000));
        m.extend_from_slice(&encode_u32(payload.len() as u32));
        m.push(0);
        m.extend_from_slice(payload);
        m
    };
    let mut sent = frame_command(0x10);
    sent.extend_from_slice(&fifo_msg(&[b'*', b'n']));
    sent.extend_from_slice(&fifo_msg(&encode_u16(8)));
    sent.extend_from_slice(&fifo_msg(b"pong.nes"));
    assert_eq!(ed.channel().written_bytes(), &sent);
}

#[test]
fn sel_game_reports_device_error() {
    let mut ed = connected_session(vec![0x09]);
    assert_eq!(ed.sel_game("pong.nes"), Err(EdError::DeviceError(0x09)));
}

#[test]
fn run_game_pushes_start_command() {
    let mut ed = connected_session(vec![]);
    ed.run_game().unwrap();
    let mut sent = frame_command(0x10);
    sent.extend_from_slice(&frame_command(0x1A));
    sent.extend_from_slice(&encode_u32(0x1810000));
    sent.extend_from_slice(&encode_u32(2));
    sent.push(0);
    sent.extend_from_slice(&[b'*', b's']);
    assert_eq!(ed.channel().written_bytes(), &sent);
}
