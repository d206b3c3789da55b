use edn8::channel::MockChannel;
use edn8::cmd::frame_command;
use edn8::codec::encode_u32;
use edn8::err::EdError;
use edn8::session::EDIO;

fn connected(incoming: Vec<u8>) -> EDIO<MockChannel> {
    // prepend a healthy status word for the handshake
    let mut script = vec![0x00, 0xA5];
    script.extend_from_slice(&incoming);
    let mut ed = EDIO::new(MockChannel::new(script, vec![]));
    ed.connect().unwrap();
    ed
}

#[test]
fn bulk_send_chunks_and_gates() {
    // 2500 bytes -> ceil(2500/1024) = 3 blocks, so 3 zero gates
    let payload: Vec<u8> = (0..2500u32).map(|i| (i % 251) as u8).collect();
    let mut ed = EDIO::new(MockChannel::new(vec![0, 0, 0], vec![]));
    ed.tx_data_ack(&payload).unwrap();
    assert_eq!(ed.channel().written_bytes(), &payload);
    assert_eq!(ed.channel().remaining(), 0);
}

#[test]
fn bulk_send_exact_multiple() {
    // exactly two full blocks -> two gates
    let payload = vec![7u8; 2048];
    let mut ed = EDIO::new(MockChannel::new(vec![0, 0], vec![]));
    ed.tx_data_ack(&payload).unwrap();
    assert_eq!(ed.channel().written_bytes(), &payload);
    assert_eq!(ed.channel().remaining(), 0);
}

#[test]
fn bulk_send_empty_payload() {
    let mut ed = EDIO::new(MockChannel::new(vec![], vec![]));
    ed.tx_data_ack(&[]).unwrap();
    assert_eq!(ed.channel().written_bytes(), &Vec::<u8>::new());
}

#[test]
fn bulk_send_aborts_on_nonzero_gate() {
    // gate for block 2 is nonzero: exactly one block (1024 bytes) was sent
    let payload = vec![9u8; 2500];
    let mut ed = EDIO::new(MockChannel::new(vec![0, 5], vec![]));
    assert_eq!(ed.tx_data_ack(&payload), Err(EdError::DeviceError(5)));
    assert_eq!(ed.channel().written_bytes().len(), 1024);
    assert_eq!(ed.channel().written_bytes(), &payload[..1024].to_vec());
}

#[test]
fn bulk_send_aborts_before_first_block() {
    let payload = vec![9u8; 100];
    let mut ed = EDIO::new(MockChannel::new(vec![0xEE], vec![]));
    assert_eq!(ed.tx_data_ack(&payload), Err(EdError::DeviceError(0xEE)));
    assert_eq!(ed.channel().written_bytes().len(), 0);
}

#[test]
fn bulk_send_transport_failure_when_gate_missing() {
    let payload = vec![1u8; 2048];
    // only one gate scripted, the second read times out
    let mut ed = EDIO::new(MockChannel::new(vec![0], vec![]));
    assert_eq!(ed.tx_data_ack(&payload), Err(EdError::Transport));
}

#[test]
fn bulk_receive_assembles_blocks() {
    // 5000 bytes -> blocks of 4096 and 904, each preceded by a zero gate
    let mut expect: Vec<u8> = Vec::new();
    let mut script: Vec<u8> = Vec::new();
    script.push(0);
    for i in 0..4096u32 {
        let b = (i % 241) as u8;
        script.push(b);
        expect.push(b);
    }
    script.push(0);
    for i in 0..904u32 {
        let b = (i % 13) as u8;
        script.push(b);
        expect.push(b);
    }
    let mut ed = connected(script);
    let data = ed.file_read(5000).unwrap();
    assert_eq!(data.len(), 5000);
    assert_eq!(data, expect);
    assert_eq!(ed.channel().remaining(), 0);
    // the read command and the requested length were framed first
    let mut sent = frame_command(0x10);
    sent.extend_from_slice(&frame_command(0xCA));
    sent.extend_from_slice(&encode_u32(5000));
    assert_eq!(ed.channel().written_bytes(), &sent);
}

#[test]
fn bulk_receive_small_request() {
    let mut script = vec![0];
    script.extend_from_slice(&[10, 20, 30]);
    let mut ed = connected(script);
    assert_eq!(ed.file_read(3).unwrap(), vec![10, 20, 30]);
}

#[test]
fn bulk_receive_zero_length() {
    let mut ed = connected(vec![]);
    assert_eq!(ed.file_read(0).unwrap(), Vec::<u8>::new());
}

#[test]
fn bulk_receive_aborts_on_nonzero_status() {
    let mut ed = connected(vec![0x42]);
    assert_eq!(ed.file_read(100), Err(EdError::DeviceError(0x42)));
}

#[test]
fn bulk_receive_keeps_earlier_blocks_on_late_abort() {
    // first block fine, second status byte nonzero
    let mut script = vec![0];
    script.extend_from_slice(&vec![3u8; 4096]);
    script.push(9);
    let mut ed = connected(script);
    assert_eq!(ed.file_read(5000), Err(EdError::DeviceError(9)));
}

#[test]
fn file_write_frames_length_and_payload() {
    let payload = vec![4u8; 1500];
    // two gates, then a healthy closing status
    let mut ed = connected(vec![0, 0, 0x00, 0xA5]);
    ed.file_write(&payload).unwrap();
    let mut sent = frame_command(0x10);
    sent.extend_from_slice(&frame_command(0xCC));
    sent.extend_from_slice(&encode_u32(1500));
    sent.extend_from_slice(&payload);
    sent.extend_from_slice(&frame_command(0x10));
    assert_eq!(ed.channel().written_bytes(), &sent);
    assert_eq!(ed.channel().remaining(), 0);
}

#[test]
fn file_write_fails_on_unhealthy_closing_status() {
    let payload = vec![4u8; 10];
    let mut ed = connected(vec![0, 0x34, 0x12]);
    assert_eq!(ed.file_write(&payload), Err(EdError::BadStatus(0x1234)));
}

#[test]
fn file_write_aborts_on_gate() {
    let payload = vec![4u8; 3000];
    let mut ed = connected(vec![0, 0x07]);
    assert_eq!(ed.file_write(&payload), Err(EdError::DeviceError(0x07)));
}
