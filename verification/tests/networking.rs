use game_client::networking::connection::{
    encode_chat_message, frame_status, read_frame, Frame, MessageStatus, ReadOutcome,
    RecvAction, RecvBuffer, CHAT_RECV_BUFFER_LEN, CHAT_SEND_BUFFER_LEN,
    ENTITY_STATE_RECV_BUFFER_LEN, FRAME_HEADER_LEN,
};

fn complete(frame: Frame) -> (usize, Vec<u8>) {
    match frame {
        Frame::Complete { consumed, payload } => (consumed, payload),
        Frame::Incomplete => panic!("expected a complete frame"),
    }
}

#[test]
fn read_frame_needs_two_header_bytes() {
    assert!(matches!(read_frame(&[]), Frame::Incomplete));
    assert!(matches!(read_frame(&[0]), Frame::Incomplete));
}

#[test]
fn read_frame_empty_payload() {
    assert_eq!(complete(read_frame(&[0, 0])), (2, vec![]));
}

#[test]
fn read_frame_reads_little_endian_length() {
    assert_eq!(complete(read_frame(&[3, 0, b'a', b'b', b'c'])), (5, b"abc".to_vec()));
    // 0x0100 = 256 bytes of payload are announced, only 3 are there.
    assert!(matches!(read_frame(&[0, 1, b'a', b'b', b'c']), Frame::Incomplete));
}

#[test]
fn read_frame_waits_for_whole_payload() {
    assert!(matches!(read_frame(&[4, 0, 1, 2, 3]), Frame::Incomplete));
    assert_eq!(complete(read_frame(&[4, 0, 1, 2, 3, 4])), (6, vec![1, 2, 3, 4]));
}

#[test]
fn read_frame_leaves_following_bytes() {
    let bytes = [2, 0, 9, 8, 1, 0, 7];
    assert_eq!(complete(read_frame(&bytes)), (4, vec![9, 8]));
    assert_eq!(complete(read_frame(&bytes[4..])), (3, vec![7]));
}

#[test]
fn read_frame_large_length() {
    let mut bytes = vec![0x2c, 0x01];
    bytes.extend(std::iter::repeat(5u8).take(300));
    assert_eq!(complete(read_frame(&bytes)), (302, vec![5u8; 300]));
}

#[test]
fn encode_chat_message_prefixes_length() {
    assert_eq!(encode_chat_message(b"hi"), vec![2, 0, b'h', b'i']);
    assert_eq!(encode_chat_message(b""), vec![0, 0]);
}

#[test]
fn encode_chat_message_largest() {
    let message = vec![b'x'; CHAT_SEND_BUFFER_LEN - FRAME_HEADER_LEN];
    let out = encode_chat_message(&message);
    assert_eq!(out.len(), CHAT_SEND_BUFFER_LEN);
    assert_eq!(&out[..2], &[0xfe, 0x01]);
    assert_eq!(&out[2..], &message[..]);
}

#[test]
fn chat_message_roundtrip() {
    let message = "hello, world".as_bytes();
    let mut bytes = encode_chat_message(message);
    bytes.extend_from_slice(&[1, 2, 3]);
    assert_eq!(complete(read_frame(&bytes)), (message.len() + 2, message.to_vec()));
}

#[test]
fn chat_message_prefix_is_incomplete() {
    let bytes = encode_chat_message(b"abcdef");
    for cut in 0..bytes.len() {
        assert!(matches!(read_frame(&bytes[..cut]), Frame::Incomplete));
    }
}

#[test]
fn frame_status_cases() {
    assert_eq!(frame_status(&Frame::Incomplete, true), MessageStatus::NotEnoughData);
    assert_eq!(frame_status(&Frame::Incomplete, false), MessageStatus::NotEnoughData);
    let frame = read_frame(&[1, 0, 42]);
    assert_eq!(frame_status(&frame, true), MessageStatus::Consumed(3));
    assert_eq!(frame_status(&frame, false), MessageStatus::Error);
}

#[test]
fn buffer_sizes() {
    assert_eq!(CHAT_RECV_BUFFER_LEN, 512);
    assert_eq!(ENTITY_STATE_RECV_BUFFER_LEN, 8192);
    let buf = RecvBuffer::new(CHAT_RECV_BUFFER_LEN);
    assert_eq!(buf.free_space(), 512);
    assert_eq!(buf.received(4), &[0, 0, 0, 0]);
}

#[test]
fn recv_buffer_receive_then_parse() {
    let mut buf = RecvBuffer::new(8);
    assert_eq!(buf.receive(ReadOutcome::Received(vec![3, 0, 1])), RecvAction::Parse(3));
    assert_eq!(buf.received(3), &[3, 0, 1]);
    // The kept prefix is still empty, so the whole buffer is free.
    assert_eq!(buf.free_space(), 8);
}

#[test]
fn recv_buffer_reads_without_bytes() {
    let mut buf = RecvBuffer::new(4);
    assert_eq!(buf.receive(ReadOutcome::NothingYet), RecvAction::ReadAgain);
    assert_eq!(buf.receive(ReadOutcome::Failed), RecvAction::Stop);
    assert_eq!(buf.received(4), &[0, 0, 0, 0]);
}

#[test]
fn recv_buffer_keeps_unconsumed_bytes() {
    let mut buf = RecvBuffer::new(8);
    let total = match buf.receive(ReadOutcome::Received(vec![1, 0, 7, 2, 0, 8])) {
        RecvAction::Parse(n) => n,
        other => panic!("unexpected {:?}", other),
    };
    let status = frame_status(&read_frame(buf.received(total)), true);
    assert_eq!(status, MessageStatus::Consumed(3));
    assert_eq!(buf.settle(total, &status), RecvAction::ReadAgain);
    assert_eq!(buf.free_space(), 5);
    assert_eq!(buf.received(3), &[2, 0, 8]);
    // The next read lands after the kept bytes.
    assert_eq!(buf.receive(ReadOutcome::Received(vec![9])), RecvAction::Parse(4));
    assert_eq!(buf.received(4), &[2, 0, 8, 9]);
    let status = frame_status(&read_frame(buf.received(4)), true);
    assert_eq!(status, MessageStatus::Consumed(4));
    assert_eq!(buf.settle(4, &status), RecvAction::ReadAgain);
    assert_eq!(buf.free_space(), 8);
}

#[test]
fn recv_buffer_not_enough_data_keeps_offset() {
    let mut buf = RecvBuffer::new(8);
    assert_eq!(buf.receive(ReadOutcome::Received(vec![5, 0, 1])), RecvAction::Parse(3));
    let status = frame_status(&read_frame(buf.received(3)), true);
    assert_eq!(status, MessageStatus::NotEnoughData);
    assert_eq!(buf.settle(3, &status), RecvAction::ReadAgain);
    // Nothing was kept: the next read starts at the front again.
    assert_eq!(buf.free_space(), 8);
    assert_eq!(buf.receive(ReadOutcome::Received(vec![4])), RecvAction::Parse(1));
    assert_eq!(buf.received(3), &[4, 0, 1]);
}

#[test]
fn recv_buffer_malformed_and_error() {
    let mut buf = RecvBuffer::new(4);
    assert_eq!(buf.settle(0, &MessageStatus::Malformed), RecvAction::Malformed);
    assert_eq!(buf.settle(0, &MessageStatus::Error), RecvAction::Stop);
    assert_eq!(buf.free_space(), 4);
}

#[test]
fn recv_buffer_overconsumed_clears() {
    let mut buf = RecvBuffer::new(4);
    assert_eq!(buf.receive(ReadOutcome::Received(vec![1, 2])), RecvAction::Parse(2));
    assert_eq!(buf.settle(2, &MessageStatus::Consumed(3)), RecvAction::ReadAgain);
    assert_eq!(buf.free_space(), 4);
    assert_eq!(buf.received(2), &[1, 2]);
}
