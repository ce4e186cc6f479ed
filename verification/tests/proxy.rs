use bytes::Bytes;
use bytes::BytesMut;
use desktop_native::proxy::encode_frame;
use desktop_native::proxy::on_event;
use desktop_native::proxy::run;
use desktop_native::proxy::ByteOrder;
use desktop_native::proxy::ExitReason;
use desktop_native::proxy::FrameError;
use desktop_native::proxy::FrameReader;
use desktop_native::proxy::RelayAction;
use desktop_native::proxy::RelayEvent;
use desktop_native::proxy::HEADER_LENGTH;
use desktop_native::proxy::MAX_FRAME_LENGTH;
use tokio_util::codec::Decoder;
use tokio_util::codec::Encoder;
use tokio_util::codec::LengthDelimitedCodec;

#[test]
fn frame_is_length_then_payload() {
    assert_eq!(encode_frame(b"hello", ByteOrder::Little), Ok(vec![5, 0, 0, 0, b'h', b'e', b'l', b'l', b'o']));
    assert_eq!(encode_frame(b"hello", ByteOrder::Big), Ok(vec![0, 0, 0, 5, b'h', b'e', b'l', b'l', b'o']));
}

#[test]
fn frame_of_nothing_is_its_prefix() {
    assert_eq!(HEADER_LENGTH, 4);
    assert_eq!(encode_frame(b"", ByteOrder::Little), Ok(vec![0, 0, 0, 0]));
}

#[test]
fn frame_prefix_matches_the_integer_bytes() {
    for length in [1usize, 255, 256, 257, 65535, 65536, 70000, 1 << 20] {
        let payload = vec![7u8; length];
        let little = encode_frame(&payload, ByteOrder::Little).unwrap();
        let big = encode_frame(&payload, ByteOrder::Big).unwrap();
        assert_eq!(&little[..4], &(length as u32).to_le_bytes());
        assert_eq!(&big[..4], &(length as u32).to_be_bytes());
        assert_eq!(&little[4..], &payload[..]);
        assert_eq!(&big[4..], &payload[..]);
    }
}

#[test]
fn longest_frame_is_eight_mebibytes() {
    assert_eq!(MAX_FRAME_LENGTH, 8 * 1024 * 1024);
    let payload = vec![0u8; MAX_FRAME_LENGTH];
    let framed = encode_frame(&payload, ByteOrder::Little).unwrap();
    assert_eq!(framed.len(), MAX_FRAME_LENGTH + 4);
    assert_eq!(&framed[..4], &[0, 0, 128, 0]);
    let payload = vec![0u8; MAX_FRAME_LENGTH + 1];
    assert_eq!(encode_frame(&payload, ByteOrder::Little), Err(FrameError::TooLong));
}

#[test]
fn reader_gives_back_what_was_framed() {
    for order in [ByteOrder::Little, ByteOrder::Big] {
        let mut reader = FrameReader::new(order);
        reader.extend(&encode_frame(b"first", order).unwrap());
        reader.extend(&encode_frame(b"", order).unwrap());
        reader.extend(&encode_frame("zwölf".as_bytes(), order).unwrap());
        assert_eq!(reader.next_frame(), Ok(Some(b"first".to_vec())));
        assert_eq!(reader.next_frame(), Ok(Some(Vec::new())));
        assert_eq!(reader.next_frame(), Ok(Some("zwölf".as_bytes().to_vec())));
        assert_eq!(reader.next_frame(), Ok(None));
        assert_eq!(reader.pending_len(), 0);
        assert_eq!(reader.finish(), Ok(()));
    }
}

#[test]
fn reader_waits_for_the_whole_frame() {
    let mut reader = FrameReader::new(ByteOrder::Little);
    assert_eq!(reader.next_frame(), Ok(None));
    reader.extend(&[3, 0]);
    assert_eq!(reader.next_frame(), Ok(None));
    assert_eq!(reader.finish(), Err(FrameError::Truncated));
    reader.extend(&[0, 0, b'a']);
    assert_eq!(reader.next_frame(), Ok(None));
    assert_eq!(reader.pending_len(), 5);
    reader.extend(&[b'b', b'c', 9]);
    assert_eq!(reader.next_frame(), Ok(Some(b"abc".to_vec())));
    assert_eq!(reader.pending_len(), 1);
    assert_eq!(reader.finish(), Err(FrameError::Truncated));
}

#[test]
fn reader_reads_the_prefix_in_its_order() {
    let mut reader = FrameReader::new(ByteOrder::Big);
    reader.extend(&[0, 0, 1, 2]);
    reader.extend(&vec![b'x'; 258]);
    assert_eq!(reader.next_frame(), Ok(Some(vec![b'x'; 258])));
    let mut reader = FrameReader::new(ByteOrder::Little);
    reader.extend(&[2, 1, 0, 0]);
    reader.extend(&vec![b'x'; 258]);
    assert_eq!(reader.next_frame(), Ok(Some(vec![b'x'; 258])));
}

#[test]
fn reader_refuses_an_overlong_frame() {
    let mut reader = FrameReader::new(ByteOrder::Little);
    reader.extend(&[1, 0, 128, 0]);
    assert_eq!(reader.next_frame(), Err(FrameError::TooLong));
    assert_eq!(reader.pending_len(), 4);
    let mut reader = FrameReader::new(ByteOrder::Big);
    reader.extend(&[255, 255, 255, 255, 1]);
    assert_eq!(reader.next_frame(), Err(FrameError::TooLong));
    let mut reader = FrameReader::new(ByteOrder::Little);
    reader.extend(&[0, 0, 128, 0]);
    assert_eq!(reader.next_frame(), Ok(None));
}

#[test]
fn message_for_the_browser_is_written_as_one_frame() {
    assert_eq!(
        on_event(&RelayEvent::Message("ping".to_owned()), ByteOrder::Little),
        RelayAction::WriteFrame(vec![4, 0, 0, 0, b'p', b'i', b'n', b'g'])
    );
    assert_eq!(
        on_event(&RelayEvent::Message("é".to_owned()), ByteOrder::Big),
        RelayAction::WriteFrame(vec![0, 0, 0, 2, 0xc3, 0xa9])
    );
}

#[test]
fn overlong_message_ends_the_relay() {
    let message = "x".repeat(MAX_FRAME_LENGTH + 1);
    assert_eq!(
        on_event(&RelayEvent::Message(message), ByteOrder::Little),
        RelayAction::Exit(ExitReason::MessageTooLong)
    );
}

#[test]
fn frame_from_the_browser_is_forwarded_as_text() {
    assert_eq!(
        on_event(&RelayEvent::Frame("{\"a\":\"ü\"}".as_bytes().to_vec()), ByteOrder::Little),
        RelayAction::Forward("{\"a\":\"ü\"}".to_owned())
    );
    assert_eq!(on_event(&RelayEvent::Frame(Vec::new()), ByteOrder::Little), RelayAction::Forward(String::new()));
}

#[test]
fn invalid_utf8_from_the_browser_ends_the_relay() {
    assert_eq!(
        on_event(&RelayEvent::Frame(vec![b'a', 0xff]), ByteOrder::Little),
        RelayAction::Exit(ExitReason::InvalidUtf8)
    );
}

#[test]
fn relay_ends_when_either_side_closes() {
    assert_eq!(on_event(&RelayEvent::ChannelClosed, ByteOrder::Little), RelayAction::Exit(ExitReason::ChannelClosed));
    assert_eq!(on_event(&RelayEvent::InputEnded, ByteOrder::Little), RelayAction::Exit(ExitReason::InputEnded));
    assert_eq!(on_event(&RelayEvent::InputFailed, ByteOrder::Little), RelayAction::Exit(ExitReason::InputFailed));
}

#[test]
fn relay_runs_until_the_first_exit() {
    let events = vec![
        RelayEvent::Frame(b"in".to_vec()),
        RelayEvent::Message("out".to_owned()),
        RelayEvent::InputEnded,
        RelayEvent::Message("late".to_owned()),
    ];
    assert_eq!(
        run(&events, ByteOrder::Little),
        vec![
            RelayAction::Forward("in".to_owned()),
            RelayAction::WriteFrame(vec![3, 0, 0, 0, b'o', b'u', b't']),
            RelayAction::Exit(ExitReason::InputEnded),
        ]
    );
    assert_eq!(run(&Vec::new(), ByteOrder::Big), Vec::<RelayAction>::new());
}

#[test]
fn relayed_message_reads_back_unchanged() {
    for order in [ByteOrder::Little, ByteOrder::Big] {
        let framed = match on_event(&RelayEvent::Message("päyload".to_owned()), order) {
            RelayAction::WriteFrame(bytes) => bytes,
            other => panic!("unexpected action {:?}", other),
        };
        let mut reader = FrameReader::new(order);
        reader.extend(&framed);
        let payload = reader.next_frame().unwrap().unwrap();
        assert_eq!(on_event(&RelayEvent::Frame(payload), order), RelayAction::Forward("päyload".to_owned()));
    }
}

fn codec(order: ByteOrder) -> LengthDelimitedCodec {
    let mut builder = LengthDelimitedCodec::builder();
    match order {
        ByteOrder::Little => builder.little_endian(),
        ByteOrder::Big => builder.big_endian(),
    };
    builder.new_codec()
}

#[test]
fn frames_are_those_of_the_length_delimited_codec() {
    for order in [ByteOrder::Little, ByteOrder::Big] {
        for length in [0usize, 1, 4, 255, 256, 300, 65536, 70001] {
            let payload: Vec<u8> = (0..length).map(|i| (i % 251) as u8).collect();
            let mut expected = BytesMut::new();
            codec(order).encode(Bytes::from(payload.clone()), &mut expected).unwrap();
            assert_eq!(encode_frame(&payload, order).unwrap(), expected.to_vec());
        }
    }
}

#[test]
fn reader_reads_as_the_length_delimited_codec_does() {
    for order in [ByteOrder::Little, ByteOrder::Big] {
        let mut stream = Vec::new();
        for payload in [&b"one"[..], &b""[..], &[0xffu8; 700][..], &b"last"[..]] {
            stream.extend_from_slice(&encode_frame(payload, order).unwrap());
        }
        stream.extend_from_slice(&[1, 1]);
        for step in [1usize, 2, 3, 5, 64, 4096] {
            let mut reader = FrameReader::new(order);
            let mut theirs = codec(order);
            let mut buffer = BytesMut::new();
            for chunk in stream.chunks(step) {
                reader.extend(chunk);
                buffer.extend_from_slice(chunk);
                loop {
                    let expected = theirs.decode(&mut buffer).unwrap().map(|frame| frame.to_vec());
                    let got = reader.next_frame().unwrap();
                    assert_eq!(got, expected);
                    if got.is_none() {
                        break;
                    }
                }
            }
            assert_eq!(reader.finish(), Err(FrameError::Truncated));
            assert!(theirs.decode_eof(&mut buffer).is_err());
        }
    }
}

#[test]
fn limits_are_those_of_the_length_delimited_codec() {
    assert_eq!(codec(ByteOrder::Little).max_frame_length(), MAX_FRAME_LENGTH);
    let payload = vec![0u8; MAX_FRAME_LENGTH + 1];
    let mut destination = BytesMut::new();
    assert!(codec(ByteOrder::Little).encode(Bytes::from(payload), &mut destination).is_err());
    let mut buffer = BytesMut::from(&[1u8, 0, 128, 0][..]);
    assert!(codec(ByteOrder::Little).decode(&mut buffer).is_err());
    let mut buffer = BytesMut::from(&[0u8, 0, 128, 0][..]);
    assert_eq!(codec(ByteOrder::Little).decode(&mut buffer).unwrap(), None);
}
