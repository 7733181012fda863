use radio_cat::serial::error::io_failure;
use radio_cat::serial::error::IoKind;
use radio_cat::serial::error::ResponseDisposition;
use radio_cat::tcp::codec::check_frame_len;
use radio_cat::tcp::codec::decode_len_prefix;
use radio_cat::tcp::codec::encode_frame;
use radio_cat::tcp::codec::TcpSessionError;
use radio_cat::tcp::codec::MAX_FRAME_SIZE;
use radio_cat::tcp::session::finish_exchange;
use radio_cat::tcp::session::read_frame;
use radio_cat::tcp::session::worker_gone_error;
use radio_cat::tcp::session::FrameReader;
use radio_cat::tcp::session::FrameStep;
use radio_cat::tcp::session::StreamRead;

#[test]
fn encode_frame_round_trips_through_decode_len_prefix() {
    let frame = encode_frame(b"FA;").unwrap();
    assert_eq!(frame.len(), 4 + 3);
    let len = decode_len_prefix(frame[0..4].try_into().unwrap()).unwrap();
    assert_eq!(len as usize, 3);
    assert_eq!(&frame[4..], b"FA;");
}

#[test]
fn encode_frame_rejects_oversized_payload() {
    let oversized = vec![0u8; MAX_FRAME_SIZE as usize + 1];
    match encode_frame(&oversized) {
        Err(TcpSessionError::FrameTooLarge { len, max }) => {
            assert_eq!(len, MAX_FRAME_SIZE + 1);
            assert_eq!(max, MAX_FRAME_SIZE);
        }
        other => panic!("expected FrameTooLarge, got {other:?}"),
    }
}

#[test]
fn decode_len_prefix_rejects_oversized_declared_length() {
    let declared = (MAX_FRAME_SIZE + 1).to_be_bytes();
    match decode_len_prefix(declared) {
        Err(TcpSessionError::FrameTooLarge { len, max }) => {
            assert_eq!(len, MAX_FRAME_SIZE + 1);
            assert_eq!(max, MAX_FRAME_SIZE);
        }
        other => panic!("expected FrameTooLarge, got {other:?}"),
    }
}

#[test]
fn encode_frame_allows_zero_length_payload() {
    let frame = encode_frame(b"").unwrap();
    assert_eq!(frame, 0u32.to_be_bytes().to_vec());
}

#[test]
fn the_longest_frame_is_allowed() {
    assert!(check_frame_len(65536).is_ok());
    let err = check_frame_len(65537).unwrap_err();
    assert_eq!(err.message(), "frame length 65537 exceeds max frame size 65536 bytes");
    assert_eq!(
        TcpSessionError::Io(io_failure(IoKind::Other, "reset")).message(),
        "I/O error: reset"
    );
}

/// Read one frame off a stream that brings these pieces and then ends.
fn read(pieces: &[&[u8]]) -> Result<Option<Vec<u8>>, TcpSessionError> {
    let (mut reader, mut step) = FrameReader::new();
    let mut pieces = pieces.iter();
    let mut left: Vec<u8> = Vec::new();
    loop {
        match step {
            FrameStep::Done(result) => return result,
            FrameStep::Read(most) => {
                if left.is_empty() {
                    left = pieces.next().map(|p| p.to_vec()).unwrap_or_default();
                }
                let rest = left.split_off(most.min(left.len()));
                step = reader.step(StreamRead::Received(left));
                left = rest;
            }
        }
    }
}

#[test]
fn handles_response_length_prefix_and_payload_arriving_in_separate_reads() {
    let frame = encode_frame(b"FA00014250000;").unwrap();
    assert_eq!(read(&[&frame[..4], &frame[4..]]), Ok(Some(b"FA00014250000;".to_vec())));
    assert_eq!(
        read(&[&frame[..1], &frame[1..3], &frame[3..6], &frame[6..]]),
        Ok(Some(b"FA00014250000;".to_vec()))
    );
}

#[test]
fn a_frame_is_read_back_and_nothing_after_it() {
    let mut stream = encode_frame(b"ID017;").unwrap();
    stream.extend(encode_frame(b"NEXT;").unwrap());
    assert_eq!(read(&[&stream]), Ok(Some(b"ID017;".to_vec())));
    assert_eq!(read(&[&encode_frame(b"").unwrap()]), Ok(Some(Vec::new())));
}

#[test]
fn session_rejects_oversized_frame_without_reading_payload() {
    let declared = (MAX_FRAME_SIZE + 1).to_be_bytes();
    match read(&[&declared, b"payload"]) {
        Err(TcpSessionError::FrameTooLarge { len, max }) => {
            assert_eq!((len, max), (MAX_FRAME_SIZE + 1, MAX_FRAME_SIZE))
        }
        other => panic!("{other:?}"),
    }
}

fn unexpected_end(result: Result<Option<Vec<u8>>, TcpSessionError>) {
    match result {
        Err(TcpSessionError::Io(failure)) => assert_eq!(failure.kind, IoKind::UnexpectedEof),
        other => panic!("{other:?}"),
    }
}

#[test]
fn disconnect_mid_length_prefix_returns_error_not_hang() {
    unexpected_end(read(&[&[0, 0]]));
}

#[test]
fn session_disconnect_mid_payload_returns_error_not_hang() {
    unexpected_end(read(&[&10u32.to_be_bytes(), b"FA"]));
}

#[test]
fn an_end_between_frames_is_no_error_to_a_server_and_one_to_a_client() {
    assert_eq!(read(&[]), Ok(None));
    match read_frame(Ok(None)) {
        Err(TcpSessionError::Io(failure)) => assert_eq!(failure.kind, IoKind::UnexpectedEof),
        other => panic!("{other:?}"),
    }
    assert_eq!(read_frame(Ok(Some(vec![1]))), Ok(vec![1]));
}

#[test]
fn an_interrupted_read_is_made_again() {
    let (mut reader, _) = FrameReader::new();
    assert_eq!(
        reader.step(StreamRead::Failed(io_failure(IoKind::Interrupted, "signal"))),
        FrameStep::Read(4)
    );
    match reader.step(StreamRead::Failed(io_failure(IoKind::Other, "reset"))) {
        FrameStep::Done(Err(TcpSessionError::Io(failure))) => assert_eq!(failure.message, "reset"),
        other => panic!("{other:?}"),
    }
}

#[test]
fn an_empty_answer_is_no_answer() {
    let mut response = vec![7];
    assert_eq!(finish_exchange(Ok(Vec::new()), &mut response), Ok(ResponseDisposition::NoResponse));
    assert_eq!(response, [7]);
    assert_eq!(
        finish_exchange(Ok(b"ID017;".to_vec()), &mut response),
        Ok(ResponseDisposition::ResponseWritten)
    );
    assert!(finish_exchange(Err(worker_gone_error()), &mut response).is_err());
    assert_eq!(response, b"\x07ID017;");
    match worker_gone_error() {
        TcpSessionError::Io(failure) => {
            assert_eq!(failure.kind, IoKind::BrokenPipe);
            assert_eq!(
                failure.message,
                "cat-transport-tcp: Windows worker thread is no longer running"
            );
        }
        other => panic!("{other:?}"),
    }
}
