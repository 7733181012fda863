use radio_cat::serial::error::io_failure;
use radio_cat::serial::error::IoKind;
use radio_cat::serial::error::ResponseDisposition;
use radio_cat::udp::codec::decode_envelope;
use radio_cat::udp::codec::encode_envelope;
use radio_cat::udp::codec::random_session_id;
use radio_cat::udp::codec::PeerAddr;
use radio_cat::udp::codec::RequestIdCache;
use radio_cat::udp::codec::UdpSessionError;
use radio_cat::udp::codec::DEDUP_CACHE_CAPACITY;
use radio_cat::udp::codec::DEFAULT_RESPONSE_TIMEOUT_NS;
use radio_cat::udp::codec::ENVELOPE_HEADER_LEN;
use radio_cat::udp::codec::MAX_DATAGRAM_SIZE;
use radio_cat::udp::codec::MAX_PAYLOAD_SIZE;
use radio_cat::udp::session::bind_addr;
use radio_cat::udp::session::finish_exchange;
use radio_cat::udp::session::worker_gone_error;
use radio_cat::udp::session::BindAddr;
use radio_cat::udp::session::Incoming;
use radio_cat::udp::session::Reason;
use radio_cat::udp::session::Received;
use radio_cat::udp::session::UdpCatSession;

#[test]
fn codec_encode_decode_round_trip() {
    let datagram = encode_envelope(0x0102_0304_0506_0708, 42, b"FA;").unwrap();
    assert_eq!(datagram.len(), ENVELOPE_HEADER_LEN + 3);

    let (session_id, request_id, payload) = decode_envelope(&datagram).unwrap();
    assert_eq!(session_id, 0x0102_0304_0506_0708);
    assert_eq!(request_id, 42);
    assert_eq!(payload, b"FA;");
}

#[test]
fn session_encode_decode_round_trip() {
    let datagram = encode_envelope(0x0102_0304_0506_0708, 42, b"FA;").unwrap();
    assert_eq!(datagram.len(), ENVELOPE_HEADER_LEN + 3);
    assert_eq!(&datagram[..8], [1, 2, 3, 4, 5, 6, 7, 8]);
    assert_eq!(&datagram[8..16], [0, 0, 0, 0, 0, 0, 0, 42]);

    let (session_id, request_id, payload) = decode_envelope(&datagram).unwrap();
    assert_eq!(session_id, 0x0102_0304_0506_0708);
    assert_eq!(request_id, 42);
    assert_eq!(payload, b"FA;");
}

fn rejects_oversized() {
    let oversized = vec![0u8; MAX_PAYLOAD_SIZE + 1];
    let result = encode_envelope(1, 1, &oversized);
    match result {
        Err(UdpSessionError::PayloadTooLarge { len, max }) => {
            assert_eq!(len, MAX_PAYLOAD_SIZE + 1);
            assert_eq!(max, MAX_PAYLOAD_SIZE);
        }
        other => panic!("expected PayloadTooLarge, got {:?}", other),
    }
}

#[test]
fn codec_encode_rejects_oversized_payload() {
    rejects_oversized();
}

#[test]
fn session_encode_rejects_oversized_payload() {
    rejects_oversized();
}

#[test]
fn codec_decode_rejects_datagram_shorter_than_header() {
    assert!(decode_envelope(&[0u8; ENVELOPE_HEADER_LEN - 1]).is_none());
    assert!(decode_envelope(&[]).is_none());
}

#[test]
fn session_decode_rejects_datagram_shorter_than_header() {
    assert!(decode_envelope(&[0u8; ENVELOPE_HEADER_LEN - 1]).is_none());
    assert!(decode_envelope(&[]).is_none());
}

fn header_only() {
    let datagram = encode_envelope(7, 8, b"").unwrap();
    let (session_id, request_id, payload) = decode_envelope(&datagram).unwrap();
    assert_eq!(session_id, 7);
    assert_eq!(request_id, 8);
    assert!(payload.is_empty());
}

#[test]
fn codec_decode_accepts_header_only_datagram_as_empty_payload() {
    header_only();
}

#[test]
fn session_decode_accepts_header_only_datagram_as_empty_payload() {
    header_only();
}

#[test]
fn codec_dedup_cache_recognizes_a_completed_request_id() {
    let mut cache = RequestIdCache::new();
    assert!(!cache.is_known_duplicate(5));
    cache.remember_completed(5);
    assert!(cache.is_known_duplicate(5));
    assert!(!cache.is_known_duplicate(6));
}

#[test]
fn codec_dedup_cache_evicts_oldest_beyond_capacity() {
    let mut cache = RequestIdCache::new();
    for id in 1..=DEDUP_CACHE_CAPACITY as u64 {
        cache.remember_completed(id);
    }
    assert!(cache.is_known_duplicate(1), "oldest entry not yet evicted");

    cache.remember_completed(DEDUP_CACHE_CAPACITY as u64 + 1);
    assert!(
        !cache.is_known_duplicate(1),
        "oldest entry should have been evicted once capacity was exceeded"
    );
    assert!(cache.is_known_duplicate(2), "second-oldest should survive");
    assert!(cache.is_known_duplicate(DEDUP_CACHE_CAPACITY as u64 + 1));
}

#[test]
fn session_dedup_cache_recognizes_a_completed_request_id() {
    let mut session = session();

    assert!(!session.is_known_duplicate(5));
    session.remember_completed(5);
    assert!(session.is_known_duplicate(5));
    assert!(!session.is_known_duplicate(6));
}

#[test]
fn session_dedup_cache_evicts_oldest_beyond_capacity() {
    let mut session = session();

    for id in 1..=DEDUP_CACHE_CAPACITY as u64 {
        session.remember_completed(id);
    }
    assert!(session.is_known_duplicate(1), "oldest entry not yet evicted");

    session.remember_completed(DEDUP_CACHE_CAPACITY as u64 + 1);
    assert!(
        !session.is_known_duplicate(1),
        "oldest entry should have been evicted once capacity was exceeded"
    );
    assert!(session.is_known_duplicate(2), "second-oldest should survive");
    assert!(session.is_known_duplicate(DEDUP_CACHE_CAPACITY as u64 + 1));
    assert_eq!(session.session_id(), 99);
}

const PEER: PeerAddr = PeerAddr::V4 { ip: 0x7f00_0001, port: 4532 };

fn session() -> UdpCatSession {
    UdpCatSession::new(PEER, 99, 200)
}

fn from_peer(session_id: u64, request_id: u64, payload: &[u8]) -> Incoming {
    Incoming::Datagram { from: PEER, bytes: encode_envelope(session_id, request_id, payload).unwrap() }
}

#[test]
fn session_conformance_query_round_trip() {
    let mut s = session();
    let datagram = s.begin(b"ID;").unwrap();
    assert_eq!(decode_envelope(&datagram), Some((99, 1, &b"ID;"[..])));
    s.sent(1_000);
    assert_eq!(s.time_left(1_050), Ok(150));
    assert_eq!(s.receive(from_peer(99, 1, b"ID017;")), Received::Answer(b"ID017;".to_vec()));
    let mut response = Vec::new();
    assert_eq!(
        finish_exchange(Ok(b"ID017;".to_vec()), &mut response),
        Ok(ResponseDisposition::ResponseWritten)
    );
    assert_eq!(response, b"ID017;");
    let late = UdpSessionError::Timeout { peer: PEER, timeout_ns: 200 };
    assert!(finish_exchange(Err(late), &mut response).is_err());
    assert_eq!(response, b"ID017;", "a request that fails leaves the response as it was");
}

#[test]
fn session_conformance_set_is_fire_and_forget() {
    let mut s = session();
    s.begin(b"TX;").unwrap();
    assert_eq!(s.receive(from_peer(99, 1, b"")), Received::Answer(Vec::new()));
    let mut response = Vec::new();
    assert_eq!(
        finish_exchange(Ok(Vec::new()), &mut response),
        Ok(ResponseDisposition::NoResponse)
    );
}

#[test]
fn session_duplicate_response_delivery_does_not_corrupt_next_request() {
    let mut s = session();
    s.begin(b"FA;").unwrap();
    assert!(matches!(s.receive(from_peer(99, 1, b"FA00014250000;")), Received::Answer(_)));
    s.begin(b"ID;").unwrap();
    assert_eq!(
        s.receive(from_peer(99, 1, b"FA00014250000;")),
        Received::Ignored(Reason::Duplicate)
    );
    assert_eq!(s.receive(from_peer(99, 2, b"ID017;")), Received::Answer(b"ID017;".to_vec()));
}

#[test]
fn stale_response_for_older_request_is_not_misattributed_to_newer_request() {
    let mut s = session();
    s.begin(b"FA;").unwrap();
    assert!(matches!(
        s.receive(Incoming::TimedOut),
        Received::Failed(UdpSessionError::Timeout { .. })
    ));
    s.begin(b"ID;").unwrap();
    assert_eq!(
        s.receive(from_peer(99, 1, b"FA00014250000;")),
        Received::Ignored(Reason::OtherRequest)
    );
    assert_eq!(s.receive(from_peer(99, 2, b"ID017;")), Received::Answer(b"ID017;".to_vec()));
}

#[test]
fn session_never_answered_request_times_out_instead_of_hanging() {
    let mut s = session();
    s.begin(b"FA;").unwrap();
    s.sent(1_000);
    assert_eq!(
        s.time_left(1_200),
        Err(UdpSessionError::Timeout { peer: PEER, timeout_ns: 200 })
    );
    let e = s.time_left(1_200).unwrap_err();
    assert_eq!(
        e.message("127.0.0.1:4532", "200ns"),
        "no response received from 127.0.0.1:4532 within 200ns"
    );
    s.sent(u64::MAX - 1);
    assert_eq!(s.time_left(u64::MAX - 1), Ok(1));
}

#[test]
fn session_ignores_malformed_short_datagram_and_still_receives_real_response() {
    let mut s = session();
    s.begin(b"FA;").unwrap();
    assert_eq!(
        s.receive(Incoming::Datagram { from: PEER, bytes: vec![1, 2, 3] }),
        Received::Ignored(Reason::TooShort)
    );
    assert_eq!(s.receive(from_peer(99, 1, b"ok")), Received::Answer(b"ok".to_vec()));
}

#[test]
fn ignores_datagram_with_foreign_session_id() {
    let mut s = session();
    s.begin(b"FA;").unwrap();
    assert_eq!(s.receive(from_peer(98, 1, b"x")), Received::Ignored(Reason::OtherSession));
    let elsewhere = PeerAddr::V4 { ip: 0x7f00_0001, port: 4533 };
    assert_eq!(
        s.receive(Incoming::Datagram {
            from: elsewhere,
            bytes: encode_envelope(99, 1, b"x").unwrap()
        }),
        Received::Ignored(Reason::OtherSender)
    );
}

#[test]
fn a_socket_that_fails_fails_the_request() {
    let mut s = session();
    s.begin(b"FA;").unwrap();
    match s.receive(Incoming::Failed(io_failure(IoKind::Other, "unreachable"))) {
        Received::Failed(e) => assert_eq!(e.message("", ""), "I/O error: unreachable"),
        other => panic!("{other:?}"),
    }
    let e = s.begin(&vec![0u8; 1025]).unwrap_err();
    assert_eq!(e.message("", ""), "payload length 1025 exceeds max payload size 1024 bytes");
    match worker_gone_error() {
        UdpSessionError::Io(failure) => {
            assert_eq!(failure.kind, IoKind::BrokenPipe);
            assert_eq!(
                failure.message,
                "cat-transport-udp: Windows worker thread is no longer running"
            );
        }
        other => panic!("{other:?}"),
    }
}

#[test]
fn every_request_uses_up_one_id() {
    let mut s = session();
    let first = s.begin(b"FA;").unwrap();
    assert_eq!(decode_envelope(&first).unwrap().1, 1);
    assert!(matches!(s.receive(Incoming::TimedOut), Received::Failed(_)));
    assert!(s.begin(&vec![0u8; MAX_PAYLOAD_SIZE + 1]).is_err());
    let third = s.begin(b"ID;").unwrap();
    assert_eq!(decode_envelope(&third), Some((99, 3, &b"ID;"[..])));
    s.sent(1_000);
    assert!(matches!(s.receive(from_peer(99, 3, b"ID017;")), Received::Answer(_)));
    let fourth = s.begin(b"TX;").unwrap();
    assert_eq!(decode_envelope(&fourth).unwrap().1, 4);
}

#[test]
fn request_ids_wrap_around() {
    let mut s = session();
    s.next_request_id = u64::MAX;
    let datagram = s.begin(b"FA;").unwrap();
    assert_eq!(decode_envelope(&datagram).unwrap().1, 0);
}

#[test]
fn session_session_id_is_randomized_across_instances() {
    let a = random_session_id();
    let b = random_session_id();
    assert_ne!(a, b);
}

#[test]
fn windows_session_id_is_randomized_across_instances() {
    let ids: Vec<u64> = (0..8).map(|_| random_session_id()).collect();
    for (i, a) in ids.iter().enumerate() {
        for b in &ids[i + 1..] {
            assert_ne!(a, b);
        }
    }
}

#[test]
fn the_local_socket_is_of_the_peers_family() {
    assert_eq!(bind_addr(PEER), BindAddr::AnyV4);
    assert_eq!(
        bind_addr(PeerAddr::V6 { ip: 1, port: 4532, flowinfo: 0, scope_id: 0 }),
        BindAddr::AnyV6
    );
    assert_eq!(MAX_DATAGRAM_SIZE, 16 + 1024);
    assert_eq!(DEFAULT_RESPONSE_TIMEOUT_NS, 2_000_000_000);
}
