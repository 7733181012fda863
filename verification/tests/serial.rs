use radio_cat::serial::baud::validate_baud_rate;
use radio_cat::serial::baud::SUPPORTED_BAUD_RATES;
use radio_cat::serial::config::FlowControl;
use radio_cat::serial::config::Parity;
use radio_cat::serial::config::SerialConfig;
use radio_cat::serial::dcb::comm_timeouts;
use radio_cat::serial::dcb::configure_dcb;
use radio_cat::serial::dcb::set_2bit;
use radio_cat::serial::dcb::set_bit;
use radio_cat::serial::dcb::Dcb;
use radio_cat::serial::error::IoKind;
use radio_cat::serial::error::ResponseDisposition;
use radio_cat::serial::error::SerialError;
use radio_cat::serial::error::TransportError;
use radio_cat::serial::oneshot::channel;
use radio_cat::serial::oneshot::Canceled;
use radio_cat::serial::oneshot::Polled;
use radio_cat::serial::port::device_path;
use radio_cat::serial::port::map_create_file_error;
use radio_cat::serial::port::modem_status_bit;
use radio_cat::serial::port::next_open_step;
use radio_cat::serial::port::worker_gone_error;
use radio_cat::serial::port::worker_read;
use radio_cat::serial::port::worker_write;
use radio_cat::serial::port::OpenStep;
use radio_cat::serial::session::Action;
use radio_cat::serial::session::Event;
use radio_cat::serial::session::AsciiLineFormat;
use radio_cat::serial::session::EndByteFormat;
use radio_cat::serial::session::FrameScanner;
use radio_cat::serial::session::SendAction;
use radio_cat::serial::session::SendEvent;
use radio_cat::serial::session::SerialCatSession;
use std::collections::VecDeque;

#[test]
fn accepts_every_supported_rate() {
    for rate in SUPPORTED_BAUD_RATES {
        assert_eq!(validate_baud_rate(rate).unwrap(), rate);
    }
}

#[test]
fn rejects_unsupported_rate() {
    let err = validate_baud_rate(12345).expect_err("12345 is not a supported rate");
    assert!(matches!(err, SerialError::InvalidConfig(_)));
    assert_eq!(err.message(), "Invalid configuration: Unsupported baud rate: 12345");
}

#[test]
fn poll_before_send_returns_pending_and_registers_waker() {
    let (tx, mut rx) = channel::<u32, &str>();

    let first_poll = rx.poll("task");
    assert!(matches!(first_poll, Polled::Pending), "expected Pending, got {first_poll:?}");

    let woken = tx.send(&mut rx, 7);
    assert_eq!(woken, Some("task"), "the waker registered by the Pending poll must fire on send");

    match rx.poll("task") {
        Polled::Ready(Ok(value)) => assert_eq!(value, 7),
        other => panic!("expected Ready(Ok(7)) after send, got {other:?}"),
    }
}

#[test]
fn send_before_first_poll_resolves_immediately() {
    let (tx, mut rx) = channel::<&str, u8>();
    assert_eq!(tx.send(&mut rx, "ready"), None);
    assert_eq!(rx.poll(0), Polled::Ready(Ok("ready")));
}

#[test]
fn dropping_sender_before_send_resolves_to_canceled_not_hang() {
    let (tx, mut rx) = channel::<u32, u8>();
    assert_eq!(rx.poll(9), Polled::Pending);
    assert_eq!(tx.cancel(&mut rx), Some(9));
    assert_eq!(rx.poll(9), Polled::Ready(Err(Canceled)));
    assert_eq!(rx.poll(9), Polled::Ready(Err(Canceled)), "a canceled slot never changes again");
    assert_eq!(rx.poll(10), Polled::Ready(Err(Canceled)));
}

/// A radio at the other end of the line. It answers a request when the request
/// is written, or has bytes queued from the start.
struct FakeTransport {
    writes: Vec<u8>,
    reads: VecDeque<u8>,
    script: Vec<(&'static str, &'static str)>,
    discards: usize,
    drains: usize,
    fail_write: bool,
    fail_after: Option<usize>,
    served: usize,
    endless: bool,
}

impl FakeTransport {
    fn new() -> Self {
        FakeTransport {
            writes: Vec::new(),
            reads: VecDeque::new(),
            script: Vec::new(),
            discards: 0,
            drains: 0,
            fail_write: false,
            fail_after: None,
            served: 0,
            endless: false,
        }
    }

    fn answering(script: Vec<(&'static str, &'static str)>) -> Self {
        let mut t = FakeTransport::new();
        t.script = script;
        t
    }

    fn queue(&mut self, bytes: &str) {
        self.reads.extend(bytes.as_bytes());
    }

    fn write(&mut self, data: &[u8]) -> Result<(), TransportError> {
        if self.fail_write {
            return Err(TransportError::WriteTimeout);
        }
        self.writes.extend_from_slice(data);
        for (question, answer) in &self.script {
            if question.as_bytes() == data {
                self.reads.extend(answer.as_bytes());
            }
        }
        Ok(())
    }

    fn read(&mut self) -> Event {
        if self.fail_after == Some(self.served) {
            self.fail_after = None;
            return Event::Failed(TransportError::ReadTimeout);
        }
        if self.endless {
            return Event::Byte(b'X');
        }
        match self.reads.pop_front() {
            Some(b) => {
                self.served += 1;
                Event::Byte(b)
            }
            None => Event::Eof,
        }
    }

    fn discard(&mut self) {
        self.discards += 1;
        self.reads.clear();
    }
}

fn execute<F: FrameScanner>(
    session: &mut SerialCatSession<FakeTransport, F>,
    request: &[u8],
) -> Result<(ResponseDisposition, Vec<u8>), TransportError> {
    let (mut exchange, mut action) = session.execute(Vec::new());
    loop {
        let event = match action {
            Action::Write => match session.transport.write(request) {
                Ok(()) => Event::Written,
                Err(e) => Event::Failed(e),
            },
            Action::Flush => Event::Flushed,
            Action::Read => session.transport.read(),
            Action::Finish(disposition) => return Ok((disposition, exchange.response)),
            Action::Fail(e) => return Err(e),
            Action::DiscardAndFail(e) => {
                session.transport.discard();
                return Err(e);
            }
            Action::Nothing => panic!("the exchange was over"),
        };
        action = exchange.step(&session.format, event, 0);
    }
}

fn send(
    session: &mut SerialCatSession<FakeTransport>,
    request: &[u8],
) -> Result<(), TransportError> {
    let (mut sending, mut action) = session.send();
    loop {
        let event = match action {
            SendAction::Write => match session.transport.write(request) {
                Ok(()) => SendEvent::Written,
                Err(e) => SendEvent::Failed(e),
            },
            SendAction::Flush => SendEvent::Flushed,
            SendAction::Drain => {
                session.transport.drains += 1;
                session.transport.reads.clear();
                SendEvent::Drained
            }
            SendAction::Finish => return Ok(()),
            SendAction::Fail(e) => return Err(e),
            SendAction::Nothing => panic!("the command was over"),
        };
        action = sending.step(event);
    }
}

#[test]
fn execute_writes_request_and_reads_until_terminator() {
    let mut t = FakeTransport::new();
    t.queue("FA00014250000;");
    let mut session = SerialCatSession::new(t);
    let (disposition, response) = execute(&mut session, b"FA;").unwrap();
    assert_eq!(disposition, ResponseDisposition::ResponseWritten);
    assert_eq!(response, b"FA00014250000;");
    assert_eq!(session.transport.writes, b"FA;");
}

#[test]
fn execute_stops_reading_after_first_terminator() {
    let mut t = FakeTransport::new();
    t.queue("FA00014250000;IGNORED;");
    let mut session = SerialCatSession::new(t);
    let (_, response) = execute(&mut session, b"FA;").unwrap();
    assert_eq!(response, b"FA00014250000;");
}

#[test]
fn execute_returns_no_response_on_immediate_eof() {
    let t = FakeTransport::new();
    let mut session = SerialCatSession::new(t);
    let (disposition, response) = execute(&mut session, b"FA;").unwrap();
    assert_eq!(disposition, ResponseDisposition::NoResponse);
    assert!(response.is_empty());
}

#[test]
fn send_writes_without_reading() {
    let mut t = FakeTransport::new();
    t.fail_after = Some(0);
    let mut session = SerialCatSession::new(t);
    send(&mut session, b"FA00014250000;").unwrap();
    assert_eq!(session.transport.writes, b"FA00014250000;");
    assert_eq!(session.transport.fail_after, Some(0), "send() must not read from the transport");
}

#[test]
fn propagates_transport_write_error() {
    let mut t = FakeTransport::new();
    t.fail_write = true;
    let mut session = SerialCatSession::new(t);
    assert!(matches!(execute(&mut session, b"FA;"), Err(TransportError::WriteTimeout)));
    assert!(matches!(send(&mut session, b"FA;"), Err(TransportError::WriteTimeout)));
    assert_eq!(session.transport.discards, 0);
}

#[test]
fn a_set_consumes_its_own_orphaned_answer() {
    let t = FakeTransport::answering(vec![("TX;", "?;"), ("FA;", "FA00014250000;")]);
    let mut session = SerialCatSession::new(t);
    send(&mut session, b"TX;").unwrap();
    assert_eq!(session.transport.drains, 1, "send must drain the set's possible answer");
    let (_, response) = execute(&mut session, b"FA;").unwrap();
    assert_eq!(response, b"FA00014250000;");
}

#[test]
fn execute_without_a_preceding_send_does_not_flush() {
    let t = FakeTransport::answering(vec![("FA;", "FA00014250000;")]);
    let mut session = SerialCatSession::new(t);
    let (_, response) = execute(&mut session, b"FA;").unwrap();
    assert_eq!(response, b"FA00014250000;");
    assert_eq!(session.transport.discards, 0, "a clean read path must not flush");
}

#[test]
fn a_silent_set_still_leaves_the_next_read_intact() {
    let t = FakeTransport::answering(vec![("MD;", "MD2;")]);
    let mut session = SerialCatSession::new(t);
    send(&mut session, b"FA00014250000;").unwrap();
    let (_, response) = execute(&mut session, b"MD;").unwrap();
    assert_eq!(response, b"MD2;");
}

fn mid_frame_failure() -> FakeTransport {
    let mut t = FakeTransport::new();
    t.queue("IF00014235340      000000 0002000008 ;");
    t.queue("FA00014235340;");
    t.fail_after = Some(10);
    t
}

#[test]
fn mid_frame_failure_does_not_poison_the_next_request() {
    let t = mid_frame_failure();
    let mut session = SerialCatSession::new(t);
    assert!(execute(&mut session, b"IF;").is_err());
    let got = match execute(&mut session, b"FA;") {
        Ok((_, response)) => String::from_utf8_lossy(&response).to_string(),
        Err(_) => String::new(),
    };
    assert!(!got.starts_with('0') && !got.contains("000000 0002"), "got {got:?}");
}

#[test]
fn error_path_flushes_the_receive_buffer() {
    let t = mid_frame_failure();
    let mut session = SerialCatSession::new(t);
    assert!(matches!(execute(&mut session, b"IF;"), Err(TransportError::ReadTimeout)));
    assert!(session.transport.discards > 0);
}

#[test]
fn a_frame_that_never_terminates_is_bounded() {
    let mut t = FakeTransport::new();
    t.endless = true;
    let mut session = SerialCatSession::new(t);
    match execute(&mut session, b"IF;") {
        Err(TransportError::Other(why)) => {
            assert_eq!(why, "response exceeded 64 bytes with no terminator")
        }
        other => panic!("an unterminated frame must be bounded: {other:?}"),
    }
}

#[test]
fn a_frame_past_its_deadline_times_out() {
    let (mut exchange, _) = SerialCatSession::new(()).execute(Vec::new());
    assert_eq!(exchange.step(&AsciiLineFormat, Event::Written, 0), Action::Flush);
    assert_eq!(exchange.step(&AsciiLineFormat, Event::Flushed, 1_000), Action::Read);
    assert_eq!(exchange.step(&AsciiLineFormat, Event::Byte(b'F'), 2_999), Action::Read);
    assert_eq!(
        exchange.step(&AsciiLineFormat, Event::Byte(b'A'), 3_000),
        Action::DiscardAndFail(TransportError::ReadTimeout)
    );
    assert!(exchange.response.is_empty());
    assert_eq!(exchange.step(&AsciiLineFormat, Event::Byte(b';'), 3_000), Action::Nothing);
}

#[test]
fn a_binary_frame_ends_with_its_own_byte() {
    let mut t = FakeTransport::new();
    t.reads.extend([0xfe, 0xfe, 0x3b, 0xfd, 0x00]);
    let mut session = SerialCatSession::with_format(t, EndByteFormat { end: 0xfd });
    let (_, response) = execute(&mut session, &[0xfe]).unwrap();
    assert_eq!(response, [0xfe, 0xfe, 0x3b, 0xfd]);
}

#[test]
fn the_default_configuration_leaves_dtr_low() {
    let config = SerialConfig::default();
    assert_eq!(config.baud_rate, 9600);
    assert_eq!(config.data_bits, 8);
    assert_eq!(config.stop_bits, 2);
    assert_eq!(config.parity, Parity::NoParity);
    assert_eq!(config.flow_control, FlowControl::NoFlowControl);
    assert!(config.initial_rts);
    assert!(!config.initial_dtr);
}

fn blank_dcb(bitfield: u32) -> Dcb {
    Dcb { baud_rate: 0, byte_size: 0, stop_bits: 0, parity: 0, bitfield, xon_char: 0, xoff_char: 0 }
}

#[test]
fn the_default_block_is_binary_with_both_lines_under_control() {
    let mut dcb = blank_dcb(0);
    assert!(configure_dcb(&mut dcb, &SerialConfig::default()).is_ok());
    assert_eq!(dcb.baud_rate, 9600);
    assert_eq!(dcb.byte_size, 8);
    assert_eq!(dcb.stop_bits, 2);
    assert_eq!(dcb.parity, 0);
    assert_eq!(dcb.bitfield, 0x1 | 0x10 | 0x1000);
    assert_eq!(dcb.xon_char, 0x11);
    assert_eq!(dcb.xoff_char, 0x13);
}

#[test]
fn every_packed_field_follows_the_configuration() {
    let mut config = SerialConfig::default();
    config.parity = Parity::Even;
    config.flow_control = FlowControl::Hardware;
    config.data_bits = 7;
    config.stop_bits = 1;
    let mut dcb = blank_dcb(0xffff_ffff);
    assert!(configure_dcb(&mut dcb, &config).is_ok());
    assert_eq!(dcb.byte_size, 7);
    assert_eq!(dcb.stop_bits, 0);
    assert_eq!(dcb.parity, 2);
    assert_eq!(dcb.bitfield & 0x7fff, 0x1 | 0x2 | 0x4 | 0x10 | 0x2000);
    assert_eq!(dcb.bitfield >> 15, 0xffff_ffff >> 15);

    config.parity = Parity::Odd;
    config.flow_control = FlowControl::Software;
    let mut dcb = blank_dcb(0);
    assert!(configure_dcb(&mut dcb, &config).is_ok());
    assert_eq!(dcb.parity, 1);
    assert_eq!(dcb.bitfield, 0x1 | 0x2 | 0x10 | 0x100 | 0x200 | 0x1000);
}

#[test]
fn a_rate_that_is_refused_leaves_the_block_alone() {
    let mut config = SerialConfig::default();
    config.baud_rate = 300;
    let mut dcb = blank_dcb(0x55);
    match configure_dcb(&mut dcb, &config) {
        Err(SerialError::InvalidConfig(why)) => assert_eq!(why, "Unsupported baud rate: 300"),
        other => panic!("{other:?}"),
    }
    assert_eq!(dcb, blank_dcb(0x55));
}

#[test]
fn a_field_is_set_without_touching_its_neighbours() {
    let mut word = 0xffff_ffffu32;
    set_2bit(&mut word, 12, 2);
    assert_eq!(word, 0xffff_efff);
    set_bit(&mut word, 0x8, false);
    assert_eq!(word, 0xffff_eff7);
    set_bit(&mut word, 0x8, true);
    assert_eq!(word, 0xffff_efff);
}

#[test]
fn the_driver_waits_as_long_as_a_read_does() {
    let t = comm_timeouts();
    assert_eq!(t.read_total_constant, 2000);
    assert_eq!(t.write_total_constant, 5000);
    assert_eq!((t.read_interval, t.read_total_multiplier, t.write_total_multiplier), (0, 0, 0));
}

#[test]
fn a_device_name_gets_its_prefix_once() {
    assert_eq!(device_path("COM3"), "\\\\.\\COM3");
    assert_eq!(device_path("\\\\.\\COM12"), "\\\\.\\COM12");
}

#[test]
fn a_failed_open_names_its_reason() {
    assert_eq!(map_create_file_error(2, "COM3", "x").message(), "Device not found: COM3");
    assert_eq!(map_create_file_error(3, "COM3", "x").message(), "Device not found: COM3");
    assert_eq!(map_create_file_error(5, "COM3", "x").message(), "Permission denied: COM3");
    assert_eq!(map_create_file_error(31, "COM3", "not working").message(), "IO error: not working");
}

#[test]
fn a_completed_read_hands_over_what_arrived() {
    assert_eq!(worker_read(&[1, 2, 3], 2).unwrap(), vec![1, 2]);
    assert!(matches!(worker_read(&[1, 2, 3], 0), Err(TransportError::ReadTimeout)));
    assert!(matches!(worker_write(3, 3), Ok(3)));
    assert!(matches!(worker_write(3, 2), Err(TransportError::WriteTimeout)));
    assert!(modem_status_bit(0x30, 0x10));
    assert!(!modem_status_bit(0x20, 0x10));
    match worker_gone_error() {
        TransportError::Io(failure) => {
            assert_eq!(failure.kind, IoKind::BrokenPipe);
            assert_eq!(
                failure.message,
                "cat-transport-serial: Windows worker thread is no longer running"
            );
        }
        other => panic!("{other:?}"),
    }
}

fn opening(config: &SerialConfig, fails_at: Option<OpenStep>) -> Vec<OpenStep> {
    let mut steps = vec![OpenStep::CreateFile];
    loop {
        let step = *steps.last().unwrap();
        if step == OpenStep::Opened || step == OpenStep::Failed {
            return steps;
        }
        steps.push(next_open_step(step, fails_at != Some(step), config));
    }
}

#[test]
fn opening_raises_only_the_lines_that_were_asked_for() {
    let config = SerialConfig::default();
    assert_eq!(
        opening(&config, None),
        vec![
            OpenStep::CreateFile,
            OpenStep::Configure,
            OpenStep::SetTimeouts,
            OpenStep::StartWorker,
            OpenStep::AssertRts,
            OpenStep::Opened
        ]
    );
    let mut both = config;
    both.initial_dtr = true;
    assert!(opening(&both, None).contains(&OpenStep::AssertDtr));
    let mut neither = config;
    neither.initial_rts = false;
    assert!(!opening(&neither, None).contains(&OpenStep::AssertRts));
}

#[test]
fn an_opening_that_fails_closes_its_handle() {
    let config = SerialConfig::default();
    assert_eq!(
        opening(&config, Some(OpenStep::Configure)),
        vec![OpenStep::CreateFile, OpenStep::Configure, OpenStep::CloseHandle, OpenStep::Failed]
    );
    assert_eq!(
        opening(&config, Some(OpenStep::CreateFile)),
        vec![OpenStep::CreateFile, OpenStep::Failed]
    );
}
