use radio_cat::serial::pin_test::after_run;
use radio_cat::serial::pin_test::checks;
use radio_cat::serial::pin_test::open_failure;
use radio_cat::serial::pin_test::parse_args;
use radio_cat::serial::pin_test::pin_test_config;
use radio_cat::serial::pin_test::print_result;
use radio_cat::serial::pin_test::run_title;
use radio_cat::serial::pin_test::tally;
use radio_cat::serial::pin_test::usage;
use radio_cat::serial::pin_test::CheckKind;
use radio_cat::serial::pin_test::Loopback;
use radio_cat::serial::pin_test::LoopbackAction;
use radio_cat::serial::pin_test::LoopbackEvent;
use radio_cat::serial::pin_test::ModemAction;
use radio_cat::serial::pin_test::ModemCheck;
use radio_cat::serial::pin_test::ModemEvent;
use radio_cat::serial::pin_test::NextRun;
use radio_cat::serial::pin_test::Outcome;
use radio_cat::serial::pin_test::ParsedArgs;
use radio_cat::serial::pin_test::TestResult;

/// A line whose far end sees what `sees` makes of the near end.
fn modem(warn_only: bool, sees: fn(bool) -> bool) -> Outcome {
    let (mut check, mut action) = ModemCheck::begin(warn_only);
    let mut driven = true;
    loop {
        let event = match action {
            ModemAction::Drive(level) => {
                driven = level;
                ModemEvent::Driven
            }
            ModemAction::ReadLevel => ModemEvent::Level(sees(driven)),
            ModemAction::Conclude(outcome) => return outcome,
            ModemAction::Nothing => panic!("the check was over"),
        };
        action = check.step(event);
    }
}

#[test]
fn an_intact_line_passes() {
    assert_eq!(modem(false, |level| level), Outcome::Pass);
    assert_eq!(modem(true, |level| level), Outcome::Pass);
}

#[test]
fn a_line_that_is_always_up_fails_its_baseline() {
    assert_eq!(
        modem(false, |_| true),
        Outcome::Fail("baseline check failed: line already asserted".to_string())
    );
}

#[test]
fn a_line_that_never_answers_is_only_a_warning_where_it_is_optional() {
    assert_eq!(
        modem(false, |_| false),
        Outcome::Fail("no response -- line not asserted after set".to_string())
    );
    assert_eq!(
        modem(true, |_| false),
        Outcome::Warn(
            "no response -- line not asserted after set -- not required by every radio's cabling convention"
                .to_string()
        )
    );
}

#[test]
fn every_failed_call_of_a_line_check_is_named() {
    let texts = [
        "clear (baseline) failed: x",
        "read (baseline) failed: x",
        "set failed: x",
        "read (after set) failed: x",
        "clear (after test) failed: x",
        "read (after clear) failed: x",
    ];
    for (fails_at, text) in texts.iter().enumerate() {
        let (mut check, _) = ModemCheck::begin(false);
        let intact = [
            ModemEvent::Driven,
            ModemEvent::Level(false),
            ModemEvent::Driven,
            ModemEvent::Level(true),
            ModemEvent::Driven,
            ModemEvent::Level(false),
        ];
        let mut last = ModemAction::Nothing;
        for (i, event) in intact.into_iter().enumerate() {
            if i == fails_at {
                last = check.step(ModemEvent::Failed("x".to_string()));
                break;
            }
            last = check.step(event);
        }
        assert_eq!(last, ModemAction::Conclude(Outcome::Fail(text.to_string())));
    }
}

#[test]
fn a_line_that_stays_up_fails() {
    let (mut check, _) = ModemCheck::begin(false);
    check.step(ModemEvent::Driven);
    check.step(ModemEvent::Level(false));
    check.step(ModemEvent::Driven);
    check.step(ModemEvent::Level(true));
    check.step(ModemEvent::Driven);
    assert_eq!(
        check.step(ModemEvent::Level(true)),
        ModemAction::Conclude(Outcome::Fail("line still asserted after clearing".to_string()))
    );
    assert_eq!(check.step(ModemEvent::Level(true)), ModemAction::Nothing);
}

#[test]
fn two_bytes_have_to_come_back() {
    let (mut check, first) = Loopback::begin();
    assert_eq!(first, LoopbackAction::Write(vec![0xAA, 0x55]));
    assert_eq!(check.step(LoopbackEvent::Written), LoopbackAction::Flush);
    assert_eq!(check.step(LoopbackEvent::Flushed), LoopbackAction::Read(2));
    assert_eq!(check.step(LoopbackEvent::Received(vec![0xAA])), LoopbackAction::Read(1));
    assert_eq!(
        check.step(LoopbackEvent::Received(vec![0x55])),
        LoopbackAction::Conclude(Outcome::Pass)
    );
}

#[test]
fn bytes_that_changed_on_the_way_are_shown() {
    let (mut check, _) = Loopback::begin();
    check.step(LoopbackEvent::Written);
    check.step(LoopbackEvent::Flushed);
    assert_eq!(
        check.step(LoopbackEvent::Received(vec![0xAA, 0x54])),
        LoopbackAction::Conclude(Outcome::Fail(
            "data mismatch: sent [AA, 55], got [AA, 54]".to_string()
        ))
    );
}

#[test]
fn every_failed_call_of_a_data_check_is_named() {
    let (mut check, _) = Loopback::begin();
    assert_eq!(
        check.step(LoopbackEvent::Failed("x".to_string())),
        LoopbackAction::Conclude(Outcome::Fail("write failed: x".to_string()))
    );
    let (mut check, _) = Loopback::begin();
    check.step(LoopbackEvent::Written);
    assert_eq!(
        check.step(LoopbackEvent::Failed("x".to_string())),
        LoopbackAction::Conclude(Outcome::Fail("flush failed: x".to_string()))
    );
    let (mut check, _) = Loopback::begin();
    check.step(LoopbackEvent::Written);
    check.step(LoopbackEvent::Flushed);
    assert_eq!(
        check.step(LoopbackEvent::Failed("x".to_string())),
        LoopbackAction::Conclude(Outcome::Fail("read failed (timeout or error): x".to_string()))
    );
}

#[test]
fn only_the_lines_every_cable_has_can_fail_a_run() {
    let all = checks();
    assert_eq!(all.len(), 7);
    for check in &all {
        let required = check.kind == CheckKind::Data || check.kind == CheckKind::RtsToCts;
        assert_eq!(check.warn_only, !required, "{}", check.label);
    }
    assert_eq!(all[0].label, "TXD->RXD (A->B)");
    assert_eq!(all[6].label, "DTR->DCD (A->B)");
    let config = pin_test_config();
    assert!(!config.initial_rts && !config.initial_dtr);
}

fn result(label: &str, outcome: Outcome) -> TestResult {
    TestResult { label: label.to_string(), outcome }
}

#[test]
fn a_report_is_laid_out_in_columns() {
    assert_eq!(
        print_result(&result("RTS->CTS (A->B)", Outcome::Pass)),
        vec!["  RTS->CTS (A->B)        ... PASS"]
    );
    assert_eq!(
        print_result(&result("RTS->CTS (A->B)", Outcome::Fail("why".to_string()))),
        vec!["  RTS->CTS (A->B)        ... FAIL", "      detail: why"]
    );
    assert_eq!(
        print_result(&result("DTR->DSR (A->B)", Outcome::Warn("why".to_string()))),
        vec!["  DTR->DSR (A->B)        ... WARN  (why)"]
    );
}

#[test]
fn warnings_do_not_fail_a_run() {
    let results = vec![
        result("a", Outcome::Pass),
        result("b", Outcome::Warn("w".to_string())),
        result("c", Outcome::Pass),
    ];
    let t = tally(&results);
    assert_eq!(t.summary(), "Result: 2 passed, 0 failed, 1 warnings");
    assert_eq!(t.exit_code(), 0);
    let results = vec![result("a", Outcome::Fail("f".to_string()))];
    let t = tally(&results);
    assert_eq!(t.summary(), "Result: 0 passed, 1 failed, 0 warnings");
    assert_eq!(t.exit_code(), 1);
}

fn strings(args: &[&str]) -> Vec<String> {
    args.iter().map(|s| s.to_string()).collect()
}

#[test]
fn the_command_line_takes_two_ports_and_a_count() {
    assert_eq!(
        parse_args(&strings(&["pin_test", "a", "b"])),
        Some(ParsedArgs::Ports("a".to_string(), "b".to_string()))
    );
    assert_eq!(
        parse_args(&strings(&["pin_test", "a", "b", "3"])),
        Some(ParsedArgs::PortsAndLoop("a".to_string(), "b".to_string(), "3".to_string()))
    );
    assert_eq!(parse_args(&strings(&["pin_test", "a"])), None);
    assert_eq!(
        usage("pin_test"),
        vec![
            "Usage: pin_test <source-port> <dest-port>",
            "Example: pin_test /dev/ttyUSB0 /dev/ttyUSB1  (or COM3 COM4 on Windows)"
        ]
    );
    assert_eq!(run_title("a", "b"), "Pin test: a -> b");
    assert_eq!(open_failure("a", "gone"), "error opening a: gone");
}

#[test]
fn the_first_run_that_fails_is_the_last() {
    assert_eq!(after_run(0, 2), NextRun::Again(1));
    assert_eq!(after_run(0, 0), NextRun::Exit(0));
    assert_eq!(after_run(1, 2), NextRun::Exit(1));
}
