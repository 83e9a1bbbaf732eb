use babel_nar::driver::{outputs_json, DriverAction, DriverError, DriverEvent, NalDriver, NalInput};
use babel_nar::expectation::{OutputCache, OutputExpectation, OutputSink};
use babel_nar::output::{Cmd, Output, OutputKind, TranslateError, CmdKind};
use babel_nar::session::{reader_step, writer_continues, ReadOutcome, ReaderAction};

struct Quiet;

impl OutputSink for Quiet {
    fn on_append(&mut self, _output: &Output) {}
}

fn answer_expected() -> OutputExpectation {
    OutputExpectation { output_type: Some(OutputKind::Answer), narsese: None, operation: None }
}

fn other(text: &str) -> Output {
    Output::OTHER { content: text.to_string() }
}

#[test]
fn expect_cycle_without_match_runs_two_steps() {
    let mut d = NalDriver::new(NalInput::ExpectCycle(10, 5, None, answer_expected()), false);
    let mut cache = OutputCache::new(vec![]);
    let mut inputs = 0;
    let mut action = d.step(DriverEvent::Start, &mut cache, &mut Quiet);
    loop {
        match action {
            DriverAction::Input(cmd) => {
                assert_eq!(cmd, Cmd::CYC(5));
                inputs += 1;
                action = d.step(DriverEvent::Input(Ok(())), &mut cache, &mut Quiet);
            },
            DriverAction::Drain => {
                action = d.step(DriverEvent::Drained(vec![other("nothing")]), &mut cache, &mut Quiet);
            },
            DriverAction::Done(res) => {
                assert_eq!(res, Err(DriverError::ExpectationNotFound));
                break;
            },
            other => panic!("unexpected action {other:?}"),
        }
    }
    assert_eq!(inputs, 2);
    assert_eq!(d.cycles(), 10);
    assert_eq!(cache.len(), 2);
}

#[test]
fn expect_cycle_match_after_first_step_issues_no_second() {
    let mut d = NalDriver::new(NalInput::ExpectCycle(10, 5, Some(3), answer_expected()), false);
    let mut cache = OutputCache::new(vec![]);
    assert_eq!(d.step(DriverEvent::Start, &mut cache, &mut Quiet), DriverAction::Input(Cmd::CYC(5)));
    assert_eq!(d.step(DriverEvent::Input(Ok(())), &mut cache, &mut Quiet), DriverAction::Sleep(3));
    assert_eq!(d.step(DriverEvent::Slept, &mut cache, &mut Quiet), DriverAction::Drain);
    let found = Output::ANSWER { content_raw: "Answer: x".to_string(), narsese: None };
    assert_eq!(
        d.step(DriverEvent::Drained(vec![other("a"), found]), &mut cache, &mut Quiet),
        DriverAction::Done(Ok(()))
    );
    assert_eq!(d.cycles(), 5);
}

#[test]
fn expect_cycle_with_zero_maximum_fails_at_once() {
    let mut d = NalDriver::new(NalInput::ExpectCycle(0, 5, None, answer_expected()), false);
    let mut cache = OutputCache::new(vec![]);
    assert_eq!(
        d.step(DriverEvent::Start, &mut cache, &mut Quiet),
        DriverAction::Done(Err(DriverError::ExpectationNotFound))
    );
}

#[test]
fn expect_cycle_step_counts_round_up() {
    let mut d = NalDriver::new(NalInput::ExpectCycle(11, 5, None, answer_expected()), false);
    let mut cache = OutputCache::new(vec![]);
    let mut inputs = 0;
    let mut action = d.step(DriverEvent::Start, &mut cache, &mut Quiet);
    while let DriverAction::Input(_) = action {
        inputs += 1;
        action = d.step(DriverEvent::Input(Ok(())), &mut cache, &mut Quiet);
        assert_eq!(action, DriverAction::Drain);
        action = d.step(DriverEvent::Drained(vec![]), &mut cache, &mut Quiet);
    }
    assert_eq!(inputs, 3);
    assert_eq!(action, DriverAction::Done(Err(DriverError::ExpectationNotFound)));
}

#[test]
fn expect_contains_scans_history() {
    let mut cache = OutputCache::new(vec![Output::ANSWER {
        content_raw: "Answer: old".to_string(),
        narsese: None,
    }]);
    let mut d = NalDriver::new(NalInput::ExpectContains(answer_expected()), false);
    assert_eq!(d.step(DriverEvent::Start, &mut cache, &mut Quiet), DriverAction::Drain);
    assert_eq!(d.step(DriverEvent::Drained(vec![]), &mut cache, &mut Quiet), DriverAction::Done(Ok(())));
    let mut empty = OutputCache::new(vec![]);
    let mut d = NalDriver::new(NalInput::ExpectContains(answer_expected()), false);
    d.step(DriverEvent::Start, &mut empty, &mut Quiet);
    assert_eq!(
        d.step(DriverEvent::Drained(vec![other("x")]), &mut empty, &mut Quiet),
        DriverAction::Done(Err(DriverError::ExpectationNotFound))
    );
}

#[test]
fn await_fetches_until_match_and_caches_all() {
    let mut cache = OutputCache::new(vec![]);
    let mut d = NalDriver::new(NalInput::Await(answer_expected()), false);
    assert_eq!(d.step(DriverEvent::Start, &mut cache, &mut Quiet), DriverAction::Fetch);
    assert_eq!(d.step(DriverEvent::Fetched(other("1")), &mut cache, &mut Quiet), DriverAction::Fetch);
    assert_eq!(d.step(DriverEvent::Fetched(other("2")), &mut cache, &mut Quiet), DriverAction::Fetch);
    let a = Output::ANSWER { content_raw: "Answer: 3".to_string(), narsese: None };
    assert_eq!(d.step(DriverEvent::Fetched(a), &mut cache, &mut Quiet), DriverAction::Done(Ok(())));
    assert_eq!(cache.len(), 3);
}

#[test]
fn lines_enter_the_cache_in_order() {
    for n in 0..5usize {
        let lines: Vec<Output> = (0..n).map(|i| other(&format!("L{i}"))).collect();
        let mut cache = OutputCache::new(vec![]);
        let mut d = NalDriver::new(NalInput::ExpectContains(answer_expected()), false);
        d.step(DriverEvent::Start, &mut cache, &mut Quiet);
        d.step(DriverEvent::Drained(lines), &mut cache, &mut Quiet);
        let texts: Vec<String> =
            cache.borrow_inner().iter().map(|o| o.raw_content().clone()).collect();
        let expected: Vec<String> = (0..n).map(|i| format!("L{i}")).collect();
        assert_eq!(texts, expected);
    }
}

#[test]
fn put_sleep_and_errors() {
    let mut cache = OutputCache::new(vec![]);
    let mut d = NalDriver::new(NalInput::Put(Cmd::VOL(0)), false);
    assert_eq!(d.step(DriverEvent::Start, &mut cache, &mut Quiet), DriverAction::Input(Cmd::VOL(0)));
    let failure = Err(DriverError::Translate(TranslateError::Unsupported(CmdKind::VOL)));
    assert_eq!(
        d.step(DriverEvent::Input(failure), &mut cache, &mut Quiet),
        DriverAction::Done(Err(DriverError::Translate(TranslateError::Unsupported(CmdKind::VOL))))
    );
    let mut d = NalDriver::new(NalInput::Sleep(20), false);
    assert_eq!(d.step(DriverEvent::Start, &mut cache, &mut Quiet), DriverAction::Sleep(20));
    assert_eq!(d.step(DriverEvent::Slept, &mut cache, &mut Quiet), DriverAction::Done(Ok(())));
    let mut d = NalDriver::new(NalInput::Sleep(20), false);
    assert_eq!(
        d.step(DriverEvent::Fetched(other("x")), &mut cache, &mut Quiet),
        DriverAction::Done(Err(DriverError::UnexpectedEvent))
    );
}

#[test]
fn save_outputs_directive() {
    let mut cache = OutputCache::new(vec![]);
    let mut d = NalDriver::new(NalInput::SaveOutputs("out.json".to_string()), false);
    assert_eq!(
        d.step(DriverEvent::Start, &mut cache, &mut Quiet),
        DriverAction::Save("out.json".to_string())
    );
    assert_eq!(
        d.step(DriverEvent::Saved(Err("denied".to_string())), &mut cache, &mut Quiet),
        DriverAction::Done(Err(DriverError::Io("denied".to_string())))
    );
}

#[test]
fn terminate_directive() {
    let mut cache = OutputCache::new(vec![]);
    let mut d = NalDriver::new(NalInput::Terminate { if_not_user: true, result: Ok(()) }, true);
    assert_eq!(d.step(DriverEvent::Start, &mut cache, &mut Quiet), DriverAction::Done(Ok(())));
    let mut d = NalDriver::new(
        NalInput::Terminate { if_not_user: true, result: Err("failed".to_string()) },
        false,
    );
    assert_eq!(d.step(DriverEvent::Start, &mut cache, &mut Quiet), DriverAction::Terminate);
    assert_eq!(
        d.step(DriverEvent::Terminated(Ok(())), &mut cache, &mut Quiet),
        DriverAction::Done(Err(DriverError::Failed("failed".to_string())))
    );
    let mut d = NalDriver::new(NalInput::Terminate { if_not_user: false, result: Ok(()) }, true);
    assert_eq!(d.step(DriverEvent::Start, &mut cache, &mut Quiet), DriverAction::Terminate);
    assert_eq!(d.step(DriverEvent::Terminated(Ok(())), &mut cache, &mut Quiet), DriverAction::Done(Ok(())));
}

#[test]
fn saved_outputs_reload_in_order() {
    for n in 0..4usize {
        let items: Vec<String> = (0..n)
            .map(|i| format!("{{\"type\":\"OTHER\",\"content\":\"line {i}\"}}"))
            .collect();
        let text = outputs_json(&items);
        let value: serde_json::Value = serde_json::from_str(&text).expect("valid JSON");
        let array = value.as_array().expect("an array");
        assert_eq!(array.len(), n);
        for (i, v) in array.iter().enumerate() {
            assert_eq!(v["type"], "OTHER");
            assert_eq!(v["content"], format!("line {i}"));
        }
    }
}

#[test]
fn saved_outputs_layout() {
    assert_eq!(outputs_json(&vec![]), "[\n]");
    assert_eq!(outputs_json(&vec!["1".to_string(), "2".to_string()]), "[\n\t1,\n\t2\n]");
}

#[test]
fn reader_pump_decisions() {
    assert_eq!(
        reader_step(ReadOutcome::Line("x\n".to_string()), false),
        ReaderAction::Forward("x\n".to_string())
    );
    assert_eq!(reader_step(ReadOutcome::EndOfStream, false), ReaderAction::WaitForData);
    assert_eq!(reader_step(ReadOutcome::EndOfStream, true), ReaderAction::Stop);
    assert_eq!(reader_step(ReadOutcome::Failed("e".to_string()), false), ReaderAction::Stop);
    assert!(writer_continues(false));
    assert!(!writer_continues(true));
}
