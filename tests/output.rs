use std::ops::ControlFlow;
use babel_nar::expectation::{term_equal, OutputCache, OutputExpectation, OutputSink};
use babel_nar::output::{
    classify, classify_header, decimal_string, default_input_translate, default_output_translate,
    header, input_translate, output_translate, Cmd, CmdKind, Operation, Output, OutputKind,
    TranslateError,
};
use babel_nar::runtime::{CommandVm, CommandVmRuntime, Dialect};
use babel_nar::term::Term;

struct Recorder {
    seen: Vec<String>,
}

impl OutputSink for Recorder {
    fn on_append(&mut self, output: &Output) {
        self.seen.push(output.raw_content().clone());
    }
}

fn atom(name: &str) -> Term {
    Term::Atom { prefix: String::new(), name: name.to_string() }
}

#[test]
fn classify_examples() {
    assert_eq!(classify("answer: <A --> B>."), OutputKind::Answer);
    assert_eq!(classify("random text"), OutputKind::Other);
    assert_eq!(classify("Answer: <A --> C>. creationTime=2"), OutputKind::Answer);
    assert_eq!(classify("Derived: <A --> C>."), OutputKind::Out);
    assert_eq!(classify("INPUT: <A --> B>."), OutputKind::In);
    assert_eq!(classify("EXE: ^left"), OutputKind::Exe);
    assert_eq!(classify("err: bad"), OutputKind::Error);
    assert_eq!(classify("Error: bad"), OutputKind::Error);
    assert_eq!(classify("answers: x"), OutputKind::Other);
    assert_eq!(classify(""), OutputKind::Other);
}

#[test]
fn classify_header_is_exact() {
    assert_eq!(classify_header("answer"), OutputKind::Answer);
    assert_eq!(classify_header("derived"), OutputKind::Out);
    assert_eq!(classify_header("input"), OutputKind::In);
    assert_eq!(classify_header("exe"), OutputKind::Exe);
    assert_eq!(classify_header("err"), OutputKind::Error);
    assert_eq!(classify_header("error"), OutputKind::Error);
    assert_eq!(classify_header("Answer"), OutputKind::Other);
    assert_eq!(classify_header(""), OutputKind::Other);
}

#[test]
fn header_is_text_before_first_colon() {
    assert_eq!(header("a:b:c"), "a");
    assert_eq!(header("no colon"), "");
    assert_eq!(header(":x"), "");
}

#[test]
fn ona_output_translation() {
    let o = output_translate("Answer: <A --> C>.".to_string()).unwrap();
    assert_eq!(o, Output::ANSWER { content_raw: "Answer: <A --> C>.".to_string(), narsese: None });
    let o = output_translate("EXE: ^left executed".to_string()).unwrap();
    assert_eq!(
        o,
        Output::EXE {
            content_raw: "EXE: ^left executed".to_string(),
            operation: Operation { operator_name: "UNKNOWN".to_string(), params: vec![] },
        }
    );
    let o = output_translate("ERROR: x".to_string()).unwrap();
    assert_eq!(o, Output::ERROR { description: "ERROR: x".to_string() });
    let o = output_translate("Input: <A --> B>.".to_string()).unwrap();
    assert_eq!(o, Output::IN { content: "Input: <A --> B>.".to_string() });
    let o = output_translate("Derived: <A --> B>.".to_string()).unwrap();
    assert_eq!(o, Output::OUT { content_raw: "Derived: <A --> B>.".to_string(), narsese: None });
    let o = output_translate("performing 5 inference steps".to_string()).unwrap();
    assert_eq!(o, Output::OTHER { content: "performing 5 inference steps".to_string() });
}

#[test]
fn ona_input_translation() {
    assert_eq!(input_translate(Cmd::NSE("<A --> B>.".to_string())), Ok("<A --> B>.".to_string()));
    assert_eq!(input_translate(Cmd::CYC(5)), Ok("5".to_string()));
    assert_eq!(input_translate(Cmd::CYC(120)), Ok("120".to_string()));
    assert_eq!(input_translate(Cmd::VOL(0)), Ok("*volume=0".to_string()));
    assert_eq!(
        input_translate(Cmd::SAV { target: "memory".to_string(), path: "m.txt".to_string() }),
        Err(TranslateError::Unsupported(CmdKind::SAV))
    );
    assert_eq!(
        input_translate(Cmd::REM { comment: "x".to_string() }),
        Err(TranslateError::Unsupported(CmdKind::REM))
    );
    assert_eq!(
        input_translate(Cmd::Custom { head: "X".to_string(), tail: "y".to_string() }),
        Err(TranslateError::Unsupported(CmdKind::Custom))
    );
}

#[test]
fn default_translators() {
    assert_eq!(default_input_translate(Cmd::CYC(12)), Ok("CYC 12".to_string()));
    assert_eq!(
        default_input_translate(Cmd::SAV { target: "m".to_string(), path: "p".to_string() }),
        Ok("SAV m p".to_string())
    );
    assert_eq!(
        default_input_translate(Cmd::NSE("<A --> B>.".to_string())),
        Ok("NSE <A --> B>.".to_string())
    );
    assert_eq!(
        default_output_translate("Answer: x".to_string()),
        Ok(Output::OTHER { content: "Answer: x".to_string() })
    );
}

#[test]
fn decimal_rendering() {
    assert_eq!(decimal_string(0), "0");
    assert_eq!(decimal_string(7), "7");
    assert_eq!(decimal_string(1234), "1234");
    assert_eq!(decimal_string(usize::MAX), usize::MAX.to_string());
}

#[test]
fn runtime_lines_and_termination() {
    let vm = CommandVm::new("engine".to_string())
        .arg("shell".to_string())
        .input_translator(Dialect::Ona)
        .output_translator(Dialect::Ona);
    assert_eq!(vm.args, vec!["shell".to_string()]);
    let mut rt = CommandVmRuntime::launch(vm);
    assert_eq!(rt.input_cmd(Cmd::CYC(3)), Ok("3\n".to_string()));
    assert_eq!(
        rt.input_cmd(Cmd::RES { target: "x".to_string() }),
        Err(TranslateError::Unsupported(CmdKind::RES))
    );
    assert_eq!(rt.fetch_output(None), Ok(None));
    assert_eq!(
        rt.fetch_output(Some("Answer: yes".to_string())),
        Ok(Some(Output::ANSWER { content_raw: "Answer: yes".to_string(), narsese: None }))
    );
    rt.terminate();
    assert!(rt.terminated());
    let first = rt.fetch_output(Some("Answer: late".to_string())).unwrap().unwrap();
    assert_eq!(first.kind(), OutputKind::Terminated);
    assert_eq!(rt.fetch_output(None), Ok(None));
}

#[test]
fn default_runtime_renders_uniform_commands() {
    let mut rt = CommandVmRuntime::launch(CommandVm::new("engine".to_string()));
    assert_eq!(rt.input_cmd(Cmd::VOL(4)), Ok("VOL 4\n".to_string()));
    assert_eq!(
        rt.fetch_output(Some("Answer: x".to_string())),
        Ok(Some(Output::OTHER { content: "Answer: x".to_string() }))
    );
}

#[test]
fn expectation_matching() {
    let answer = Output::ANSWER {
        content_raw: "Answer: A.".to_string(),
        narsese: Some(atom("A")),
    };
    let by_kind = OutputExpectation {
        output_type: Some(OutputKind::Answer),
        narsese: None,
        operation: None,
    };
    assert!(by_kind.matches(&answer));
    let by_term = OutputExpectation { output_type: None, narsese: Some(atom("A")), operation: None };
    assert!(by_term.matches(&answer));
    let other_term =
        OutputExpectation { output_type: None, narsese: Some(atom("B")), operation: None };
    assert!(!other_term.matches(&answer));
    let wrong_kind =
        OutputExpectation { output_type: Some(OutputKind::Out), narsese: None, operation: None };
    assert!(!wrong_kind.matches(&answer));
    let exe = Output::EXE {
        content_raw: "EXE: ^left".to_string(),
        operation: Operation { operator_name: "left".to_string(), params: vec![atom("SELF")] },
    };
    let by_op = OutputExpectation {
        output_type: None,
        narsese: None,
        operation: Some(Operation { operator_name: "left".to_string(), params: vec![atom("SELF")] }),
    };
    assert!(by_op.matches(&exe));
    assert!(!by_op.matches(&answer));
    let wildcard = OutputExpectation { output_type: None, narsese: None, operation: None };
    assert!(wildcard.matches(&exe));
}

#[test]
fn structural_term_equality() {
    let a = Term::Compound { connecter: "*".to_string(), terms: vec![atom("x"), atom("y")] };
    let b = Term::Compound { connecter: "*".to_string(), terms: vec![atom("x"), atom("y")] };
    let c = Term::Compound { connecter: "*".to_string(), terms: vec![atom("y"), atom("x")] };
    assert!(term_equal(&a, &b));
    assert!(!term_equal(&a, &c));
    assert!(!term_equal(&a, &atom("x")));
}

#[test]
fn cache_keeps_order_and_shows_each_event() {
    let mut cache = OutputCache::new(vec![]);
    let mut sink = Recorder { seen: vec![] };
    cache.put(Output::OTHER { content: "L1".to_string() }, &mut sink);
    cache.put_all(
        vec![
            Output::OTHER { content: "L2".to_string() },
            Output::OTHER { content: "L3".to_string() },
        ],
        &mut sink,
    );
    cache.put_silent(Output::OTHER { content: "L4".to_string() });
    let texts: Vec<String> = cache.borrow_inner().iter().map(|o| o.raw_content().clone()).collect();
    assert_eq!(texts, vec!["L1", "L2", "L3", "L4"]);
    assert_eq!(sink.seen, vec!["L1", "L2", "L3"]);
    assert_eq!(cache.len(), 4);
    let e = OutputExpectation { output_type: Some(OutputKind::Other), narsese: None, operation: None };
    assert_eq!(cache.first_match(&e), Some(0));
    let none = OutputExpectation { output_type: Some(OutputKind::Answer), narsese: None, operation: None };
    assert_eq!(cache.first_match(&none), None);
}

#[test]
fn for_each_stops_at_first_break() {
    let cache = OutputCache::new(vec![
        Output::OTHER { content: "a".to_string() },
        Output::ANSWER { content_raw: "b".to_string(), narsese: None },
        Output::ANSWER { content_raw: "c".to_string(), narsese: None },
    ]);
    let first_answer = cache.for_each(|o| match o.kind() {
        OutputKind::Answer => ControlFlow::Break(o.raw_content().clone()),
        _ => ControlFlow::Continue(()),
    });
    assert_eq!(first_answer, Some("b".to_string()));
    let none: Option<()> = cache.for_each(|_| ControlFlow::Continue(()));
    assert_eq!(none, None);
}

#[test]
fn cache_default_and_mutable_borrow() {
    let mut cache = OutputCache::default();
    assert_eq!(cache.len(), 0);
    cache.borrow_inner_mut().push(Output::OTHER { content: "x".to_string() });
    assert_eq!(cache.len(), 1);
    assert_eq!(cache.borrow_inner()[0], Output::OTHER { content: "x".to_string() });
}
