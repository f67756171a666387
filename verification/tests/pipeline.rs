use textops::error::OperationError;
use textops::ops::Operation;
use textops::pipeline::{parse_line, pipeline_run, Command, CommandChannel, LineOutcome};

fn lines(raw: &[&str]) -> Vec<String> {
    raw.iter().map(|s| String::from(*s)).collect()
}

#[test]
fn parse_line_builds_a_command() {
    match parse_line("uppercase hello world") {
        LineOutcome::Parsed(cmd) => {
            assert_eq!(cmd.operation, Operation::UpperCase);
            assert_eq!(cmd.input, "hello world");
        }
        _ => panic!("a well-formed line must parse"),
    }
}

#[test]
fn parse_line_collapses_payload_whitespace() {
    match parse_line("slugify  Hello,   World!") {
        LineOutcome::Parsed(cmd) => {
            assert_eq!(cmd.operation, Operation::Slugify);
            assert_eq!(cmd.input, "Hello, World!");
        }
        _ => panic!("a well-formed line must parse"),
    }
}

#[test]
fn parse_line_accepts_tabs_and_newline() {
    match parse_line("uppercase\thello x\n") {
        LineOutcome::Parsed(cmd) => {
            assert_eq!(cmd.operation, Operation::UpperCase);
            assert_eq!(cmd.input, "hello x");
        }
        _ => panic!("a well-formed line must parse"),
    }
}

#[test]
fn parse_line_skips_blank_lines_silently() {
    assert!(matches!(parse_line(""), LineOutcome::Blank));
    assert!(matches!(parse_line("   \t  \n"), LineOutcome::Blank));
}

#[test]
fn parse_line_reports_a_missing_payload() {
    assert!(matches!(parse_line("uppercase"), LineOutcome::MissingPayload));
    assert!(matches!(parse_line("  uppercase  \n"), LineOutcome::MissingPayload));
}

#[test]
fn parse_line_reports_an_unknown_operation() {
    match parse_line("bogus foo") {
        LineOutcome::Unknown(e) => {
            assert_eq!(e, OperationError::UnknownOperation(String::from("bogus")));
            assert!(e.message().contains("bogus"));
        }
        _ => panic!("an unknown operation must be reported"),
    }
}

#[test]
fn channel_is_first_in_first_out() {
    let mut chan = CommandChannel::new();
    for tag in ["t1", "t2", "t3"] {
        chan.send(Command { operation: Operation::UpperCase, input: String::from(tag) });
    }
    assert_eq!(chan.len(), 3);
    let mut seen: Vec<String> = Vec::new();
    while let Some(cmd) = chan.recv() {
        seen.push(cmd.input);
    }
    assert_eq!(seen.len(), 3);
    assert_eq!(seen[0], "t1");
    assert_eq!(seen[1], "t2");
    assert_eq!(seen[2], "t3");
}

#[test]
fn pipeline_preserves_the_order_sent() {
    let input = lines(&[
        "uppercase tag1",
        "uppercase tag2",
        "uppercase tag3",
        "uppercase tag4",
    ]);
    let outputs = pipeline_run(&input);
    assert_eq!(outputs.len(), 4);
    for (i, (announce, result)) in outputs.iter().enumerate() {
        assert_eq!(announce, "uppercase");
        assert_eq!(result.as_ref().unwrap(), &format!("TAG{}", i + 1));
    }
}

#[test]
fn malformed_line_leaves_neighbours_untouched() {
    let with_bad = lines(&["uppercase first", "bogus x", "lowercase SECOND"]);
    let without_bad = lines(&["uppercase first", "lowercase SECOND"]);
    let a = pipeline_run(&with_bad);
    let b = pipeline_run(&without_bad);
    assert_eq!(a, b);
    assert_eq!(a.len(), 2);
    assert_eq!(a[0].1.as_ref().unwrap(), "FIRST");
    assert_eq!(a[1].1.as_ref().unwrap(), "second");
}

#[test]
fn blank_and_missing_payload_lines_are_skipped() {
    let input = lines(&["", "uppercase one", "   ", "uppercase", "uppercase two"]);
    let outputs = pipeline_run(&input);
    assert_eq!(outputs.len(), 2);
    assert_eq!(outputs[0].1.as_ref().unwrap(), "ONE");
    assert_eq!(outputs[1].1.as_ref().unwrap(), "TWO");
}

#[test]
fn pipeline_keeps_going_after_an_unknown_operation() {
    let input = lines(&["bogus foo", "uppercase ok"]);
    let outputs = pipeline_run(&input);
    assert_eq!(outputs.len(), 1);
    assert_eq!(outputs[0].0, "uppercase");
    assert_eq!(outputs[0].1.as_ref().unwrap(), "OK");
}

#[test]
fn consumer_reports_a_failing_command_in_place() {
    let input = lines(&["uppercase before", "csv name,age", "uppercase after"]);
    let outputs = pipeline_run(&input);
    assert_eq!(outputs.len(), 3);
    assert_eq!(outputs[0].1.as_ref().unwrap(), "BEFORE");
    assert_eq!(outputs[1].0, "csv");
    assert_eq!(outputs[1].1, Err(OperationError::CsvNoDataRows));
    assert_eq!(outputs[2].1.as_ref().unwrap(), "AFTER");
}
