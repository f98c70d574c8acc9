use organizer::status_stream::{StatusBridge, StatusStep, StreamAction, StreamError, StreamEvent};

fn feed(bridge: &mut StatusBridge, line: &str) -> StreamAction {
    bridge.handle(StreamEvent::Line(line.to_string()))
}

fn emitted(action: StreamAction) -> StatusStep {
    match action {
        StreamAction::Emit(step) => step,
        other => panic!("expected a step, got {:?}", other),
    }
}

#[test]
fn stream_emits_steps_in_order() {
    let (mut bridge, first) = StatusBridge::new();
    assert_eq!(first.step, "connecting");
    assert!(first.data.is_none());

    let mut steps = vec![first];
    for line in ["{\"step\":\"connecting\"}", "{\"step\":\"scan\",\"data\":{\"n\":1}}", "", "{\"step\":\"done\"}"] {
        match feed(&mut bridge, line) {
            StreamAction::Emit(step) => steps.push(step),
            StreamAction::Skip => assert!(line.is_empty()),
            other => panic!("unexpected {:?}", other),
        }
    }
    assert!(matches!(bridge.handle(StreamEvent::Closed), StreamAction::Finish));

    let names: Vec<&str> = steps.iter().map(|s| s.step.as_str()).collect();
    assert_eq!(names, vec!["connecting", "connecting", "scan", "done"]);
    let expected: serde_json::Value = serde_json::from_str("{\"n\":1}").unwrap();
    assert_eq!(steps[2].data, Some(expected));
    assert!(steps[1].data.is_none());
    assert!(steps[3].data.is_none());
}

#[test]
fn stream_aborts_on_line_that_is_not_json() {
    let (mut bridge, _) = StatusBridge::new();
    let ok = emitted(feed(&mut bridge, "{\"step\":\"scan\"}"));
    assert_eq!(ok.step, "scan");
    match feed(&mut bridge, "not json") {
        StreamAction::Fail(err) => {
            match &err {
                StreamError::Protocol { line, .. } => assert_eq!(line, "not json"),
                other => panic!("unexpected {:?}", other),
            }
            let text = err.message();
            assert!(text.starts_with("JSON parse error: "));
            assert!(text.ends_with(" for line: not json"));
        }
        other => panic!("unexpected {:?}", other),
    }
    assert!(matches!(feed(&mut bridge, "{\"step\":\"late\"}"), StreamAction::Ignore));
    assert!(matches!(bridge.handle(StreamEvent::Closed), StreamAction::Ignore));
}

#[test]
fn stream_step_defaults_to_unknown() {
    let (mut bridge, _) = StatusBridge::new();
    assert_eq!(emitted(feed(&mut bridge, "{\"data\":[1,2]}")).step, "unknown");
    assert_eq!(emitted(feed(&mut bridge, "{\"step\":5}")).step, "unknown");
    assert_eq!(emitted(feed(&mut bridge, "[1,2,3]")).step, "unknown");
    let step = emitted(feed(&mut bridge, "{\"step\":\"x\",\"data\":null}"));
    assert_eq!(step.data, Some(serde_json::Value::Null));
}

#[test]
fn stream_read_failure_is_fatal() {
    let (mut bridge, _) = StatusBridge::new();
    match bridge.handle(StreamEvent::ReadFailed("broken pipe".to_string())) {
        StreamAction::Fail(err) => assert_eq!(err.message(), "Read error: broken pipe"),
        other => panic!("unexpected {:?}", other),
    }
    assert!(matches!(feed(&mut bridge, ""), StreamAction::Ignore));
}
