use rs_cel_repl::context::create_context;
use rs_cel_repl::error::Error;
use rs_cel_repl::json::JsonValue;
use rs_cel_repl::program::compile;
use rs_cel_repl::stream::{
    after_record, process_record, record_value, render, run_stream, stream_step, StreamAction,
    StreamEvent, StreamState,
};
use rs_cel_repl::value::CelValue;

#[test]
fn a_record_that_is_json_is_read() {
    assert_eq!(record_value("true"), JsonValue::Bool(true));
    assert_eq!(record_value(" [null] "), JsonValue::Array(vec![JsonValue::Null]));
}

#[test]
fn a_record_that_is_not_json_is_a_string() {
    assert_eq!(record_value("not json at all"), JsonValue::String("not json at all".to_string()));
    assert_eq!(record_value(""), JsonValue::String("".to_string()));
}

#[test]
fn render_writes_a_value_on_one_line() {
    let value = CelValue::List(vec![CelValue::Int(1), CelValue::String("a b".to_string())]);
    assert_eq!(render(Ok(value)), Ok("[1,\"a b\"]".to_string()));
}

#[test]
fn render_hands_a_failure_on() {
    let failure = Error::Cel("no such key".to_string());
    assert_eq!(render(Err(failure)), Err(Error::Cel("no such key".to_string())));
}

#[test]
fn streaming_fallback_echoes_a_line_that_is_not_json() {
    let ctx = create_context(None).unwrap();
    let program = compile("input").unwrap();
    assert_eq!(
        process_record(&program, &ctx, "input", "not json at all"),
        Ok("\"not json at all\"".to_string())
    );
}

#[test]
fn the_variable_name_is_the_callers() {
    let ctx = create_context(None).unwrap();
    let program = compile("row.a + row.b").unwrap();
    assert_eq!(
        process_record(&program, &ctx, "row", "{\"a\": 1, \"b\": 2}"),
        Ok("3".to_string())
    );
}

#[test]
fn after_record_writes_or_aborts() {
    assert_eq!(
        after_record(Ok("1".to_string())),
        (StreamState::Running, StreamAction::Write("1".to_string()))
    );
    assert_eq!(
        after_record(Err(Error::Cel("bad".to_string()))),
        (StreamState::Stopped, StreamAction::Abort(Error::Cel("bad".to_string())))
    );
}

#[test]
fn streaming_fails_fast() {
    let ctx = create_context(None).unwrap();
    let program = compile("input.a").unwrap();
    let records = vec!["{\"a\":1}".to_string(), "{\"b\":2}".to_string(), "{\"a\":3}".to_string()];
    let run = run_stream(&program, &ctx, "input", &records);
    assert_eq!(run.lines, vec!["1".to_string()]);
    assert_eq!(run.failure, Some(Error::Cel("No such key: a".to_string())));
}

#[test]
fn streaming_step_by_step_stops_at_the_first_failure() {
    let ctx = create_context(None).unwrap();
    let program = compile("input.a").unwrap();
    let mut state = StreamState::Running;
    let mut written: Vec<String> = Vec::new();
    let mut failure: Option<Error> = None;
    let mut read = 0;
    for line in ["{\"a\":1}", "{\"b\":2}", "{\"a\":3}"] {
        if state != StreamState::Running {
            break;
        }
        read += 1;
        let (next, action) =
            stream_step(state, &program, &ctx, "input", StreamEvent::Record(line.to_string()));
        state = next;
        match action {
            StreamAction::Write(text) => written.push(text),
            StreamAction::Abort(error) => failure = Some(error),
            StreamAction::Finish => {}
        }
    }
    assert_eq!(read, 2);
    assert_eq!(written, vec!["1".to_string()]);
    assert_eq!(failure, Some(Error::Cel("No such key: a".to_string())));
    assert_eq!(state, StreamState::Stopped);
}

#[test]
fn a_whole_stream_is_written_in_order() {
    let ctx = create_context(Some("{\"k\": 10}")).unwrap();
    let program = compile("input + k").unwrap();
    let records = vec!["1".to_string(), "2".to_string(), "3".to_string()];
    let run = run_stream(&program, &ctx, "input", &records);
    assert_eq!(run.lines, vec!["11".to_string(), "12".to_string(), "13".to_string()]);
    assert_eq!(run.failure, None);
}

#[test]
fn the_end_of_the_stream_ends_the_run() {
    let ctx = create_context(None).unwrap();
    let program = compile("input").unwrap();
    assert_eq!(
        stream_step(StreamState::Running, &program, &ctx, "input", StreamEvent::End),
        (StreamState::Stopped, StreamAction::Finish)
    );
}

#[test]
fn a_failure_of_the_stream_ends_the_run() {
    let ctx = create_context(None).unwrap();
    let program = compile("input").unwrap();
    assert_eq!(
        stream_step(
            StreamState::Running,
            &program,
            &ctx,
            "input",
            StreamEvent::Failed("broken pipe".to_string())
        ),
        (StreamState::Stopped, StreamAction::Abort(Error::Io("broken pipe".to_string())))
    );
}

#[test]
fn a_stopped_run_evaluates_nothing() {
    let ctx = create_context(None).unwrap();
    let program = compile("input").unwrap();
    assert_eq!(
        stream_step(
            StreamState::Stopped,
            &program,
            &ctx,
            "input",
            StreamEvent::Record("1".to_string())
        ),
        (StreamState::Stopped, StreamAction::Finish)
    );
}
