//! The persistence format: encoding, decoding, and the round trip.

use ruperf_gui::codec::{decode_saved_state, encode_saved_state};
use ruperf_gui::events::PerfEvent;
use ruperf_gui::state::{LoadError, SavedState};
use ruperf_gui::task::{Task, TaskState};

fn sample_tasks() -> Vec<Task> {
    vec![
        Task::new(
            Some(PerfEvent::Stat),
            Some(String::from(" --event cycles ")),
            Some(String::from("ls")),
        )
        .unwrap(),
        Task::new(Some(PerfEvent::Test), Some(String::from(" --list")), None).unwrap(),
    ]
}

fn assert_same_records(a: &[Task], b: &[Task]) {
    assert_eq!(a.len(), b.len());
    for (x, y) in a.iter().zip(b.iter()) {
        assert_eq!(x.event, y.event);
        assert_eq!(x.program, y.program);
        assert_eq!(x.options, y.options);
        assert_eq!(x.command, y.command);
    }
}

#[test]
fn round_trip_reproduces_the_ordered_task_list() {
    let saved = SavedState { tasks: sample_tasks() };
    let text = encode_saved_state(&saved);
    let loaded = decode_saved_state(&text).unwrap();
    assert_same_records(&saved.tasks, &loaded.tasks);
    for t in loaded.tasks.iter() {
        assert_eq!(t.state, TaskState::Idle);
    }
    // saving what was loaded writes the same record again
    let text2 = encode_saved_state(&loaded);
    assert_eq!(text, text2);
    let loaded2 = decode_saved_state(&text2).unwrap();
    assert_same_records(&loaded.tasks, &loaded2.tasks);
}

#[test]
fn round_trip_of_the_empty_registry() {
    let saved = SavedState { tasks: Vec::new() };
    let text = encode_saved_state(&saved);
    assert_eq!(text, "{\"tasks\":[]}");
    let loaded = decode_saved_state(&text).unwrap();
    assert!(loaded.tasks.is_empty());
}

#[test]
fn encoding_is_the_documented_record_shape() {
    let saved = SavedState {
        tasks: vec![Task::new(Some(PerfEvent::Test), Some(String::from(" --json")), None).unwrap()],
    };
    let text = encode_saved_state(&saved);
    assert_eq!(
        text,
        "{\"tasks\":[{\"event\":\"test\",\"program\":\"\",\"options\":\" --json\",\"command\":\"test --json\"}]}"
    );
}

#[test]
fn quotes_and_backslashes_in_fields_round_trip() {
    let mut task = Task::default();
    task.event = PerfEvent::Stat;
    task.program = String::from("a\"b\\c");
    task.options = String::from("\\\\");
    task.command = String::from("stat \"quoted\"");
    let saved = SavedState { tasks: vec![task] };
    let text = encode_saved_state(&saved);
    let loaded = decode_saved_state(&text).unwrap();
    assert_same_records(&saved.tasks, &loaded.tasks);
}

#[test]
fn transient_state_is_dropped_and_comes_back_idle() {
    let mut task = Task::new(Some(PerfEvent::Test), Some(String::new()), None).unwrap();
    task.state = TaskState::Running;
    let saved = SavedState { tasks: vec![task] };
    let text = encode_saved_state(&saved);
    let loaded = decode_saved_state(&text).unwrap();
    assert_eq!(loaded.tasks[0].state, TaskState::Idle);
    assert_eq!(loaded.tasks[0].command, "test");
}

#[test]
fn malformed_text_yields_the_format_error() {
    for bad in [
        "",
        "garbage",
        "{\"tasks\":",
        "{\"tasks\":[",
        "{\"tasks\":[]",
        "{\"tasks\":[]}}",
        "{\"tasks\":[]} ",
        "{\"tasks\":[{\"event\":\"nonsense\",\"program\":\"\",\"options\":\"\",\"command\":\"\"}]}",
        "{\"tasks\":[{\"event\":\"test\",\"program\":\"\",\"options\":\"\",\"command\":\"\"},]}",
        "{\"tasks\":[{\"event\":\"test\",\"program\":\"unterminated]}",
    ] {
        assert!(matches!(decode_saved_state(bad), Err(LoadError::FormatError)));
    }
}

#[test]
fn decoding_two_records_keeps_their_order() {
    let text = "{\"tasks\":[\
        {\"event\":\"stat\",\"program\":\"ls\",\"options\":\" \",\"command\":\"stat  ls\"},\
        {\"event\":\"bench\",\"program\":\"\",\"options\":\"\",\"command\":\"bench\"}]}";
    let loaded = decode_saved_state(text).unwrap();
    assert_eq!(loaded.tasks.len(), 2);
    assert_eq!(loaded.tasks[0].event, PerfEvent::Stat);
    assert_eq!(loaded.tasks[0].program, "ls");
    assert_eq!(loaded.tasks[1].event, PerfEvent::Bench);
    assert_eq!(loaded.tasks[1].command, "bench");
}
