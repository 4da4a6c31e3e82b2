//! The command builder: option-flag formatting and task construction.

use ruperf_gui::events::PerfEvent;
use ruperf_gui::pane::{Content, Options, PaneType};
use ruperf_gui::state::title;
use ruperf_gui::task::{ConstructionError, Task, TaskState};

fn options(cycles: bool, instructions: bool, json: bool, list: bool, verbose: bool) -> Options {
    Options { cycles, instructions, json, list, verbose }
}

fn main_content() -> Content {
    Content::new(PaneType::Main)
}

#[test]
fn stat_cycles_command_is_exact() {
    let mut c = main_content();
    c.selected_command = PerfEvent::Stat;
    c.launch_options = options(true, false, false, false, false);
    let task = Task::new(
        Some(PerfEvent::Stat),
        Some(c.get_options()),
        Some(String::from("ls")),
    )
    .unwrap();
    assert_eq!(task.command, "stat --event cycles  ls");
}

#[test]
fn test_list_command_is_exact() {
    let mut c = main_content();
    c.selected_command = PerfEvent::Test;
    c.launch_options = options(false, false, false, true, true);
    let task = Task::new(Some(PerfEvent::Test), Some(c.get_options()), None).unwrap();
    assert_eq!(task.command, "test --list");
}

#[test]
fn stat_options_both_flags_in_order() {
    let o = options(true, true, false, false, false);
    assert_eq!(o.get_options(), " --event cycles --event instructions ");
}

#[test]
fn stat_options_none_still_has_trailing_space() {
    let o = options(false, false, false, false, false);
    assert_eq!(o.get_options(), " ");
}

#[test]
fn stat_options_instructions_only() {
    let o = options(false, true, false, false, false);
    assert_eq!(o.get_options(), " --event instructions ");
}

#[test]
fn test_options_json_wins_over_list_and_verbose() {
    let mut c = main_content();
    c.selected_command = PerfEvent::Test;
    c.launch_options = options(false, false, true, true, true);
    assert_eq!(c.get_options(), " --json");
}

#[test]
fn test_options_verbose_alone() {
    let mut c = main_content();
    c.selected_command = PerfEvent::Test;
    c.launch_options = options(false, false, false, false, true);
    assert_eq!(c.get_options(), " --verbose");
}

#[test]
fn other_kinds_have_no_flag_tokens() {
    let mut c = main_content();
    c.selected_command = PerfEvent::Record;
    c.launch_options = options(true, true, true, true, true);
    assert_eq!(c.get_options(), "");
}

#[test]
fn missing_event_fails_regardless_of_other_arguments() {
    let r = Task::new(None, Some(String::from(" --json")), Some(String::from("ls")));
    assert!(matches!(r, Err(ConstructionError::MissingEvent)));
    let r = Task::new(None, None, None);
    assert!(matches!(r, Err(ConstructionError::MissingEvent)));
    let r = Task::new(None, Some(String::new()), None);
    assert!(matches!(r, Err(ConstructionError::MissingEvent)));
}

#[test]
fn missing_options_fails_when_event_is_present() {
    let r = Task::new(Some(PerfEvent::Stat), None, Some(String::from("ls")));
    assert!(matches!(r, Err(ConstructionError::MissingOptions)));
}

#[test]
fn empty_options_string_is_valid() {
    let t = Task::new(Some(PerfEvent::Test), Some(String::new()), None).unwrap();
    assert_eq!(t.command, "test");
    assert_eq!(t.options, "");
    assert_eq!(t.program, "");
    assert_eq!(t.state, TaskState::Idle);
}

#[test]
fn stat_task_records_its_parts() {
    let t = Task::new(
        Some(PerfEvent::Stat),
        Some(String::from(" --event cycles ")),
        Some(String::from("ls")),
    )
    .unwrap();
    assert_eq!(t.event, PerfEvent::Stat);
    assert_eq!(t.options, " --event cycles ");
    assert_eq!(t.program, "ls");
    assert_eq!(t.command, "stat --event cycles  ls");
}

#[test]
fn default_task_is_empty_idle_stat() {
    let t = Task::default();
    assert_eq!(t.event, PerfEvent::Stat);
    assert_eq!(t.program, "");
    assert_eq!(t.options, "");
    assert_eq!(t.command, "");
    assert_eq!(t.state, TaskState::Idle);
}

#[test]
fn event_keywords() {
    assert_eq!(PerfEvent::Stat.as_str(), "stat");
    assert_eq!(PerfEvent::Record.as_str(), "record");
    assert_eq!(PerfEvent::Report.as_str(), "report");
    assert_eq!(PerfEvent::Annotate.as_str(), "annotate");
    assert_eq!(PerfEvent::Top.as_str(), "top");
    assert_eq!(PerfEvent::Bench.as_str(), "bench");
    assert_eq!(PerfEvent::Test.as_str(), "test");
}

#[test]
fn event_default_and_all() {
    assert_eq!(PerfEvent::default(), PerfEvent::Stat);
    let all = PerfEvent::all();
    assert_eq!(all.len(), 7);
    assert_eq!(all[0], PerfEvent::Stat);
    assert_eq!(all[6], PerfEvent::Test);
}

#[test]
fn window_title() {
    assert_eq!(title(), "Ruperf");
}

#[test]
fn fresh_content_is_default_initialized() {
    let c = Content::new(PaneType::Log);
    assert_eq!(c.pane_type, PaneType::Log);
    assert_eq!(c.input_value, "");
    assert_eq!(c.data, "");
    assert_eq!(c.log, "");
    assert_eq!(c.application, "");
    assert_eq!(c.selected_command, PerfEvent::Stat);
    assert!(!c.launch_options.cycles);
    assert!(!c.launch_options.instructions);
    assert!(!c.launch_options.json);
    assert!(!c.launch_options.list);
    assert!(!c.launch_options.verbose);
    assert!(c.tasks.is_empty());
}
