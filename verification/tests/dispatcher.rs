//! The update protocol: loading, message handling, launch effects, and the
//! debounced save discipline.

use ruperf_gui::events::PerfEvent;
use ruperf_gui::pane::Context;
use ruperf_gui::state::{LoadError, ProgramError, SaveError, SavedState, State};
use ruperf_gui::task::Task;
use ruperf_gui::update::{
    record_launch_result, update, Gui, Message, ResizeEvent, TaskMessage,
};
use ruperf_gui::workspace::RATIO_SCALE;

fn loaded_gui() -> Gui {
    let mut gui = Gui::Loading;
    let eff = update(&mut gui, Message::Loaded(Err(LoadError::FileError)));
    assert!(eff.save.is_none() && eff.run.is_none());
    gui
}

fn loaded_state(gui: &mut Gui) -> &mut State {
    match gui {
        Gui::Loaded(state) => state,
        Gui::Loading => panic!("still loading"),
    }
}

/// Drive the state out of an in-flight save so the next mutation schedules
/// one.
fn settle(gui: &mut Gui) {
    update(gui, Message::Saved(Ok(())));
    loop {
        match gui {
            Gui::Loaded(state) if !state.saving && !state.dirty => break,
            _ => {
                update(gui, Message::Saved(Ok(())));
            }
        }
    }
}

#[test]
fn loading_ignores_messages_other_than_load_outcomes() {
    let mut gui = Gui::Loading;
    for message in [
        Message::NewAppPressed,
        Message::InputChanged(String::from("ls")),
        Message::CommandSelected(PerfEvent::Test),
        Message::CyclesToggled(true),
        Message::LaunchCommand,
        Message::Saved(Ok(())),
        Message::Resized(ResizeEvent { split: 0, ratio: 1 }),
    ] {
        let eff = update(&mut gui, message);
        assert!(eff.save.is_none());
        assert!(eff.run.is_none());
        assert!(matches!(gui, Gui::Loading));
    }
}

#[test]
fn load_success_brings_the_saved_tasks_into_a_default_layout() {
    let mut gui = Gui::Loading;
    let saved = SavedState {
        tasks: vec![Task::new(Some(PerfEvent::Test), Some(String::new()), None).unwrap()],
    };
    let eff = update(&mut gui, Message::Loaded(Ok(saved)));
    assert!(eff.save.is_none() && eff.run.is_none());
    let state = loaded_state(&mut gui);
    assert_eq!(state.tasks.len(), 1);
    assert_eq!(state.tasks[0].command, "test");
    assert_eq!(state.panes_state.panes.len(), 3);
    assert!(!state.dirty && !state.saving);
}

#[test]
fn load_failure_falls_back_to_an_empty_registry() {
    let mut gui = Gui::Loading;
    update(&mut gui, Message::Loaded(Err(LoadError::FormatError)));
    let state = loaded_state(&mut gui);
    assert!(state.tasks.is_empty());
    assert_eq!(state.panes_state.panes.len(), 3);
}

#[test]
fn launching_stat_builds_runs_and_records_the_task() {
    let mut gui = loaded_gui();
    update(&mut gui, Message::NewAppPressed);
    {
        let state = loaded_state(&mut gui);
        let data_pane = state.data_pane;
        assert_eq!(state.panes_state.content(data_pane).context, Context::NewEvent);
    }
    update(&mut gui, Message::CommandSelected(PerfEvent::Stat));
    update(&mut gui, Message::CyclesToggled(true));
    update(&mut gui, Message::InputChanged(String::from("ls")));
    let eff = update(&mut gui, Message::LaunchCommand);
    assert_eq!(eff.run.as_deref(), Some("stat --event cycles  ls"));
    let state = loaded_state(&mut gui);
    assert_eq!(state.tasks.len(), 1);
    assert_eq!(state.tasks[0].command, "stat --event cycles  ls");
    assert_eq!(state.tasks[0].program, "ls");
    let data_pane = state.data_pane;
    assert_eq!(state.panes_state.content(data_pane).context, Context::Main);
}

#[test]
fn launching_test_uses_no_program_argument() {
    let mut gui = loaded_gui();
    update(&mut gui, Message::CommandSelected(PerfEvent::Test));
    update(&mut gui, Message::ListToggled(true));
    update(&mut gui, Message::VerboseToggled(true));
    let eff = update(&mut gui, Message::LaunchCommand);
    assert_eq!(eff.run.as_deref(), Some("test --list"));
    let state = loaded_state(&mut gui);
    assert_eq!(state.tasks[0].program, "");
}

#[test]
fn launching_an_unimplemented_kind_writes_a_placeholder() {
    let mut gui = loaded_gui();
    update(&mut gui, Message::CommandSelected(PerfEvent::Record));
    let eff = update(&mut gui, Message::LaunchCommand);
    assert!(eff.run.is_none());
    let state = loaded_state(&mut gui);
    assert!(state.tasks.is_empty());
    let data_pane = state.data_pane;
    assert_eq!(state.panes_state.content(data_pane).data, "Record output:");
    assert_eq!(state.panes_state.content(data_pane).context, Context::Main);
}

#[test]
fn running_an_existing_task_requests_its_cached_command() {
    let mut gui = loaded_gui();
    update(&mut gui, Message::CommandSelected(PerfEvent::Test));
    update(&mut gui, Message::JsonToggled(true));
    update(&mut gui, Message::LaunchCommand);
    let eff = update(&mut gui, Message::TaskMessage(0, TaskMessage::Run));
    assert_eq!(eff.run.as_deref(), Some("test --json"));
}

#[test]
fn toggles_reach_the_main_pane_options() {
    let mut gui = loaded_gui();
    update(&mut gui, Message::CyclesToggled(true));
    update(&mut gui, Message::InstructionsToggled(true));
    update(&mut gui, Message::JsonToggled(true));
    update(&mut gui, Message::ListToggled(true));
    update(&mut gui, Message::VerboseToggled(true));
    update(&mut gui, Message::CyclesToggled(false));
    let state = loaded_state(&mut gui);
    let data_pane = state.data_pane;
    let o = state.panes_state.content(data_pane).launch_options;
    assert!(!o.cycles && o.instructions && o.json && o.list && o.verbose);
}

#[test]
fn resize_message_clamps_and_stores() {
    let mut gui = loaded_gui();
    let split = loaded_state(&mut gui).horz_split;
    update(&mut gui, Message::Resized(ResizeEvent { split, ratio: RATIO_SCALE + 7 }));
    let state = loaded_state(&mut gui);
    assert_eq!(state.panes_state.splits[split].ratio, RATIO_SCALE);
}

#[test]
fn first_mutation_schedules_a_save_of_the_current_tasks() {
    let mut gui = loaded_gui();
    settle(&mut gui);
    let eff = update(&mut gui, Message::InputChanged(String::from("a")));
    let snapshot = eff.save.expect("a save should be scheduled");
    assert!(snapshot.tasks.is_empty());
    let state = loaded_state(&mut gui);
    assert!(state.saving && !state.dirty);
}

#[test]
fn saves_coalesce_while_one_is_in_flight() {
    let mut gui = loaded_gui();
    settle(&mut gui);
    // schedule a save; it is now in flight
    let eff = update(&mut gui, Message::CommandSelected(PerfEvent::Test));
    assert!(eff.save.is_some());
    // two mutating messages while the save is in flight: no further save
    update(&mut gui, Message::JsonToggled(true));
    let eff1 = update(&mut gui, Message::LaunchCommand);
    assert!(eff1.save.is_none());
    let eff2 = update(&mut gui, Message::ListToggled(true));
    assert!(eff2.save.is_none());
    // the acknowledgement triggers exactly one follow-up save of the
    // latest state: it already holds the launched task
    let eff3 = update(&mut gui, Message::Saved(Ok(())));
    let snapshot = eff3.save.expect("one follow-up save");
    assert_eq!(snapshot.tasks.len(), 1);
    assert_eq!(snapshot.tasks[0].command, "test --json");
    // with nothing further changed, the next acknowledgement schedules none
    let eff4 = update(&mut gui, Message::Saved(Ok(())));
    assert!(eff4.save.is_none());
    let state = loaded_state(&mut gui);
    assert!(!state.saving && !state.dirty);
}

#[test]
fn a_failed_save_still_counts_as_the_acknowledgement() {
    let mut gui = loaded_gui();
    settle(&mut gui);
    let eff = update(&mut gui, Message::InputChanged(String::from("x")));
    assert!(eff.save.is_some());
    assert!(loaded_state(&mut gui).saving);
    let eff = update(&mut gui, Message::Saved(Err(SaveError::WriteError)));
    assert!(eff.save.is_none());
    let state = loaded_state(&mut gui);
    assert!(!state.saving && !state.dirty);
}

#[test]
fn a_late_load_outcome_is_ignored_once_loaded() {
    let mut gui = loaded_gui();
    settle(&mut gui);
    let stray = SavedState {
        tasks: vec![Task::new(Some(PerfEvent::Bench), Some(String::new()), None).unwrap()],
    };
    let eff = update(&mut gui, Message::Loaded(Ok(stray)));
    // the registry is untouched, but the message still marks the state
    // dirty, so a save of the unchanged registry is scheduled
    let state_tasks = loaded_state(&mut gui).tasks.len();
    assert_eq!(state_tasks, 0);
    let snapshot = eff.save.expect("the message marks the state dirty");
    assert!(snapshot.tasks.is_empty());
}

#[test]
fn captured_output_lands_in_the_main_pane() {
    let mut gui = loaded_gui();
    let state = loaded_state(&mut gui);
    record_launch_result(state, Ok(String::from("3 tests passed")));
    let data_pane = state.data_pane;
    assert_eq!(state.panes_state.content(data_pane).data, "3 tests passed");
}

#[test]
fn launch_failures_are_surfaced_not_fatal() {
    let mut gui = loaded_gui();
    let state = loaded_state(&mut gui);
    record_launch_result(state, Err(ProgramError::Program(String::from("spawn failed"))));
    let data_pane = state.data_pane;
    assert_eq!(state.panes_state.content(data_pane).data, "Error: spawn failed");
    record_launch_result(state, Err(ProgramError::PerfEvent));
    assert_eq!(state.panes_state.content(data_pane).data, "Error: no event");
}
