//! The pane workspace: splitting, resizing, the default layout, and the
//! task-pane projection.

use ruperf_gui::events::PerfEvent;
use ruperf_gui::pane::{Content, Context, PaneType};
use ruperf_gui::state::{sync_task_pane, State};
use ruperf_gui::task::Task;
use ruperf_gui::workspace::{Axis, Node, Workspace, HALF_RATIO, RATIO_SCALE};

#[test]
fn resize_clamps_oversized_ratio() {
    let mut state = State::default();
    state.panes_state.resize(state.vert_split, RATIO_SCALE + 5);
    assert_eq!(state.panes_state.splits[state.vert_split].ratio, RATIO_SCALE);
}

#[test]
fn resize_stores_in_range_ratio() {
    let mut state = State::default();
    state.panes_state.resize(state.horz_split, 300_000);
    assert_eq!(state.panes_state.splits[state.horz_split].ratio, 300_000);
    state.panes_state.resize(state.horz_split, 0);
    assert_eq!(state.panes_state.splits[state.horz_split].ratio, 0);
    state.panes_state.resize(state.horz_split, RATIO_SCALE);
    assert_eq!(state.panes_state.splits[state.horz_split].ratio, RATIO_SCALE);
}

#[test]
fn resize_unknown_split_changes_nothing() {
    let mut state = State::default();
    let before: Vec<u32> = state.panes_state.splits.iter().map(|s| s.ratio).collect();
    state.panes_state.resize(99, 1);
    let after: Vec<u32> = state.panes_state.splits.iter().map(|s| s.ratio).collect();
    assert_eq!(before, after);
}

#[test]
fn every_stored_ratio_stays_in_range() {
    let mut state = State::default();
    for r in [0u32, 170_000, RATIO_SCALE, RATIO_SCALE + 1, u32::MAX] {
        state.panes_state.resize(state.vert_split, r);
        for s in state.panes_state.splits.iter() {
            assert!(s.ratio <= RATIO_SCALE);
        }
    }
}

#[test]
fn split_keeps_old_content_and_default_initializes_the_new_pane() {
    let (mut ws, first) = Workspace::new(Content::new(PaneType::Task));
    ws.content_mut(first).input_value = String::from("kept");
    let (new_pane, new_split) = ws
        .split(Axis::Vertical, first, Content::new(PaneType::Main))
        .unwrap();
    assert_eq!(new_pane, 1);
    assert_eq!(new_split, 0);
    // both panes are addressable
    assert_eq!(ws.content(first).pane_type, PaneType::Task);
    assert_eq!(ws.content(new_pane).pane_type, PaneType::Main);
    // the original pane's content is unchanged
    assert_eq!(ws.content(first).input_value, "kept");
    // the new pane holds freshly default-initialized content
    let c = ws.content(new_pane);
    assert_eq!(c.input_value, "");
    assert_eq!(c.data, "");
    assert_eq!(c.context, Context::Main);
    assert_eq!(c.selected_command, PerfEvent::Stat);
    // the fresh split shares the region equally between old and new pane
    let s = ws.splits[new_split];
    assert_eq!(s.axis, Axis::Vertical);
    assert_eq!(s.ratio, HALF_RATIO);
    assert_eq!(s.first, Node::Pane(first));
    assert_eq!(s.second, Node::Pane(new_pane));
    assert_eq!(ws.root, Node::Split(new_split));
}

#[test]
fn split_of_missing_pane_fails() {
    let (mut ws, _first) = Workspace::new(Content::new(PaneType::Task));
    assert!(ws.split(Axis::Horizontal, 7, Content::new(PaneType::Log)).is_none());
    assert_eq!(ws.panes.len(), 1);
    assert_eq!(ws.splits.len(), 0);
}

#[test]
fn default_layout_has_three_panes_and_fixed_ratios() {
    let state = State::default();
    assert!(state.tasks.is_empty());
    assert_eq!(state.panes_created, 3);
    assert_eq!(state.panes_state.panes.len(), 3);
    assert_eq!(state.panes_state.splits.len(), 2);
    assert_eq!(state.panes_state.panes[state.task_pane].pane_type, PaneType::Task);
    assert_eq!(state.panes_state.panes[state.data_pane].pane_type, PaneType::Main);
    assert_eq!(state.panes_state.panes[state.log_pane].pane_type, PaneType::Log);
    let vert = state.panes_state.splits[state.vert_split];
    assert_eq!(vert.axis, Axis::Vertical);
    assert_eq!(vert.ratio, 170_000);
    assert_eq!(vert.first, Node::Pane(state.task_pane));
    assert_eq!(vert.second, Node::Split(state.horz_split));
    let horz = state.panes_state.splits[state.horz_split];
    assert_eq!(horz.axis, Axis::Horizontal);
    assert_eq!(horz.ratio, 880_000);
    assert_eq!(horz.first, Node::Pane(state.data_pane));
    assert_eq!(horz.second, Node::Pane(state.log_pane));
    assert_eq!(state.panes_state.root, Node::Split(state.vert_split));
    assert!(!state.dirty);
    assert!(!state.saving);
}

#[test]
fn content_mut_is_an_exclusive_view_over_one_pane() {
    let mut state = State::default();
    {
        let c = state.panes_state.content_mut(state.data_pane);
        c.data = String::from("captured");
    }
    assert_eq!(state.panes_state.content(state.data_pane).data, "captured");
    assert_eq!(state.panes_state.content(state.log_pane).data, "");
    assert_eq!(state.panes_state.content(state.task_pane).data, "");
}

#[test]
fn sync_task_pane_projects_the_registry() {
    let mut state = State::default();
    state.tasks.push(
        Task::new(Some(PerfEvent::Test), Some(String::from(" --list")), None).unwrap(),
    );
    sync_task_pane(&mut state);
    let shown = &state.panes_state.content(state.task_pane).tasks;
    assert_eq!(shown.len(), 1);
    assert_eq!(shown[0].command, "test --list");
}

#[test]
fn with_tasks_keeps_the_given_registry() {
    let tasks = vec![Task::new(Some(PerfEvent::Test), Some(String::new()), None).unwrap()];
    let state = State::with_tasks(tasks);
    assert_eq!(state.tasks.len(), 1);
    assert_eq!(state.tasks[0].command, "test");
    assert_eq!(state.panes_state.panes.len(), 3);
}
