//! The message-driven update protocol: one total step function consumes a
//! message, mutates the loaded state, and reports the side effects the
//! caller must perform (launching the external tool, scheduling a save).
//!
//! Saves are debounced through the `dirty` and `saving` flags: while a save
//! is in flight further mutations only mark the state dirty, and the
//! acknowledgement of the finished save triggers exactly one follow-up
//! save of the latest state.

use vstd::prelude::*;

use crate::events::PerfEvent;
use crate::pane::{ContentView, Context, Options};
use crate::state::{
    default_state, state_wf, LoadError, ProgramError, SavedState, SaveError, State, StateView,
};
use crate::task::{built_command, Task, TaskState, TaskView};
use crate::workspace::{clamp_ratio, SplitNode, WorkspaceView};

verus! {

/// A split handle together with the ratio the user dragged it to.
#[derive(Clone, Copy, Debug, PartialEq, Eq, Structural)]
pub struct ResizeEvent {
    pub split: usize,
    pub ratio: u32,
}

/// Messages addressed to one task row.
#[derive(Clone, Copy, Debug, PartialEq, Eq, Structural)]
pub enum TaskMessage {
    Edit,
    Delete,
    Run,
}

/// Every discrete event the update protocol consumes.
pub enum Message {
    Loaded(Result<SavedState, LoadError>),
    Saved(Result<(), SaveError>),
    InputChanged(String),
    NewAppPressed,
    Resized(ResizeEvent),
    CommandSelected(PerfEvent),
    TaskSelected(Task),
    CyclesToggled(bool),
    InstructionsToggled(bool),
    JsonToggled(bool),
    ListToggled(bool),
    VerboseToggled(bool),
    LaunchCommand,
    TaskMessage(usize, TaskMessage),
}

/// Mathematical image of a message.
pub ghost enum MessageView {
    Loaded(Result<Seq<TaskView>, LoadError>),
    Saved(Result<(), SaveError>),
    InputChanged(Seq<char>),
    NewAppPressed,
    Resized(usize, u32),
    CommandSelected(PerfEvent),
    TaskSelected(TaskView),
    CyclesToggled(bool),
    InstructionsToggled(bool),
    JsonToggled(bool),
    ListToggled(bool),
    VerboseToggled(bool),
    LaunchCommand,
    TaskMessage(usize, TaskMessage),
}

impl View for Message {
    type V = MessageView;

    open spec fn view(&self) -> MessageView {
        match self {
            Message::Loaded(r) => MessageView::Loaded(
                match r {
                    Ok(s) => Ok(s@),
                    Err(e) => Err(*e),
                },
            ),
            Message::Saved(r) => MessageView::Saved(*r),
            Message::InputChanged(s) => MessageView::InputChanged(s@),
            Message::NewAppPressed => MessageView::NewAppPressed,
            Message::Resized(ev) => MessageView::Resized(ev.split, ev.ratio),
            Message::CommandSelected(e) => MessageView::CommandSelected(*e),
            Message::TaskSelected(t) => MessageView::TaskSelected(t@),
            Message::CyclesToggled(v) => MessageView::CyclesToggled(*v),
            Message::InstructionsToggled(v) => MessageView::InstructionsToggled(*v),
            Message::JsonToggled(v) => MessageView::JsonToggled(*v),
            Message::ListToggled(v) => MessageView::ListToggled(*v),
            Message::VerboseToggled(v) => MessageView::VerboseToggled(*v),
            Message::LaunchCommand => MessageView::LaunchCommand,
            Message::TaskMessage(i, tm) => MessageView::TaskMessage(*i, *tm),
        }
    }
}

/// The whole application: still loading the persisted record, or loaded
/// and processing messages.
pub enum Gui {
    Loading,
    Loaded(State),
}

/// Mathematical image of the application.
pub ghost enum GuiView {
    Loading,
    Loaded(StateView),
}

impl View for Gui {
    type V = GuiView;

    open spec fn view(&self) -> GuiView {
        match self {
            Gui::Loading => GuiView::Loading,
            Gui::Loaded(s) => GuiView::Loaded(s@),
        }
    }
}

/// A well-formed application: once loaded, the session state is.
pub open spec fn gui_wf(g: GuiView) -> bool {
    match g {
        GuiView::Loading => true,
        GuiView::Loaded(s) => state_wf(s),
    }
}

/// The side effects one update step asks the caller to perform: launch the
/// external tool with the given command, and persist the given snapshot.
pub struct Effects {
    pub save: Option<SavedState>,
    pub run: Option<String>,
}

/// Mathematical image of the requested side effects.
pub ghost struct EffectsView {
    pub save: Option<Seq<TaskView>>,
    pub run: Option<Seq<char>>,
}

pub open spec fn opt_string_view(o: Option<String>) -> Option<Seq<char>> {
    match o {
        Some(s) => Some(s@),
        None => None,
    }
}

pub open spec fn opt_saved_view(o: Option<SavedState>) -> Option<Seq<TaskView>> {
    match o {
        Some(s) => Some(s@),
        None => None,
    }
}

impl View for Effects {
    type V = EffectsView;

    open spec fn view(&self) -> EffectsView {
        EffectsView { save: opt_saved_view(self.save), run: opt_string_view(self.run) }
    }
}

/// No side effects requested.
pub open spec fn no_effects() -> EffectsView {
    EffectsView { save: None, run: None }
}

/// The content of the designated main (data) pane.
pub open spec fn data_content(s: StateView) -> ContentView {
    s.panes_state.panes[s.data_pane as int]
}

/// The state with the main pane's content replaced.
pub open spec fn with_data_content(s: StateView, c: ContentView) -> StateView {
    StateView {
        panes_state: WorkspaceView {
            panes: s.panes_state.panes.update(s.data_pane as int, c),
            ..s.panes_state
        },
        ..s
    }
}

/// The placeholder output text shown for the kinds whose launch is not
/// implemented.
pub open spec fn placeholder_text(e: PerfEvent) -> Seq<char> {
    match e {
        PerfEvent::Record => seq![
            'R', 'e', 'c', 'o', 'r', 'd', ' ', 'o', 'u', 't', 'p', 'u', 't', ':',
        ],
        PerfEvent::Report => seq![
            'R', 'e', 'p', 'o', 'r', 't', ' ', 'o', 'u', 't', 'p', 'u', 't', ':',
        ],
        PerfEvent::Annotate => seq![
            'A', 'n', 'n', 'o', 't', 'a', 't', 'e', ' ', 'o', 'u', 't', 'p', 'u', 't', ':',
        ],
        PerfEvent::Top => seq!['T', 'o', 'p', ' ', 'o', 'u', 't', 'p', 'u', 't', ':'],
        PerfEvent::Bench => seq!['B', 'e', 'n', 'c', 'h', ' ', 'o', 'u', 't', 'p', 'u', 't', ':'],
        _ => Seq::<char>::empty(),
    }
}

/// The task that a launch of the given kind constructs from the main
/// pane's current fields.
pub open spec fn launched_task(e: PerfEvent, dc: ContentView) -> TaskView {
    let options = crate::pane::options_text(e, dc.launch_options);
    let program = if e == PerfEvent::Stat {
        dc.input_value
    } else {
        Seq::<char>::empty()
    };
    TaskView {
        event: e,
        program,
        options,
        command: built_command(e, options, program),
        state: TaskState::Idle,
    }
}

/// What a launch request does to the loaded state, and the command it asks
/// the caller to run: Stat and Test construct a task, append it to the
/// registry and request its command; the remaining kinds only write a
/// placeholder into the main pane.  In every case the main pane returns to
/// its Main context.
pub open spec fn launch_step(s: StateView) -> (StateView, Option<Seq<char>>) {
    let dc = data_content(s);
    match dc.selected_command {
        PerfEvent::Stat => {
            let t = launched_task(PerfEvent::Stat, dc);
            (
                with_data_content(
                    StateView { tasks: s.tasks.push(t), ..s },
                    ContentView { context: Context::Main, ..dc },
                ),
                Some(t.command),
            )
        },
        PerfEvent::Test => {
            let t = launched_task(PerfEvent::Test, dc);
            (
                with_data_content(
                    StateView { tasks: s.tasks.push(t), ..s },
                    ContentView { context: Context::Main, ..dc },
                ),
                Some(t.command),
            )
        },
        other => (
            with_data_content(
                s,
                ContentView { data: placeholder_text(other), context: Context::Main, ..dc },
            ),
            None,
        ),
    }
}

/// The message-specific part of one loaded-state step: the mutated state,
/// whether the message was a completed-save acknowledgement, and the
/// command the caller is asked to run.  Messages with no handling here
/// (load outcomes, task selection, task edit and delete) change nothing.
pub open spec fn loaded_step(s: StateView, m: MessageView) -> (StateView, bool, Option<Seq<char>>) {
    match m {
        MessageView::Resized(split, ratio) => {
            let w = s.panes_state;
            if split < w.splits.len() {
                (
                    StateView {
                        panes_state: WorkspaceView {
                            splits: w.splits.update(
                                split as int,
                                SplitNode { ratio: clamp_ratio(ratio), ..w.splits[split as int] },
                            ),
                            ..w
                        },
                        ..s
                    },
                    false,
                    None,
                )
            } else {
                (s, false, None)
            }
        },
        MessageView::NewAppPressed => (
            with_data_content(s, ContentView { context: Context::NewEvent, ..data_content(s) }),
            false,
            None,
        ),
        MessageView::TaskMessage(i, TaskMessage::Run) => (s, false, Some(s.tasks[i as int].command)),
        MessageView::CommandSelected(e) => (
            with_data_content(s, ContentView { selected_command: e, ..data_content(s) }),
            false,
            None,
        ),
        MessageView::CyclesToggled(v) => (
            with_data_content(
                s,
                ContentView {
                    launch_options: Options { cycles: v, ..data_content(s).launch_options },
                    ..data_content(s)
                },
            ),
            false,
            None,
        ),
        MessageView::InstructionsToggled(v) => (
            with_data_content(
                s,
                ContentView {
                    launch_options: Options { instructions: v, ..data_content(s).launch_options },
                    ..data_content(s)
                },
            ),
            false,
            None,
        ),
        MessageView::JsonToggled(v) => (
            with_data_content(
                s,
                ContentView {
                    launch_options: Options { json: v, ..data_content(s).launch_options },
                    ..data_content(s)
                },
            ),
            false,
            None,
        ),
        MessageView::ListToggled(v) => (
            with_data_content(
                s,
                ContentView {
                    launch_options: Options { list: v, ..data_content(s).launch_options },
                    ..data_content(s)
                },
            ),
            false,
            None,
        ),
        MessageView::VerboseToggled(v) => (
            with_data_content(
                s,
                ContentView {
                    launch_options: Options { verbose: v, ..data_content(s).launch_options },
                    ..data_content(s)
                },
            ),
            false,
            None,
        ),
        MessageView::InputChanged(v) => (
            with_data_content(s, ContentView { input_value: v, ..data_content(s) }),
            false,
            None,
        ),
        MessageView::LaunchCommand => {
            let (s1, run) = launch_step(s);
            (s1, false, run)
        },
        MessageView::Saved(_) => (StateView { saving: false, ..s }, true, None),
        _ => (s, false, None),
    }
}

/// The debounce discipline, applied after the message-specific part: any
/// message but a save acknowledgement marks the state dirty; a save of the
/// current tasks is scheduled exactly when the state is dirty and no save
/// is in flight.
pub open spec fn schedule_save(s: StateView, saved: bool) -> (StateView, Option<Seq<TaskView>>) {
    let s1 = if !saved {
        StateView { dirty: true, ..s }
    } else {
        s
    };
    if s1.dirty && !s1.saving {
        (StateView { dirty: false, saving: true, ..s1 }, Some(s1.tasks))
    } else {
        (s1, None)
    }
}

/// One whole step on a loaded state.
pub open spec fn loaded_update(s: StateView, m: MessageView) -> (StateView, EffectsView) {
    let (s1, saved, run) = loaded_step(s, m);
    let (s2, save) = schedule_save(s1, saved);
    (s2, EffectsView { save, run })
}

/// One whole step of the application: while loading, only the two load
/// outcomes are acted on (the saved tasks, or an empty list on failure,
/// enter a fresh default layout); once loaded, every message takes a
/// `loaded_update` step.
pub open spec fn spec_update(g: GuiView, m: MessageView) -> (GuiView, EffectsView) {
    match g {
        GuiView::Loading => (
            match m {
                MessageView::Loaded(Ok(tasks)) => GuiView::Loaded(default_state(tasks)),
                MessageView::Loaded(Err(_)) => GuiView::Loaded(
                    default_state(Seq::<TaskView>::empty()),
                ),
                _ => GuiView::Loading,
            },
            no_effects(),
        ),
        GuiView::Loaded(s) => {
            let (s2, eff) = loaded_update(s, m);
            (GuiView::Loaded(s2), eff)
        },
    }
}

/// A message a caller may deliver: running an existing task names a task
/// that exists.
pub open spec fn message_ok(g: GuiView, m: MessageView) -> bool {
    match (g, m) {
        (GuiView::Loaded(s), MessageView::TaskMessage(i, TaskMessage::Run)) => i < s.tasks.len(),
        _ => true,
    }
}

/// Perform a launch request on the loaded state; returns the command to
/// run, if any.
fn launch_command(state: &mut State) -> (run: Option<String>)
    requires
        state_wf(old(state)@),
    ensures
        final(state)@ == launch_step(old(state)@).0,
        opt_string_view(run) == launch_step(old(state)@).1,
        state_wf(final(state)@),
{
    let ghost s0 = state@;
    let pane = state.data_pane;
    let sel = state.panes_state.content(pane).selected_command;
    match sel {
        PerfEvent::Stat => {
            let options = state.panes_state.content(pane).get_options();
            let input = state.panes_state.content(pane).input_value.clone();
            let r = Task::new(Some(PerfEvent::Stat), Some(options), Some(input));
            let t = match r {
                Ok(t) => t,
                Err(_) => vstd::pervasive::unreached(),
            };
            let cmd = t.command.clone();
            state.tasks.push(t);
            state.panes_state.set_context(pane, Context::Main);
            proof {
                assert(state@.tasks =~= s0.tasks.push(launched_task(PerfEvent::Stat, data_content(s0))));
                assert(state@ == launch_step(s0).0);
            }
            Some(cmd)
        },
        PerfEvent::Test => {
            let options = state.panes_state.content(pane).get_options();
            let r = Task::new(Some(PerfEvent::Test), Some(options), None);
            let t = match r {
                Ok(t) => t,
                Err(_) => vstd::pervasive::unreached(),
            };
            let cmd = t.command.clone();
            state.tasks.push(t);
            state.panes_state.set_context(pane, Context::Main);
            proof {
                assert(state@.tasks =~= s0.tasks.push(launched_task(PerfEvent::Test, data_content(s0))));
                assert(state@ == launch_step(s0).0);
            }
            Some(cmd)
        },
        PerfEvent::Record => {
            proof {
                reveal_strlit("Record output:");
            }
            let text = String::from_str("Record output:");
            proof {
                assert(text@ =~= placeholder_text(PerfEvent::Record));
            }
            write_placeholder(state, pane, text);
            None
        },
        PerfEvent::Report => {
            proof {
                reveal_strlit("Report output:");
            }
            let text = String::from_str("Report output:");
            proof {
                assert(text@ =~= placeholder_text(PerfEvent::Report));
            }
            write_placeholder(state, pane, text);
            None
        },
        PerfEvent::Annotate => {
            proof {
                reveal_strlit("Annotate output:");
            }
            let text = String::from_str("Annotate output:");
            proof {
                assert(text@ =~= placeholder_text(PerfEvent::Annotate));
            }
            write_placeholder(state, pane, text);
            None
        },
        PerfEvent::Top => {
            proof {
                reveal_strlit("Top output:");
            }
            let text = String::from_str("Top output:");
            proof {
                assert(text@ =~= placeholder_text(PerfEvent::Top));
            }
            write_placeholder(state, pane, text);
            None
        },
        PerfEvent::Bench => {
            proof {
                reveal_strlit("Bench output:");
            }
            let text = String::from_str("Bench output:");
            proof {
                assert(text@ =~= placeholder_text(PerfEvent::Bench));
            }
            write_placeholder(state, pane, text);
            None
        },
    }
}

/// Write the placeholder text into the main pane and return it to the Main
/// context.
fn write_placeholder(state: &mut State, pane: usize, text: String)
    requires
        state_wf(old(state)@),
        pane == old(state)@.data_pane,
    ensures
        final(state)@ == with_data_content(
            old(state)@,
            (ContentView {
                data: text@,
                context: Context::Main,
                ..data_content(old(state)@)
            }),
        ),
        state_wf(final(state)@),
{
    let ghost s0 = state@;
    let ghost tv = text@;
    state.panes_state.set_data(pane, text);
    state.panes_state.set_context(pane, Context::Main);
    proof {
        let i = s0.data_pane as int;
        let a = ContentView { data: tv, ..data_content(s0) };
        let b = ContentView { data: tv, context: Context::Main, ..data_content(s0) };
        assert(s0.panes_state.panes.update(i, a).update(i, b) =~= s0.panes_state.panes.update(i, b));
    }
}


/// Apply the debounce discipline after a message: mark the state dirty
/// unless the message acknowledged a finished save, and schedule a save of
/// the current tasks exactly when the state is dirty and no save is in
/// flight.
fn apply_save_schedule(state: &mut State, saved: bool) -> (save: Option<SavedState>)
    ensures
        final(state)@ == schedule_save(old(state)@, saved).0,
        opt_saved_view(save) == schedule_save(old(state)@, saved).1,
        state_wf(old(state)@) ==> state_wf(final(state)@),
{
    if !saved {
        state.dirty = true;
    }
    if state.dirty && !state.saving {
        state.dirty = false;
        state.saving = true;
        Some(SavedState { tasks: crate::task::clone_tasks(&state.tasks) })
    } else {
        None
    }
}

/// One step on a loaded session: apply the message, then the debounce
/// discipline.
#[verifier::rlimit(100)]
#[verifier::spinoff_prover]
fn update_loaded(state: &mut State, message: Message) -> (eff: Effects)
    requires
        state_wf(old(state)@),
        message_ok(GuiView::Loaded(old(state)@), message@),
    ensures
        final(state)@ == loaded_update(old(state)@, message@).0,
        eff@ == loaded_update(old(state)@, message@).1,
        state_wf(final(state)@),
{
    let ghost s0 = state@;
    let mut saved = false;
    let mut run: Option<String> = None;
    match message {
        Message::Resized(ev) => {
            state.panes_state.resize(ev.split, ev.ratio);
            proof {
                assert(loaded_step(s0, message@) == (state@, false, None::<Seq<char>>));
            }
        },
        Message::NewAppPressed => {
            let pane = state.data_pane;
            state.panes_state.set_context(pane, Context::NewEvent);
            proof {
                assert(loaded_step(s0, message@) == (state@, false, None::<Seq<char>>));
            }
        },
        Message::TaskMessage(i, tm) => {
            match tm {
                TaskMessage::Run => {
                    run = Some(state.tasks[i].command.clone());
                    proof {
                        assert(loaded_step(s0, message@) == (state@, false, opt_string_view(run)));
                    }
                },
                _ => {
                    proof {
                        assert(loaded_step(s0, message@) == (state@, false, None::<Seq<char>>));
                    }
                },
            }
        },
        Message::CommandSelected(e) => {
            let pane = state.data_pane;
            state.panes_state.set_selected_command(pane, e);
            proof {
                assert(loaded_step(s0, message@) == (state@, false, None::<Seq<char>>));
            }
        },
        Message::CyclesToggled(v) => {
            let pane = state.data_pane;
            let o = state.panes_state.content(pane).launch_options;
            state.panes_state.set_launch_options(pane, Options { cycles: v, ..o });
            proof {
                assert(loaded_step(s0, message@) == (state@, false, None::<Seq<char>>));
            }
        },
        Message::InstructionsToggled(v) => {
            let pane = state.data_pane;
            let o = state.panes_state.content(pane).launch_options;
            state.panes_state.set_launch_options(pane, Options { instructions: v, ..o });
            proof {
                assert(loaded_step(s0, message@) == (state@, false, None::<Seq<char>>));
            }
        },
        Message::JsonToggled(v) => {
            let pane = state.data_pane;
            let o = state.panes_state.content(pane).launch_options;
            state.panes_state.set_launch_options(pane, Options { json: v, ..o });
            proof {
                assert(loaded_step(s0, message@) == (state@, false, None::<Seq<char>>));
            }
        },
        Message::ListToggled(v) => {
            let pane = state.data_pane;
            let o = state.panes_state.content(pane).launch_options;
            state.panes_state.set_launch_options(pane, Options { list: v, ..o });
            proof {
                assert(loaded_step(s0, message@) == (state@, false, None::<Seq<char>>));
            }
        },
        Message::VerboseToggled(v) => {
            let pane = state.data_pane;
            let o = state.panes_state.content(pane).launch_options;
            state.panes_state.set_launch_options(pane, Options { verbose: v, ..o });
            proof {
                assert(loaded_step(s0, message@) == (state@, false, None::<Seq<char>>));
            }
        },
        Message::InputChanged(v) => {
            let pane = state.data_pane;
            state.panes_state.set_input_value(pane, v);
            proof {
                assert(loaded_step(s0, message@) == (state@, false, None::<Seq<char>>));
            }
        },
        Message::LaunchCommand => {
            run = launch_command(state);
            proof {
                assert(loaded_step(s0, message@) == (state@, false, opt_string_view(run)));
            }
        },
        Message::Saved(_) => {
            state.saving = false;
            saved = true;
            proof {
                assert(loaded_step(s0, message@) == (state@, true, None::<Seq<char>>));
            }
        },
        Message::Loaded(_) => {
            proof {
                assert(loaded_step(s0, message@) == (state@, false, None::<Seq<char>>));
            }
        },
        Message::TaskSelected(_) => {
            proof {
                assert(loaded_step(s0, message@) == (state@, false, None::<Seq<char>>));
            }
        },
    }
    let save = apply_save_schedule(state, saved);
    Effects { save, run }
}

/// One step of the whole application.
pub fn update(gui: &mut Gui, message: Message) -> (eff: Effects)
    requires
        gui_wf(old(gui)@),
        message_ok(old(gui)@, message@),
    ensures
        final(gui)@ == spec_update(old(gui)@, message@).0,
        eff@ == spec_update(old(gui)@, message@).1,
        gui_wf(final(gui)@),
{
    match gui {
        Gui::Loading => {
            match message {
                Message::Loaded(Ok(saved)) => {
                    *gui = Gui::Loaded(State::with_tasks(saved.tasks));
                },
                Message::Loaded(Err(_)) => {
                    *gui = Gui::Loaded(State::default());
                },
                _ => {},
            }
            Effects { save: None, run: None }
        },
        Gui::Loaded(state) => update_loaded(state, message),
    }
}

/// The report a launch outcome writes into the main pane: the captured
/// standard output on success, a description of the failure otherwise.
pub open spec fn launch_report(r: Result<Seq<char>, Seq<char>>) -> Seq<char> {
    match r {
        Ok(out) => out,
        Err(msg) => seq!['E', 'r', 'r', 'o', 'r', ':', ' '] + msg,
    }
}

/// Mathematical image of a launch outcome: the captured output, or the
/// text describing the error.
pub open spec fn launch_result_view(r: Result<String, ProgramError>) -> Result<
    Seq<char>,
    Seq<char>,
> {
    match r {
        Ok(out) => Ok(out@),
        Err(ProgramError::PerfEvent) => Err(seq!['n', 'o', ' ', 'e', 'v', 'e', 'n', 't']),
        Err(ProgramError::Program(m)) => Err(m@),
    }
}

/// Write a launch outcome into the main pane's output field.  A failed
/// launch is recoverable: its description is surfaced in the same field,
/// and nothing else changes.
pub fn record_launch_result(state: &mut State, result: Result<String, ProgramError>)
    requires
        state_wf(old(state)@),
    ensures
        final(state)@ == with_data_content(
            old(state)@,
            (ContentView {
                data: launch_report(launch_result_view(result)),
                ..data_content(old(state)@)
            }),
        ),
        state_wf(final(state)@),
{
    let pane = state.data_pane;
    match result {
        Ok(out) => {
            state.panes_state.set_data(pane, out);
        },
        Err(e) => {
            proof {
                reveal_strlit("Error: ");
                reveal_strlit("no event");
            }
            let mut text = String::from_str("Error: ");
            match e {
                ProgramError::PerfEvent => {
                    text.append("no event");
                },
                ProgramError::Program(m) => {
                    text.append(m.as_str());
                },
            }
            proof {
                assert(text@ =~= launch_report(launch_result_view(result)));
            }
            state.panes_state.set_data(pane, text);
        },
    }
}

/// While a save is in flight, mutating messages do not schedule another
/// save; the acknowledgement of the in-flight save then schedules exactly
/// one follow-up save, and it reflects the latest state — the tasks as
/// they stand after both mutations.  A further acknowledgement with no
/// intervening mutation schedules nothing.
pub proof fn lemma_saves_coalesce(s: StateView, m1: MessageView, m2: MessageView)
    requires
        s.saving,
        !(m1 is Saved),
        !(m2 is Saved),
    ensures
        ({
            let (g1, e1) = spec_update(GuiView::Loaded(s), m1);
            let (g2, e2) = spec_update(g1, m2);
            let (g3, e3) = spec_update(g2, MessageView::Saved(Ok(())));
            let (g4, e4) = spec_update(g3, MessageView::Saved(Ok(())));
            &&& e1.save is None
            &&& e2.save is None
            &&& g2 is Loaded
            &&& e3.save == Some(g2->Loaded_0.tasks)
            &&& e4.save is None
        }),
{
}

/// While still loading, any message other than the two load outcomes is
/// ignored: the application stays in the Loading state and no side effect
/// is requested.
pub proof fn lemma_loading_ignores_other_messages(m: MessageView)
    requires
        !(m is Loaded),
    ensures
        spec_update(GuiView::Loading, m) == (GuiView::Loading, no_effects()),
{
}

} // verus!
