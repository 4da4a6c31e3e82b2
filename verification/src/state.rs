//! The loaded application state: the task registry, the pane workspace
//! with its designated role panes, and the flags that drive debounced
//! persistence.

use vstd::prelude::*;

use crate::pane::{Content, PaneType};
use crate::task::{Task, TaskView};
use crate::workspace::{
    workspace_wf, Axis, Node, SplitNode, Workspace, WorkspaceView,
};

verus! {

/// The serializable projection of the application: the ordered task list.
/// Transient task state is dropped on serialize and comes back as Idle.
pub struct SavedState {
    pub tasks: Vec<Task>,
}

impl View for SavedState {
    type V = Seq<TaskView>;

    open spec fn view(&self) -> Seq<TaskView> {
        self.tasks@.map_values(|t: Task| t@)
    }
}

/// Why a persisted record could not be loaded.
#[derive(Clone, Copy, Debug, PartialEq, Eq, Structural)]
pub enum LoadError {
    /// The durable store could not be read.
    FileError,
    /// The stored text does not decode to a task list.
    FormatError,
}

/// Why the application state could not be saved.
#[derive(Clone, Copy, Debug, PartialEq, Eq, Structural)]
pub enum SaveError {
    FileError,
    WriteError,
    FormatError,
}

/// Why a launched external process yielded no usable output.
#[derive(Debug, PartialEq, Eq)]
pub enum ProgramError {
    /// No runnable task kind was at hand.
    PerfEvent,
    /// Spawning the process or decoding its output failed; the payload
    /// describes what went wrong.
    Program(String),
}

/// The state of a fully loaded session.
pub struct State {
    pub tasks: Vec<Task>,
    pub panes_state: Workspace,
    pub panes_created: usize,
    pub data_pane: usize,
    pub log_pane: usize,
    pub task_pane: usize,
    pub vert_split: usize,
    pub horz_split: usize,
    pub dirty: bool,
    pub saving: bool,
}

/// Mathematical image of a loaded session.
pub ghost struct StateView {
    pub tasks: Seq<TaskView>,
    pub panes_state: WorkspaceView,
    pub panes_created: usize,
    pub data_pane: usize,
    pub log_pane: usize,
    pub task_pane: usize,
    pub vert_split: usize,
    pub horz_split: usize,
    pub dirty: bool,
    pub saving: bool,
}

impl View for State {
    type V = StateView;

    open spec fn view(&self) -> StateView {
        StateView {
            tasks: self.tasks@.map_values(|t: Task| t@),
            panes_state: self.panes_state@,
            panes_created: self.panes_created,
            data_pane: self.data_pane,
            log_pane: self.log_pane,
            task_pane: self.task_pane,
            vert_split: self.vert_split,
            horz_split: self.horz_split,
            dirty: self.dirty,
            saving: self.saving,
        }
    }
}

/// A session state is well-formed: its workspace is, and the three
/// designated role handles address panes.
pub open spec fn state_wf(s: StateView) -> bool {
    &&& workspace_wf(s.panes_state)
    &&& s.data_pane < s.panes_state.panes.len()
    &&& s.task_pane < s.panes_state.panes.len()
    &&& s.log_pane < s.panes_state.panes.len()
}

/// The fixed three-pane default layout: a task pane split vertically from
/// a main pane, itself split horizontally from a log pane, at the initial
/// ratios 0.17 and 0.88 of `RATIO_SCALE`.
pub open spec fn default_workspace() -> WorkspaceView {
    WorkspaceView {
        panes: seq![
            crate::pane::default_content(PaneType::Task),
            crate::pane::default_content(PaneType::Main),
            crate::pane::default_content(PaneType::Log),
        ],
        splits: seq![
            SplitNode {
                axis: Axis::Vertical,
                ratio: 170000u32,
                first: Node::Pane(0usize),
                second: Node::Split(1usize),
            },
            SplitNode {
                axis: Axis::Horizontal,
                ratio: 880000u32,
                first: Node::Pane(1usize),
                second: Node::Pane(2usize),
            },
        ],
        root: Node::Split(0usize),
    }
}

/// A freshly loaded session: the given tasks, the default layout, nothing
/// dirty and no save in flight.
pub open spec fn default_state(tasks: Seq<TaskView>) -> StateView {
    StateView {
        tasks,
        panes_state: default_workspace(),
        panes_created: 3usize,
        data_pane: 1usize,
        log_pane: 2usize,
        task_pane: 0usize,
        vert_split: 0usize,
        horz_split: 1usize,
        dirty: false,
        saving: false,
    }
}

impl State {
    /// Build a session around the given task list: the default three-pane
    /// layout with its fixed initial ratios.
    pub fn with_tasks(tasks: Vec<Task>) -> (r: State)
        ensures
            r@ == default_state(tasks@.map_values(|t: Task| t@)),
            state_wf(r@),
    {
        let ghost tasks_view = tasks@.map_values(|t: Task| t@);
        let (mut panes_state, task_pane) = Workspace::new(Content::new(PaneType::Task));
        let r1 = panes_state.split(Axis::Vertical, task_pane, Content::new(PaneType::Main));
        let (data_pane, vert_split) = r1.unwrap();
        let r2 = panes_state.split(Axis::Horizontal, data_pane, Content::new(PaneType::Log));
        let (log_pane, horz_split) = r2.unwrap();
        panes_state.resize(vert_split, 170000);
        panes_state.resize(horz_split, 880000);
        proof {
            assert(panes_state@.panes =~= default_workspace().panes);
            assert(panes_state@.splits =~= default_workspace().splits);
        }
        let r = State {
            tasks,
            panes_state,
            panes_created: 3,
            data_pane,
            log_pane,
            task_pane,
            vert_split,
            horz_split,
            dirty: false,
            saving: false,
        };
        proof {
            assert(r@.tasks == tasks_view);
        }
        r
    }
}

impl Default for State {
    /// A session with no tasks, in the default layout.
    fn default() -> (r: Self)
        ensures
            r@ == default_state(Seq::<TaskView>::empty()),
            state_wf(r@),
    {
        let r = State::with_tasks(Vec::new());
        proof {
            assert(Seq::<Task>::empty().map_values(|t: Task| t@) =~= Seq::<TaskView>::empty());
        }
        r
    }
}

/// Copy the registry's ordered task list into the task pane's content, the
/// read projection shown there.
pub fn sync_task_pane(state: &mut State)
    requires
        state_wf(old(state)@),
    ensures
        final(state)@ == (StateView {
            panes_state: (WorkspaceView {
                panes: old(state)@.panes_state.panes.update(
                    old(state)@.task_pane as int,
                    (crate::pane::ContentView {
                        tasks: old(state)@.tasks,
                        ..old(state)@.panes_state.panes[old(state)@.task_pane as int]
                    }),
                ),
                ..old(state)@.panes_state
            }),
            ..old(state)@
        }),
        state_wf(final(state)@),
{
    let tasks = crate::task::clone_tasks(&state.tasks);
    let p = state.task_pane;
    state.panes_state.set_tasks(p, tasks);
}

/// The title shown on the application's main window.
pub fn title() -> (r: String)
    ensures
        r@ == seq!['R', 'u', 'p', 'e', 'r', 'f'],
{
    proof {
        reveal_strlit("Ruperf");
    }
    let r = String::from_str("Ruperf");
    proof {
        assert(r@ =~= seq!['R', 'u', 'p', 'e', 'r', 'f']);
    }
    r
}

} // verus!
