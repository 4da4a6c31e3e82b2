//! Task records and the command builder: turning a selected task kind, its
//! option flags and an optional program path into the exact command line
//! that the external tool is launched with.

use vstd::prelude::*;

use crate::events::{keyword, PerfEvent};

verus! {

/// Transient execution state of a task record; never persisted.
#[derive(Clone, Copy, Debug, PartialEq, Eq, Structural)]
pub enum TaskState {
    Idle,
    Running,
    Completed,
}

/// Why a task could not be constructed.
#[derive(Clone, Copy, Debug, PartialEq, Eq, Structural)]
pub enum ConstructionError {
    /// No task kind was supplied.
    MissingEvent,
    /// The options argument was omitted entirely (an empty options string
    /// is valid; its absence is not).
    MissingOptions,
}

/// A persisted record of one launched (or launchable) external command.
pub struct Task {
    pub event: PerfEvent,
    pub program: String,
    pub options: String,
    pub command: String,
    pub state: TaskState,
}

/// Mathematical image of a task record.
pub ghost struct TaskView {
    pub event: PerfEvent,
    pub program: Seq<char>,
    pub options: Seq<char>,
    pub command: Seq<char>,
    pub state: TaskState,
}

impl View for Task {
    type V = TaskView;

    open spec fn view(&self) -> TaskView {
        TaskView {
            event: self.event,
            program: self.program@,
            options: self.options@,
            command: self.command@,
            state: self.state,
        }
    }
}

/// The command line built from a kind, an options string and a program
/// argument: the kind's keyword, then the options, then — for the Stat
/// kind — one further space, then the program.
pub open spec fn built_command(event: PerfEvent, options: Seq<char>, program: Seq<char>) -> Seq<
    char,
> {
    keyword(event) + options + (if event == PerfEvent::Stat {
        seq![' ']
    } else {
        Seq::<char>::empty()
    }) + program
}

/// A task record is coherent: its cached command is the one the builder
/// yields for its kind, options and program.
pub open spec fn task_coherent(t: TaskView) -> bool {
    t.command == built_command(t.event, t.options, t.program)
}

impl Task {
    /// Construct a task record, caching the built command.  Fails when no
    /// kind is supplied, or when the options argument is absent.
    pub fn new(event: Option<PerfEvent>, options: Option<String>, program: Option<String>) -> (r:
        Result<Task, ConstructionError>)
        ensures
            event is None ==> r == Err::<Task, ConstructionError>(ConstructionError::MissingEvent),
            event is Some && options is None ==> r == Err::<Task, ConstructionError>(
                ConstructionError::MissingOptions,
            ),
            event is Some && options is Some ==> r is Ok && r->Ok_0@ == (TaskView {
                event: event->0,
                program: if program is Some {
                    program->0@
                } else {
                    Seq::<char>::empty()
                },
                options: options->0@,
                command: built_command(
                    event->0,
                    options->0@,
                    if program is Some {
                        program->0@
                    } else {
                        Seq::<char>::empty()
                    },
                ),
                state: TaskState::Idle,
            }),
            r is Ok ==> task_coherent(r->Ok_0@),
    {
        let task_event = match event {
            Some(e) => e,
            None => {
                return Err(ConstructionError::MissingEvent);
            },
        };
        let task_options = match options {
            Some(o) => o,
            None => {
                return Err(ConstructionError::MissingOptions);
            },
        };
        let task_program = match program {
            Some(p) => p,
            None => String::new(),
        };
        let mut command = String::new();
        command.append(task_event.as_str());
        command.append(task_options.as_str());
        if task_event == PerfEvent::Stat {
            proof {
                reveal_strlit(" ");
            }
            command.append(" ");
        }
        command.append(task_program.as_str());
        proof {
            assert(command@ =~= built_command(task_event, task_options@, task_program@));
        }
        Ok(
            Task {
                event: task_event,
                program: task_program,
                options: task_options,
                command,
                state: TaskState::Idle,
            },
        )
    }

}

impl Clone for Task {
    /// A field-for-field copy of the record.
    fn clone(&self) -> (r: Self)
        ensures
            r@ == self@,
    {
        Task {
            event: self.event,
            program: self.program.clone(),
            options: self.options.clone(),
            command: self.command.clone(),
            state: self.state,
        }
    }
}

impl Default for Task {
    /// An empty record of the default kind.
    fn default() -> (r: Self)
        ensures
            r@ == (TaskView {
                event: PerfEvent::Stat,
                program: Seq::<char>::empty(),
                options: Seq::<char>::empty(),
                command: Seq::<char>::empty(),
                state: TaskState::Idle,
            }),
    {
        Task {
            event: PerfEvent::default(),
            program: String::new(),
            options: String::new(),
            command: String::new(),
            state: TaskState::Idle,
        }
    }
}

/// Copy a sequence of task records, preserving each record's image.
pub fn clone_tasks(tasks: &Vec<Task>) -> (r: Vec<Task>)
    ensures
        r@.map_values(|t: Task| t@) == tasks@.map_values(|t: Task| t@),
{
    let mut r: Vec<Task> = Vec::new();
    let mut i: usize = 0;
    while i < tasks.len()
        invariant
            i <= tasks.len(),
            r@.map_values(|t: Task| t@) == tasks@.subrange(0, i as int).map_values(|t: Task| t@),
        decreases tasks.len() - i,
    {
        r.push(tasks[i].clone());
        proof {
            assert(tasks@.subrange(0, i + 1 as int).map_values(|t: Task| t@) =~= tasks@.subrange(
                0,
                i as int,
            ).map_values(|t: Task| t@).push(tasks@[i as int]@));
            assert(r@.map_values(|t: Task| t@) =~= tasks@.subrange(0, i + 1 as int).map_values(
                |t: Task| t@,
            ));
        }
        i = i + 1;
    }
    proof {
        assert(tasks@.subrange(0, tasks@.len() as int) =~= tasks@);
    }
    r
}

} // verus!
