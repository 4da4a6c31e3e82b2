//! Per-pane content: the state a pane holds and the option-flag text that
//! the selected task kind contributes to a built command.

use vstd::prelude::*;

use crate::events::PerfEvent;
use crate::task::{Task, TaskView};

verus! {

/// What the main pane currently shows.
#[derive(Clone, Copy, Debug, PartialEq, Eq, Structural)]
pub enum Context {
    Main,
    NewEvent,
}

/// The role a pane plays in the workspace.
#[derive(Clone, Copy, Debug, PartialEq, Eq, Structural)]
pub enum PaneType {
    Task,
    Main,
    Log,
}

/// The boolean option flags a launch can select, scoped per kind:
/// `cycles` and `instructions` belong to Stat; `json`, `list` and
/// `verbose` belong to Test.
#[derive(Clone, Copy, Debug, PartialEq, Eq, Structural)]
pub struct Options {
    pub cycles: bool,
    pub instructions: bool,
    pub json: bool,
    pub list: bool,
    pub verbose: bool,
}

pub open spec fn flag_cycles() -> Seq<char> {
    seq![' ', '-', '-', 'e', 'v', 'e', 'n', 't', ' ', 'c', 'y', 'c', 'l', 'e', 's']
}

pub open spec fn flag_instructions() -> Seq<char> {
    seq![
        ' ',
        '-',
        '-',
        'e',
        'v',
        'e',
        'n',
        't',
        ' ',
        'i',
        'n',
        's',
        't',
        'r',
        'u',
        'c',
        't',
        'i',
        'o',
        'n',
        's',
    ]
}

pub open spec fn flag_json() -> Seq<char> {
    seq![' ', '-', '-', 'j', 's', 'o', 'n']
}

pub open spec fn flag_list() -> Seq<char> {
    seq![' ', '-', '-', 'l', 'i', 's', 't']
}

pub open spec fn flag_verbose() -> Seq<char> {
    seq![' ', '-', '-', 'v', 'e', 'r', 'b', 'o', 's', 'e']
}

/// The option text for the Stat kind: each selected event flag in order,
/// and always one trailing space before the program argument.
pub open spec fn stat_options_text(o: Options) -> Seq<char> {
    (if o.cycles {
        flag_cycles()
    } else {
        Seq::<char>::empty()
    }) + (if o.instructions {
        flag_instructions()
    } else {
        Seq::<char>::empty()
    }) + seq![' ']
}

/// The option text for the Test kind: the flags are mutually exclusive by
/// priority — json beats list beats verbose.
pub open spec fn test_options_text(o: Options) -> Seq<char> {
    if o.json {
        flag_json()
    } else if o.list {
        flag_list()
    } else if o.verbose {
        flag_verbose()
    } else {
        Seq::<char>::empty()
    }
}

/// The option text a kind contributes; kinds other than Stat and Test have
/// no flag tokens.
pub open spec fn options_text(cmd: PerfEvent, o: Options) -> Seq<char> {
    match cmd {
        PerfEvent::Stat => stat_options_text(o),
        PerfEvent::Test => test_options_text(o),
        _ => Seq::<char>::empty(),
    }
}

impl Options {
    /// Format the Stat event flags, with the trailing space always
    /// appended.
    pub fn get_options(&self) -> (r: String)
        ensures
            r@ == stat_options_text(*self),
    {
        proof {
            reveal_strlit(" --event cycles");
            reveal_strlit(" --event instructions");
            reveal_strlit(" ");
        }
        let mut res = String::new();
        if self.cycles {
            res.append(" --event cycles");
        }
        if self.instructions {
            res.append(" --event instructions");
        }
        res.append(" ");
        proof {
            assert(res@ =~= stat_options_text(*self));
        }
        res
    }
}

impl Default for Options {
    /// All flags start cleared.
    fn default() -> (r: Self)
        ensures
            r == (Options {
                cycles: false,
                instructions: false,
                json: false,
                list: false,
                verbose: false,
            }),
    {
        Options { cycles: false, instructions: false, json: false, list: false, verbose: false }
    }
}

/// Everything one pane holds.  The task pane carries the ordered read
/// projection of the task registry in `tasks`; the main pane carries the
/// launch-editing fields; the log pane carries `log`.
pub struct Content {
    pub input_value: String,
    pub selected_command: PerfEvent,
    pub data: String,
    pub log: String,
    pub application: String,
    pub pane_type: PaneType,
    pub context: Context,
    pub launch_options: Options,
    pub tasks: Vec<Task>,
}

/// Mathematical image of a pane's content.
pub ghost struct ContentView {
    pub input_value: Seq<char>,
    pub selected_command: PerfEvent,
    pub data: Seq<char>,
    pub log: Seq<char>,
    pub application: Seq<char>,
    pub pane_type: PaneType,
    pub context: Context,
    pub launch_options: Options,
    pub tasks: Seq<TaskView>,
}

impl View for Content {
    type V = ContentView;

    open spec fn view(&self) -> ContentView {
        ContentView {
            input_value: self.input_value@,
            selected_command: self.selected_command,
            data: self.data@,
            log: self.log@,
            application: self.application@,
            pane_type: self.pane_type,
            context: self.context,
            launch_options: self.launch_options,
            tasks: self.tasks@.map_values(|t: Task| t@),
        }
    }
}

/// The content a freshly created pane of the given role holds.
pub open spec fn default_content(pane_type: PaneType) -> ContentView {
    ContentView {
        input_value: Seq::<char>::empty(),
        selected_command: PerfEvent::Stat,
        data: Seq::<char>::empty(),
        log: Seq::<char>::empty(),
        application: Seq::<char>::empty(),
        pane_type: pane_type,
        context: Context::Main,
        launch_options: Options {
            cycles: false,
            instructions: false,
            json: false,
            list: false,
            verbose: false,
        },
        tasks: Seq::<TaskView>::empty(),
    }
}

impl Content {
    /// A pane's content at creation: empty text fields, the default kind
    /// selected, the Main context, all option flags cleared, no tasks.
    pub fn new(pane_type: PaneType) -> (r: Self)
        ensures
            r@ == default_content(pane_type),
    {
        let r = Content {
            input_value: String::new(),
            selected_command: PerfEvent::default(),
            data: String::new(),
            log: String::new(),
            application: String::new(),
            pane_type,
            context: Context::Main,
            launch_options: Options::default(),
            tasks: Vec::new(),
        };
        proof {
            assert(r@.tasks =~= Seq::<TaskView>::empty());
        }
        r
    }

    /// Format the option text that the currently selected kind contributes
    /// to a built command.
    pub fn get_options(&self) -> (r: String)
        ensures
            r@ == options_text(self.selected_command, self.launch_options),
    {
        match self.selected_command {
            PerfEvent::Stat => self.launch_options.get_options(),
            PerfEvent::Test => {
                proof {
                    reveal_strlit(" --json");
                    reveal_strlit(" --list");
                    reveal_strlit(" --verbose");
                }
                let mut res = String::new();
                if self.launch_options.json {
                    res.append(" --json");
                } else if self.launch_options.list {
                    res.append(" --list");
                } else if self.launch_options.verbose {
                    res.append(" --verbose");
                }
                proof {
                    assert(res@ =~= test_options_text(self.launch_options));
                }
                res
            },
            _ => String::new(),
        }
    }
}

} // verus!
