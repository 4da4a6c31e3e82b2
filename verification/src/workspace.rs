//! The pane workspace: an arena of leaf panes and split nodes addressed by
//! stable handles, supporting splitting, resizing and content access.
//!
//! A ratio is stored as a fixed-point fraction of `RATIO_SCALE`, so the
//! whole range a split can take is `0 ..= RATIO_SCALE`.

use vstd::prelude::*;

use crate::pane::{Content, ContentView, Context, Options};
use crate::task::Task;

verus! {

/// The denominator of a stored split ratio: a ratio of `RATIO_SCALE`
/// stands for the full extent.
pub const RATIO_SCALE: u32 = 1000000;

/// The ratio a fresh split starts with: the two regions share equally.
pub const HALF_RATIO: u32 = 500000;

/// The direction a split divides its region in.
#[derive(Clone, Copy, Debug, PartialEq, Eq, Structural)]
pub enum Axis {
    Horizontal,
    Vertical,
}

/// A reference to a tree node: either a leaf pane or a further split,
/// each addressed by its arena index.
#[derive(Clone, Copy, Debug, PartialEq, Eq, Structural)]
pub enum Node {
    Pane(usize),
    Split(usize),
}

/// An internal tree node: two child regions divided along an axis at a
/// stored ratio.
#[derive(Clone, Copy, Debug, PartialEq, Eq, Structural)]
pub struct SplitNode {
    pub axis: Axis,
    pub ratio: u32,
    pub first: Node,
    pub second: Node,
}

/// The workspace: all pane contents and all splits, in arenas, plus the
/// root of the tree.  Handles are arena indices and stay valid for the
/// workspace's whole life (panes and splits are never deleted).
pub struct Workspace {
    pub panes: Vec<Content>,
    pub splits: Vec<SplitNode>,
    pub root: Node,
}

/// Mathematical image of the workspace.
pub ghost struct WorkspaceView {
    pub panes: Seq<ContentView>,
    pub splits: Seq<SplitNode>,
    pub root: Node,
}

impl View for Workspace {
    type V = WorkspaceView;

    open spec fn view(&self) -> WorkspaceView {
        WorkspaceView {
            panes: self.panes@.map_values(|c: Content| c@),
            splits: self.splits@,
            root: self.root,
        }
    }
}

/// A node reference points into the arenas.
pub open spec fn node_wf(n: Node, n_panes: nat, n_splits: nat) -> bool {
    match n {
        Node::Pane(p) => p < n_panes,
        Node::Split(s) => s < n_splits,
    }
}

/// Well-formed workspace: every stored ratio lies in `0 ..= RATIO_SCALE`
/// and every node reference points into the arenas.
pub open spec fn workspace_wf(w: WorkspaceView) -> bool {
    &&& forall|i: int|
        0 <= i < w.splits.len() ==> (#[trigger] w.splits[i]).ratio <= RATIO_SCALE
    &&& forall|i: int|
        0 <= i < w.splits.len() ==> node_wf(
            (#[trigger] w.splits[i]).first,
            w.panes.len(),
            w.splits.len(),
        ) && node_wf(w.splits[i].second, w.panes.len(), w.splits.len())
    &&& node_wf(w.root, w.panes.len(), w.splits.len())
}

/// An out-of-range ratio is clamped to the stored range.
pub open spec fn clamp_ratio(r: u32) -> u32 {
    if r > RATIO_SCALE {
        RATIO_SCALE
    } else {
        r
    }
}

/// Redirect a reference to the given pane towards the split that now
/// stands in its place.
pub open spec fn rewire_node(n: Node, target: usize, new_split: usize) -> Node {
    if n == Node::Pane(target) {
        Node::Split(new_split)
    } else {
        n
    }
}

/// Redirect a split's child references away from the given pane.
pub open spec fn rewire_split(s: SplitNode, target: usize, new_split: usize) -> SplitNode {
    SplitNode {
        first: rewire_node(s.first, target, new_split),
        second: rewire_node(s.second, target, new_split),
        ..s
    }
}

impl Workspace {
    /// A workspace of one pane holding the given content.
    pub fn new(content: Content) -> (r: (Workspace, usize))
        ensures
            r.0@.panes == seq![content@],
            r.0@.splits == Seq::<SplitNode>::empty(),
            r.0@.root == Node::Pane(r.1),
            r.1 == 0usize,
            workspace_wf(r.0@),
    {
        let mut panes: Vec<Content> = Vec::new();
        panes.push(content);
        let w = Workspace { panes, splits: Vec::new(), root: Node::Pane(0) };
        proof {
            assert(w@.panes =~= seq![content@]);
        }
        (w, 0)
    }

    /// Split the region of `target` along `axis`: the target pane keeps its
    /// content and place as the first child of a fresh split, and a new
    /// pane holding `content` becomes the second child.  Returns the new
    /// pane's and the new split's handles, or `None` when `target` does not
    /// exist.  Existing pane contents are untouched.
    pub fn split(&mut self, axis: Axis, target: usize, content: Content) -> (r: Option<
        (usize, usize),
    >)
        ensures
            (r is Some) == (target < old(self)@.panes.len()),
            r is None ==> final(self)@ == old(self)@,
            r is Some ==> {
                let new_pane = (r->0).0;
                let new_split = (r->0).1;
                &&& new_pane == old(self)@.panes.len()
                &&& new_split == old(self)@.splits.len()
                &&& final(self)@.panes == old(self)@.panes.push(content@)
                &&& final(self)@.splits == old(self)@.splits.map_values(
                    |s: SplitNode| rewire_split(s, target, new_split),
                ).push(
                    SplitNode {
                        axis,
                        ratio: HALF_RATIO,
                        first: Node::Pane(target),
                        second: Node::Pane(new_pane),
                    },
                )
                &&& final(self)@.root == rewire_node(old(self)@.root, target, new_split)
                &&& forall|i: int|
                    0 <= i < old(self)@.panes.len() ==> final(self)@.panes[i] == old(
                        self,
                    )@.panes[i]
                &&& final(self)@.panes[new_pane as int] == content@
                &&& new_pane < final(self)@.panes.len() && new_split < final(self)@.splits.len()
            },
            workspace_wf(old(self)@) ==> workspace_wf(final(self)@),
    {
        if target >= self.panes.len() {
            return None;
        }
        let new_pane = self.panes.len();
        let new_split = self.splits.len();
        let ghost pre = self@;
        let mut i: usize = 0;
        while i < self.splits.len()
            invariant
                i <= self.splits.len(),
                self.splits@.len() == pre.splits.len(),
                self.panes@.map_values(|c: Content| c@) == pre.panes,
                self.root == pre.root,
                forall|j: int|
                    0 <= j < i ==> self.splits@[j] == rewire_split(
                        pre.splits[j],
                        target,
                        new_split,
                    ),
                forall|j: int| i <= j < self.splits@.len() ==> self.splits@[j] == pre.splits[j],
            decreases self.splits.len() - i,
        {
            let s = self.splits[i];
            let first = if s.first == Node::Pane(target) {
                Node::Split(new_split)
            } else {
                s.first
            };
            let second = if s.second == Node::Pane(target) {
                Node::Split(new_split)
            } else {
                s.second
            };
            self.splits[i] = SplitNode { first, second, ..s };
            i = i + 1;
        }
        if self.root == Node::Pane(target) {
            self.root = Node::Split(new_split);
        }
        self.panes.push(content);
        self.splits.push(
            SplitNode {
                axis,
                ratio: HALF_RATIO,
                first: Node::Pane(target),
                second: Node::Pane(new_pane),
            },
        );
        proof {
            assert(self@.panes =~= pre.panes.push(content@));
            assert(self@.splits =~= pre.splits.map_values(
                |s: SplitNode| rewire_split(s, target, new_split),
            ).push(
                SplitNode {
                    axis,
                    ratio: HALF_RATIO,
                    first: Node::Pane(target),
                    second: Node::Pane(new_pane),
                },
            ));
        }
        Some((new_pane, new_split))
    }

    /// Store a new ratio on the given split, clamped to `0 ..= RATIO_SCALE`;
    /// a handle that names no split changes nothing (no panic).
    pub fn resize(&mut self, split: usize, ratio: u32)
        ensures
            final(self)@.panes == old(self)@.panes,
            final(self)@.root == old(self)@.root,
            split < old(self)@.splits.len() ==> final(self)@.splits == old(self)@.splits.update(
                split as int,
                SplitNode { ratio: clamp_ratio(ratio), ..old(self)@.splits[split as int] },
            ),
            split < old(self)@.splits.len() ==> final(self)@.splits[split as int].ratio
                <= RATIO_SCALE,
            split >= old(self)@.splits.len() ==> final(self)@.splits == old(self)@.splits,
            workspace_wf(old(self)@) ==> workspace_wf(final(self)@),
    {
        if split < self.splits.len() {
            let s = self.splits[split];
            let stored = if ratio > RATIO_SCALE {
                RATIO_SCALE
            } else {
                ratio
            };
            self.splits[split] = SplitNode { ratio: stored, ..s };
            proof {
                assert(self@.splits =~= old(self)@.splits.update(
                    split as int,
                    SplitNode { ratio: clamp_ratio(ratio), ..old(self)@.splits[split as int] },
                ));
            }
        }
    }

    /// Read one pane's content.
    pub fn content(&self, pane: usize) -> (r: &Content)
        requires
            pane < self@.panes.len(),
        ensures
            r@ == self@.panes[pane as int],
    {
        &self.panes[pane]
    }

    /// A temporary exclusive view over exactly one pane's content; other
    /// panes and the tree are untouched while it is held.
    pub fn content_mut(&mut self, pane: usize) -> (r: &mut Content)
        requires
            pane < old(self)@.panes.len(),
        ensures
            *r == old(self).panes@[pane as int],
            final(self).panes@ == old(self).panes@.update(pane as int, *final(r)),
            final(self).splits@ == old(self).splits@,
            final(self).root == old(self).root,
    {
        &mut self.panes[pane]
    }

    /// Replace one pane's stored context.
    pub fn set_context(&mut self, pane: usize, context: Context)
        requires
            pane < old(self)@.panes.len(),
        ensures
            final(self)@ == (WorkspaceView {
                panes: old(self)@.panes.update(
                    pane as int,
                    ContentView { context, ..old(self)@.panes[pane as int] },
                ),
                ..old(self)@
            }),
    {
        let c = &mut self.panes[pane];
        c.context = context;
        proof {
            assert(self@.panes =~= old(self)@.panes.update(
                pane as int,
                ContentView { context, ..old(self)@.panes[pane as int] },
            ));
        }
    }

    /// Replace one pane's selected task kind.
    pub fn set_selected_command(&mut self, pane: usize, command: crate::events::PerfEvent)
        requires
            pane < old(self)@.panes.len(),
        ensures
            final(self)@ == (WorkspaceView {
                panes: old(self)@.panes.update(
                    pane as int,
                    ContentView {
                        selected_command: command,
                        ..old(self)@.panes[pane as int]
                    },
                ),
                ..old(self)@
            }),
    {
        let c = &mut self.panes[pane];
        c.selected_command = command;
        proof {
            assert(self@.panes =~= old(self)@.panes.update(
                pane as int,
                ContentView { selected_command: command, ..old(self)@.panes[pane as int] },
            ));
        }
    }

    /// Replace one pane's launch option flags.
    pub fn set_launch_options(&mut self, pane: usize, options: Options)
        requires
            pane < old(self)@.panes.len(),
        ensures
            final(self)@ == (WorkspaceView {
                panes: old(self)@.panes.update(
                    pane as int,
                    ContentView { launch_options: options, ..old(self)@.panes[pane as int] },
                ),
                ..old(self)@
            }),
    {
        let c = &mut self.panes[pane];
        c.launch_options = options;
        proof {
            assert(self@.panes =~= old(self)@.panes.update(
                pane as int,
                ContentView { launch_options: options, ..old(self)@.panes[pane as int] },
            ));
        }
    }

    /// Replace one pane's free-text program path.
    pub fn set_input_value(&mut self, pane: usize, value: String)
        requires
            pane < old(self)@.panes.len(),
        ensures
            final(self)@ == (WorkspaceView {
                panes: old(self)@.panes.update(
                    pane as int,
                    ContentView { input_value: value@, ..old(self)@.panes[pane as int] },
                ),
                ..old(self)@
            }),
    {
        let c = &mut self.panes[pane];
        c.input_value = value;
        proof {
            assert(self@.panes =~= old(self)@.panes.update(
                pane as int,
                ContentView { input_value: value@, ..old(self)@.panes[pane as int] },
            ));
        }
    }

    /// Replace one pane's captured output text.
    pub fn set_data(&mut self, pane: usize, data: String)
        requires
            pane < old(self)@.panes.len(),
        ensures
            final(self)@ == (WorkspaceView {
                panes: old(self)@.panes.update(
                    pane as int,
                    ContentView { data: data@, ..old(self)@.panes[pane as int] },
                ),
                ..old(self)@
            }),
    {
        let c = &mut self.panes[pane];
        c.data = data;
        proof {
            assert(self@.panes =~= old(self)@.panes.update(
                pane as int,
                ContentView { data: data@, ..old(self)@.panes[pane as int] },
            ));
        }
    }

    /// Replace one pane's task projection.
    pub fn set_tasks(&mut self, pane: usize, tasks: Vec<Task>)
        requires
            pane < old(self)@.panes.len(),
        ensures
            final(self)@ == (WorkspaceView {
                panes: old(self)@.panes.update(
                    pane as int,
                    ContentView {
                        tasks: tasks@.map_values(|t: Task| t@),
                        ..old(self)@.panes[pane as int]
                    },
                ),
                ..old(self)@
            }),
    {
        let ghost tv = tasks@.map_values(|t: Task| t@);
        let c = &mut self.panes[pane];
        c.tasks = tasks;
        proof {
            assert(self@.panes =~= old(self)@.panes.update(
                pane as int,
                ContentView { tasks: tv, ..old(self)@.panes[pane as int] },
            ));
        }
    }
}

} // verus!
