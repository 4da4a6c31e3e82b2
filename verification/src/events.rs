//! The kinds of measurement task that can be launched, and the keyword
//! token each contributes to a command line.

use vstd::prelude::*;

verus! {

/// One measurement mode of the external tool.
#[derive(Clone, Copy, Debug, PartialEq, Eq, Structural)]
pub enum PerfEvent {
    Stat,
    Record,
    Report,
    Annotate,
    Top,
    Bench,
    Test,
}

/// The keyword token that starts a command line for the given kind.
pub open spec fn keyword(e: PerfEvent) -> Seq<char> {
    match e {
        PerfEvent::Stat => seq!['s', 't', 'a', 't'],
        PerfEvent::Record => seq!['r', 'e', 'c', 'o', 'r', 'd'],
        PerfEvent::Report => seq!['r', 'e', 'p', 'o', 'r', 't'],
        PerfEvent::Annotate => seq!['a', 'n', 'n', 'o', 't', 'a', 't', 'e'],
        PerfEvent::Top => seq!['t', 'o', 'p'],
        PerfEvent::Bench => seq!['b', 'e', 'n', 'c', 'h'],
        PerfEvent::Test => seq!['t', 'e', 's', 't'],
    }
}

/// The kind whose keyword is the given character sequence, if any.
pub open spec fn event_of_keyword(s: Seq<char>) -> Option<PerfEvent> {
    if s == keyword(PerfEvent::Stat) {
        Some(PerfEvent::Stat)
    } else if s == keyword(PerfEvent::Record) {
        Some(PerfEvent::Record)
    } else if s == keyword(PerfEvent::Report) {
        Some(PerfEvent::Report)
    } else if s == keyword(PerfEvent::Annotate) {
        Some(PerfEvent::Annotate)
    } else if s == keyword(PerfEvent::Top) {
        Some(PerfEvent::Top)
    } else if s == keyword(PerfEvent::Bench) {
        Some(PerfEvent::Bench)
    } else if s == keyword(PerfEvent::Test) {
        Some(PerfEvent::Test)
    } else {
        None
    }
}

/// Keywords identify their kind: mapping a kind to its keyword and back
/// returns the same kind.
pub proof fn lemma_keyword_injective(e: PerfEvent)
    ensures
        event_of_keyword(keyword(e)) == Some(e),
{
    match e {
        PerfEvent::Stat => {}
        PerfEvent::Record => {}
        PerfEvent::Report => {
            assert(keyword(PerfEvent::Report) != keyword(PerfEvent::Record)) by {
                assert(keyword(PerfEvent::Report)[2] != keyword(PerfEvent::Record)[2]);
            }
        }
        PerfEvent::Annotate => {}
        PerfEvent::Top => {}
        PerfEvent::Bench => {}
        PerfEvent::Test => {
            assert(keyword(PerfEvent::Test) != keyword(PerfEvent::Stat)) by {
                assert(keyword(PerfEvent::Test)[0] != keyword(PerfEvent::Stat)[0]);
            }
        }
    }
}

impl PerfEvent {
    /// The keyword token as a string slice.
    pub fn as_str(&self) -> (r: &'static str)
        ensures
            r@ == keyword(*self),
    {
        proof {
            reveal_strlit("stat");
            reveal_strlit("record");
            reveal_strlit("report");
            reveal_strlit("annotate");
            reveal_strlit("top");
            reveal_strlit("bench");
            reveal_strlit("test");
        }
        let r = match self {
            PerfEvent::Stat => "stat",
            PerfEvent::Record => "record",
            PerfEvent::Report => "report",
            PerfEvent::Annotate => "annotate",
            PerfEvent::Top => "top",
            PerfEvent::Bench => "bench",
            PerfEvent::Test => "test",
        };
        proof {
            assert(r@ =~= keyword(*self));
        }
        r
    }

    /// Every kind, in the order offered for selection.
    pub fn all() -> (r: Vec<PerfEvent>)
        ensures
            r@ == seq![
                PerfEvent::Stat,
                PerfEvent::Record,
                PerfEvent::Report,
                PerfEvent::Annotate,
                PerfEvent::Top,
                PerfEvent::Bench,
                PerfEvent::Test,
            ],
    {
        let r = vec![
            PerfEvent::Stat,
            PerfEvent::Record,
            PerfEvent::Report,
            PerfEvent::Annotate,
            PerfEvent::Top,
            PerfEvent::Bench,
            PerfEvent::Test,
        ];
        assert(r@ =~= seq![
            PerfEvent::Stat,
            PerfEvent::Record,
            PerfEvent::Report,
            PerfEvent::Annotate,
            PerfEvent::Top,
            PerfEvent::Bench,
            PerfEvent::Test,
        ]);
        r
    }
}

/// The kind selected when nothing has been chosen yet.
impl Default for PerfEvent {
    fn default() -> (r: Self)
        ensures
            r == PerfEvent::Stat,
    {
        PerfEvent::Stat
    }
}

} // verus!
