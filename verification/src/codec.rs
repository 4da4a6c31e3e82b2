//! The persistence format: the task registry is durably stored as a
//! structured text record `{"tasks":[{"event":...,"program":...,
//! "options":...,"command":...},...]}`.  Both directions are defined here
//! — an encoder producing exactly that text and a decoder for it — and
//! decoding an encoded registry is proven to give back the same ordered
//! task list, with each record's transient state reset to Idle.

use vstd::prelude::*;

use crate::events::{event_of_keyword, keyword, lemma_keyword_injective, PerfEvent};
use crate::state::{LoadError, SavedState};
use crate::task::{Task, TaskState, TaskView};

verus! {

// ---------------------------------------------------------------------
// The encoding, as mathematics.
// ---------------------------------------------------------------------
/// How one character is written inside a quoted string: a quote or a
/// backslash is preceded by a backslash, anything else stands as itself.
pub open spec fn escape_char(c: char) -> Seq<char> {
    if c == '"' || c == '\\' {
        seq!['\\', c]
    } else {
        seq![c]
    }
}

/// A text with every character escaped.
pub open spec fn escape(s: Seq<char>) -> Seq<char>
    decreases s.len(),
{
    if s.len() == 0 {
        Seq::<char>::empty()
    } else {
        escape_char(s[0]) + escape(s.subrange(1, s.len() as int))
    }
}

/// A quoted string: the escaped text between two quotes.
pub open spec fn enc_string(s: Seq<char>) -> Seq<char> {
    seq!['"'] + escape(s) + seq!['"']
}

pub open spec fn saved_open() -> Seq<char> {
    seq!['{', '"', 't', 'a', 's', 'k', 's', '"', ':', '[']
}

pub open spec fn task_open() -> Seq<char> {
    seq!['{', '"', 'e', 'v', 'e', 'n', 't', '"', ':']
}

pub open spec fn key_program() -> Seq<char> {
    seq![',', '"', 'p', 'r', 'o', 'g', 'r', 'a', 'm', '"', ':']
}

pub open spec fn key_options() -> Seq<char> {
    seq![',', '"', 'o', 'p', 't', 'i', 'o', 'n', 's', '"', ':']
}

pub open spec fn key_command() -> Seq<char> {
    seq![',', '"', 'c', 'o', 'm', 'm', 'a', 'n', 'd', '"', ':']
}

pub open spec fn task_close() -> Seq<char> {
    seq!['}']
}

/// One task record as text.  The transient state field is never written.
pub open spec fn enc_task(t: TaskView) -> Seq<char> {
    task_open() + (enc_string(keyword(t.event)) + (key_program() + (enc_string(t.program) + (
    key_options() + (enc_string(t.options) + (key_command() + (enc_string(t.command)
        + task_close())))))))
}

/// The task records after the first, each preceded by a separator.
pub open spec fn enc_items_rest(ts: Seq<TaskView>) -> Seq<char>
    decreases ts.len(),
{
    if ts.len() == 0 {
        Seq::<char>::empty()
    } else {
        seq![','] + (enc_task(ts[0]) + enc_items_rest(ts.subrange(1, ts.len() as int)))
    }
}

/// The task records, separated by commas.
pub open spec fn enc_items(ts: Seq<TaskView>) -> Seq<char> {
    if ts.len() == 0 {
        Seq::<char>::empty()
    } else {
        enc_task(ts[0]) + enc_items_rest(ts.subrange(1, ts.len() as int))
    }
}

/// The whole persisted record.
pub open spec fn enc_saved(ts: Seq<TaskView>) -> Seq<char> {
    saved_open() + (enc_items(ts) + seq![']', '}'])
}

// ---------------------------------------------------------------------
// The decoding, as mathematics: a recursive-descent parser over the
// character sequence, total on every input.
// ---------------------------------------------------------------------
/// Consume exactly the given literal at position `i`.
pub open spec fn parse_lit(s: Seq<char>, i: int, lit: Seq<char>) -> Option<int> {
    if 0 <= i && i + lit.len() <= s.len() && s.subrange(i, i + lit.len()) == lit {
        Some(i + lit.len())
    } else {
        None
    }
}

/// Consume a quoted string's body up to and including its closing quote,
/// yielding the unescaped text.
pub open spec fn parse_string_body(s: Seq<char>, i: int) -> Option<(Seq<char>, int)>
    decreases s.len() - i,
{
    if i < 0 || i >= s.len() {
        None
    } else if s[i] == '"' {
        Some((Seq::<char>::empty(), i + 1))
    } else if s[i] == '\\' {
        if i + 1 < s.len() && (s[i + 1] == '"' || s[i + 1] == '\\') {
            match parse_string_body(s, i + 2) {
                Some((t, j)) => Some((seq![s[i + 1]] + t, j)),
                None => None,
            }
        } else {
            None
        }
    } else {
        match parse_string_body(s, i + 1) {
            Some((t, j)) => Some((seq![s[i]] + t, j)),
            None => None,
        }
    }
}

/// Consume a quoted string.
pub open spec fn parse_string(s: Seq<char>, i: int) -> Option<(Seq<char>, int)> {
    if 0 <= i && i < s.len() && s[i] == '"' {
        parse_string_body(s, i + 1)
    } else {
        None
    }
}

/// Consume one task record.  An unknown event keyword fails the parse.
pub open spec fn parse_task(s: Seq<char>, i: int) -> Option<(TaskView, int)> {
    match parse_lit(s, i, task_open()) {
        Some(j0) => match parse_string(s, j0) {
            Some((ev, j1)) => match event_of_keyword(ev) {
                Some(e) => match parse_lit(s, j1, key_program()) {
                    Some(j2) => match parse_string(s, j2) {
                        Some((prog, j3)) => match parse_lit(s, j3, key_options()) {
                            Some(j4) => match parse_string(s, j4) {
                                Some((opts, j5)) => match parse_lit(s, j5, key_command()) {
                                    Some(j6) => match parse_string(s, j6) {
                                        Some((cmd, j7)) => match parse_lit(s, j7, task_close()) {
                                            Some(j8) => Some(
                                                (
                                                    TaskView {
                                                        event: e,
                                                        program: prog,
                                                        options: opts,
                                                        command: cmd,
                                                        state: TaskState::Idle,
                                                    },
                                                    j8,
                                                ),
                                            ),
                                            None => None,
                                        },
                                        None => None,
                                    },
                                    None => None,
                                },
                                None => None,
                            },
                            None => None,
                        },
                        None => None,
                    },
                    None => None,
                },
                None => None,
            },
            None => None,
        },
        None => None,
    }
}

/// Consume the task records after the first — a separator and a record
/// each — up to and including the closing bracket.
pub open spec fn parse_tasks_rest(s: Seq<char>, i: int) -> Option<(Seq<TaskView>, int)>
    decreases s.len() - i,
{
    if 0 <= i && i < s.len() && s[i] == ']' {
        Some((Seq::<TaskView>::empty(), i + 1))
    } else if 0 <= i && i < s.len() && s[i] == ',' {
        match parse_task(s, i + 1) {
            Some((t, j)) => if i + 1 < j && j <= s.len() {
                match parse_tasks_rest(s, j) {
                    Some((ts, k)) => Some((seq![t] + ts, k)),
                    None => None,
                }
            } else {
                None
            },
            None => None,
        }
    } else {
        None
    }
}

/// Consume the task list from right after the opening bracket, up to and
/// including the closing bracket.
pub open spec fn parse_tasks(s: Seq<char>, i: int) -> Option<(Seq<TaskView>, int)> {
    if 0 <= i && i < s.len() && s[i] == ']' {
        Some((Seq::<TaskView>::empty(), i + 1))
    } else {
        match parse_task(s, i) {
            Some((t, j)) => match parse_tasks_rest(s, j) {
                Some((ts, k)) => Some((seq![t] + ts, k)),
                None => None,
            },
            None => None,
        }
    }
}

/// Decode a whole persisted record: exactly the opening, the task list,
/// and the closing brace, with nothing after it.
pub open spec fn parse_saved(s: Seq<char>) -> Option<Seq<TaskView>> {
    match parse_lit(s, 0, saved_open()) {
        Some(j) => match parse_tasks(s, j) {
            Some((ts, k)) => if 0 <= k && k < s.len() && s[k] == '}' && k + 1 == s.len() {
                Some(ts)
            } else {
                None
            },
            None => None,
        },
        None => None,
    }
}

/// A task record as it comes back from the durable store: the same but for
/// the transient state, which is reset to Idle.
pub open spec fn persisted(t: TaskView) -> TaskView {
    TaskView { state: TaskState::Idle, ..t }
}

// ---------------------------------------------------------------------
// The round trip, proven: decoding an encoding yields the encoded list.
// ---------------------------------------------------------------------
/// Escaping distributes over concatenation.
pub proof fn lemma_escape_append(a: Seq<char>, b: Seq<char>)
    ensures
        escape(a + b) == escape(a) + escape(b),
    decreases a.len(),
{
    if a.len() == 0 {
        assert(a + b =~= b);
        assert(escape(a) + escape(b) =~= escape(b));
    } else {
        let a1 = a.subrange(1, a.len() as int);
        assert((a + b).subrange(1, (a + b).len() as int) =~= a1 + b);
        lemma_escape_append(a1, b);
        assert(escape(a + b) == escape_char(a[0]) + (escape(a1) + escape(b)));
        assert(escape_char(a[0]) + (escape(a1) + escape(b)) =~= (escape_char(a[0]) + escape(a1))
            + escape(b));
        assert(escape(a) == escape_char(a[0]) + escape(a1));
    }
}

/// Escaping a text extended by one character appends that character's
/// escape.
pub proof fn lemma_escape_push(a: Seq<char>, c: char)
    ensures
        escape(a.push(c)) == escape(a) + escape_char(c),
{
    assert(a.push(c) =~= a + seq![c]);
    lemma_escape_append(a, seq![c]);
    assert(seq![c].subrange(1, 1) =~= Seq::<char>::empty());
    assert(escape(seq![c]) == escape_char(c) + escape(Seq::<char>::empty()));
    assert(escape_char(c) + Seq::<char>::empty() =~= escape_char(c));
}

/// One element of a known stretch of the stream.
pub proof fn lemma_subrange_index(s: Seq<char>, i: int, x: Seq<char>, k: int)
    requires
        0 <= i,
        i + x.len() <= s.len(),
        s.subrange(i, i + x.len()) == x,
        0 <= k < x.len(),
    ensures
        s[i + k] == x[k],
{
    assert(s.subrange(i, i + x.len())[k] == s[i + k]);
}

/// A part of a known stretch of the stream is the matching part of it.
pub proof fn lemma_subrange_sub(s: Seq<char>, i: int, x: Seq<char>, a: int, b: int)
    requires
        0 <= i,
        i + x.len() <= s.len(),
        s.subrange(i, i + x.len()) == x,
        0 <= a <= b <= x.len(),
    ensures
        s.subrange(i + a, i + b) == x.subrange(a, b),
{
    assert forall|k: int| 0 <= k < b - a implies s.subrange(i + a, i + b)[k] == x.subrange(a, b)[k] by {
        lemma_subrange_index(s, i, x, a + k);
    }
    assert(s.subrange(i + a, i + b) =~= x.subrange(a, b));
}

/// Wherever the stream holds an escaped text followed by a closing quote,
/// the string-body parser consumes exactly that and yields the text back.
pub proof fn lemma_parse_of_escaped(v: Seq<char>, s: Seq<char>, i: int)
    requires
        0 <= i,
        i + escape(v).len() + 1 <= s.len(),
        s.subrange(i, i + escape(v).len() + 1) == escape(v) + seq!['"'],
    ensures
        parse_string_body(s, i) == Some((v, i + escape(v).len() + 1)),
    decreases v.len(),
{
    let e = escape(v);
    let x = e + seq!['"'];
    if v.len() == 0 {
        lemma_subrange_index(s, i, x, 0);
        assert(s[i] == '"');
    } else {
        let c = v[0];
        let v1 = v.subrange(1, v.len() as int);
        let e1 = escape(v1);
        assert(e == escape_char(c) + e1);
        if c == '"' || c == '\\' {
            assert(escape_char(c) == seq!['\\', c]);
            lemma_subrange_index(s, i, x, 0);
            lemma_subrange_index(s, i, x, 1);
            assert(s[i] == '\\');
            assert(s[i + 1] == c);
            lemma_subrange_sub(s, i, x, 2, x.len() as int);
            assert(x.subrange(2, x.len() as int) =~= e1 + seq!['"']);
            lemma_parse_of_escaped(v1, s, i + 2);
            assert(seq![s[i + 1]] + v1 =~= v);
        } else {
            assert(escape_char(c) == seq![c]);
            lemma_subrange_index(s, i, x, 0);
            assert(s[i] == c);
            lemma_subrange_sub(s, i, x, 1, x.len() as int);
            assert(x.subrange(1, x.len() as int) =~= e1 + seq!['"']);
            lemma_parse_of_escaped(v1, s, i + 1);
            assert(seq![s[i]] + v1 =~= v);
        }
    }
}

/// A known stretch of the stream made of two parts is known piecewise.
pub proof fn lemma_peel(s: Seq<char>, p: int, a: Seq<char>, b: Seq<char>)
    requires
        0 <= p,
        p + a.len() + b.len() <= s.len(),
        s.subrange(p, p + a.len() + b.len()) == a + b,
    ensures
        s.subrange(p, p + a.len()) == a,
        s.subrange(p + a.len(), p + a.len() + b.len()) == b,
{
    let y = a + b;
    lemma_subrange_sub(s, p, y, 0, a.len() as int);
    assert(y.subrange(0, a.len() as int) =~= a);
    lemma_subrange_sub(s, p, y, a.len() as int, y.len() as int);
    assert(y.subrange(a.len() as int, y.len() as int) =~= b);
}

/// Wherever the stream holds a quoted string's encoding, the string parser
/// consumes exactly that and yields the text back.
pub proof fn lemma_parse_of_enc_string(v: Seq<char>, s: Seq<char>, i: int)
    requires
        0 <= i,
        i + enc_string(v).len() <= s.len(),
        s.subrange(i, i + enc_string(v).len()) == enc_string(v),
    ensures
        parse_string(s, i) == Some((v, i + enc_string(v).len())),
{
    let e = escape(v);
    let x = enc_string(v);
    assert(x.len() == e.len() + 2);
    lemma_subrange_index(s, i, x, 0);
    assert(s[i] == '"');
    lemma_subrange_sub(s, i, x, 1, x.len() as int);
    assert(x.subrange(1, x.len() as int) =~= e + seq!['"']);
    lemma_parse_of_escaped(v, s, i + 1);
}

/// Wherever the stream holds a task record's encoding, the task parser
/// consumes exactly that and yields the record back, its transient state
/// reset to Idle.
pub proof fn lemma_parse_of_enc_task(t: TaskView, s: Seq<char>, i: int)
    requires
        0 <= i,
        i + enc_task(t).len() <= s.len(),
        s.subrange(i, i + enc_task(t).len()) == enc_task(t),
    ensures
        parse_task(s, i) == Some((persisted(t), i + enc_task(t).len())),
{
    let kw = keyword(t.event);
    let r8 = enc_string(t.command) + task_close();
    let r7 = key_command() + r8;
    let r6 = enc_string(t.options) + r7;
    let r5 = key_options() + r6;
    let r4 = enc_string(t.program) + r5;
    let r3 = key_program() + r4;
    let r2 = enc_string(kw) + r3;
    assert(enc_task(t) == task_open() + r2);
    lemma_peel(s, i, task_open(), r2);
    let j0 = i + task_open().len();
    assert(parse_lit(s, i, task_open()) == Some(j0));
    lemma_peel(s, j0, enc_string(kw), r3);
    lemma_parse_of_enc_string(kw, s, j0);
    let j1 = j0 + enc_string(kw).len();
    lemma_keyword_injective(t.event);
    lemma_peel(s, j1, key_program(), r4);
    let j2 = j1 + key_program().len();
    assert(parse_lit(s, j1, key_program()) == Some(j2));
    lemma_peel(s, j2, enc_string(t.program), r5);
    lemma_parse_of_enc_string(t.program, s, j2);
    let j3 = j2 + enc_string(t.program).len();
    lemma_peel(s, j3, key_options(), r6);
    let j4 = j3 + key_options().len();
    assert(parse_lit(s, j3, key_options()) == Some(j4));
    lemma_peel(s, j4, enc_string(t.options), r7);
    lemma_parse_of_enc_string(t.options, s, j4);
    let j5 = j4 + enc_string(t.options).len();
    lemma_peel(s, j5, key_command(), r8);
    let j6 = j5 + key_command().len();
    assert(parse_lit(s, j5, key_command()) == Some(j6));
    lemma_peel(s, j6, enc_string(t.command), task_close());
    lemma_parse_of_enc_string(t.command, s, j6);
    let j7 = j6 + enc_string(t.command).len();
    assert(parse_lit(s, j7, task_close()) == Some(j7 + 1));
    assert(j7 + 1 == i + enc_task(t).len());
}

/// Wherever the stream holds the encodings of the records after the first,
/// closed by a bracket, the list-rest parser consumes exactly that and
/// yields the records back.
pub proof fn lemma_parse_of_enc_items_rest(ts: Seq<TaskView>, s: Seq<char>, i: int)
    requires
        0 <= i,
        i + enc_items_rest(ts).len() + 1 <= s.len(),
        s.subrange(i, i + enc_items_rest(ts).len() + 1) == enc_items_rest(ts) + seq![']'],
    ensures
        parse_tasks_rest(s, i) == Some(
            (ts.map_values(|t: TaskView| persisted(t)), i + enc_items_rest(ts).len() + 1),
        ),
    decreases ts.len(),
{
    if ts.len() == 0 {
        let x = enc_items_rest(ts) + seq![']'];
        assert(x.len() == 1);
        lemma_subrange_index(s, i, x, 0);
        assert(s[i] == ']');
        assert(ts.map_values(|t: TaskView| persisted(t)) =~= Seq::<TaskView>::empty());
    } else {
        let t0 = ts[0];
        let rest = ts.subrange(1, ts.len() as int);
        let x = enc_items_rest(ts) + seq![']'];
        let tail = enc_items_rest(rest) + seq![']'];
        assert(x =~= seq![','] + (enc_task(t0) + tail));
        lemma_peel(s, i, seq![','], enc_task(t0) + tail);
        lemma_subrange_index(s, i, x, 0);
        assert(s[i] == ',');
        lemma_peel(s, i + 1, enc_task(t0), tail);
        lemma_parse_of_enc_task(t0, s, i + 1);
        let j = i + 1 + enc_task(t0).len();
        assert(enc_task(t0).len() >= task_open().len());
        lemma_parse_of_enc_items_rest(rest, s, j);
        assert(seq![persisted(t0)] + rest.map_values(|t: TaskView| persisted(t)) =~= ts.map_values(
            |t: TaskView| persisted(t),
        ));
    }
}

/// Wherever the stream holds the encodings of the records, closed by a
/// bracket, the list parser consumes exactly that and yields the records
/// back.
pub proof fn lemma_parse_of_enc_items(ts: Seq<TaskView>, s: Seq<char>, i: int)
    requires
        0 <= i,
        i + enc_items(ts).len() + 1 <= s.len(),
        s.subrange(i, i + enc_items(ts).len() + 1) == enc_items(ts) + seq![']'],
    ensures
        parse_tasks(s, i) == Some(
            (ts.map_values(|t: TaskView| persisted(t)), i + enc_items(ts).len() + 1),
        ),
{
    if ts.len() == 0 {
        let x = enc_items(ts) + seq![']'];
        assert(x.len() == 1);
        lemma_subrange_index(s, i, x, 0);
        assert(s[i] == ']');
        assert(ts.map_values(|t: TaskView| persisted(t)) =~= Seq::<TaskView>::empty());
    } else {
        let t0 = ts[0];
        let rest = ts.subrange(1, ts.len() as int);
        let x = enc_items(ts) + seq![']'];
        let tail = enc_items_rest(rest) + seq![']'];
        assert(x =~= enc_task(t0) + tail);
        lemma_peel(s, i, enc_task(t0), tail);
        assert(enc_task(t0) == task_open() + (enc_task(t0).subrange(
            task_open().len() as int,
            enc_task(t0).len() as int,
        ))) by {
            assert(enc_task(t0) =~= task_open() + (enc_task(t0).subrange(
                task_open().len() as int,
                enc_task(t0).len() as int,
            )));
        }
        lemma_subrange_index(s, i, x, 0);
        assert(x[0] == enc_task(t0)[0]);
        assert(enc_task(t0)[0] == '{');
        assert(s[i] == '{');
        lemma_parse_of_enc_task(t0, s, i);
        let j = i + enc_task(t0).len();
        lemma_parse_of_enc_items_rest(rest, s, j);
        assert(seq![persisted(t0)] + rest.map_values(|t: TaskView| persisted(t)) =~= ts.map_values(
            |t: TaskView| persisted(t),
        ));
    }
}

/// The round trip: decoding the encoding of any ordered task list yields
/// exactly that list in order, each record equal but for its transient
/// state, which comes back Idle.
pub proof fn lemma_save_load_round_trip(ts: Seq<TaskView>)
    ensures
        parse_saved(enc_saved(ts)) == Some(ts.map_values(|t: TaskView| persisted(t))),
{
    let s = enc_saved(ts);
    let body = enc_items(ts) + seq![']', '}'];
    assert(s == saved_open() + body);
    assert(s.subrange(0, s.len() as int) =~= s);
    lemma_peel(s, 0, saved_open(), body);
    let j0 = saved_open().len() as int;
    assert(parse_lit(s, 0, saved_open()) == Some(j0));
    assert(body =~= (enc_items(ts) + seq![']']) + seq!['}']);
    lemma_peel(s, j0, enc_items(ts) + seq![']'], seq!['}']);
    lemma_parse_of_enc_items(ts, s, j0);
    let k = j0 + enc_items(ts).len() + 1;
    lemma_subrange_index(s, k, seq!['}'], 0);
    assert(s[k] == '}');
    assert(k + 1 == s.len());
}

/// Every record the list-rest parser yields carries the Idle transient
/// state.
proof fn lemma_parse_tasks_rest_idle(s: Seq<char>, i: int)
    ensures
        match parse_tasks_rest(s, i) {
            Some((ts, k)) => forall|j: int|
                0 <= j < ts.len() ==> (#[trigger] ts[j]).state == TaskState::Idle,
            None => true,
        },
    decreases s.len() - i,
{
    if 0 <= i && i < s.len() && s[i] == ']' {
    } else if 0 <= i && i < s.len() && s[i] == ',' {
        match parse_task(s, i + 1) {
            Some((t, j)) => {
                if i + 1 < j && j <= s.len() {
                    lemma_parse_tasks_rest_idle(s, j);
                }
            },
            None => {},
        }
    }
}

/// Every record the list parser yields carries the Idle transient state.
proof fn lemma_parse_tasks_idle(s: Seq<char>, i: int)
    ensures
        match parse_tasks(s, i) {
            Some((ts, k)) => forall|j: int|
                0 <= j < ts.len() ==> (#[trigger] ts[j]).state == TaskState::Idle,
            None => true,
        },
{
    if 0 <= i && i < s.len() && s[i] == ']' {
    } else {
        match parse_task(s, i) {
            Some((t, j)) => {
                lemma_parse_tasks_rest_idle(s, j);
            },
            None => {},
        }
    }
}

/// Saving what a load yielded and loading again reproduces the same
/// ordered task list exactly: every record a decode yields already
/// carries the Idle transient state, so resetting it changes nothing.
pub proof fn lemma_reload_after_save(s: Seq<char>)
    requires
        parse_saved(s) is Some,
    ensures
        parse_saved(enc_saved(parse_saved(s)->0)) == parse_saved(s),
{
    let ts = parse_saved(s)->0;
    lemma_save_load_round_trip(ts);
    match parse_lit(s, 0, saved_open()) {
        Some(j) => {
            lemma_parse_tasks_idle(s, j);
        },
        None => {},
    }
    assert(ts.map_values(|t: TaskView| persisted(t)) =~= ts);
}

// ---------------------------------------------------------------------
// Extending an encoded list by one record.
// ---------------------------------------------------------------------
proof fn lemma_enc_items_rest_push(ts: Seq<TaskView>, t: TaskView)
    ensures
        enc_items_rest(ts.push(t)) == enc_items_rest(ts) + (seq![','] + enc_task(t)),
    decreases ts.len(),
{
    if ts.len() == 0 {
        assert(ts.push(t)[0] == t);
        assert(ts.push(t).subrange(1, 1) =~= Seq::<TaskView>::empty());
        assert(enc_items_rest(Seq::<TaskView>::empty()) == Seq::<char>::empty());
        assert(enc_items_rest(ts.push(t)) == seq![','] + (enc_task(t) + Seq::<char>::empty()));
        assert(seq![','] + (enc_task(t) + Seq::<char>::empty()) =~= enc_items_rest(ts) + (seq![',']
            + enc_task(t)));
    } else {
        let rest = ts.subrange(1, ts.len() as int);
        assert(ts.push(t).subrange(1, ts.len() + 1 as int) =~= rest.push(t));
        lemma_enc_items_rest_push(rest, t);
        assert(enc_items_rest(ts.push(t)) == seq![','] + (enc_task(ts[0]) + (enc_items_rest(rest)
            + (seq![','] + enc_task(t)))));
        assert(seq![','] + (enc_task(ts[0]) + (enc_items_rest(rest) + (seq![','] + enc_task(t))))
            =~= (seq![','] + (enc_task(ts[0]) + enc_items_rest(rest))) + (seq![','] + enc_task(t)));
    }
}

proof fn lemma_enc_items_push(ts: Seq<TaskView>, t: TaskView)
    ensures
        ts.len() == 0 ==> enc_items(ts.push(t)) == enc_task(t),
        ts.len() > 0 ==> enc_items(ts.push(t)) == enc_items(ts) + (seq![','] + enc_task(t)),
{
    if ts.len() == 0 {
        assert(ts.push(t)[0] == t);
        assert(ts.push(t).subrange(1, 1) =~= Seq::<TaskView>::empty());
        assert(enc_items_rest(Seq::<TaskView>::empty()) == Seq::<char>::empty());
        assert(enc_items(ts.push(t)) == enc_task(t) + Seq::<char>::empty());
        assert(enc_task(t) + Seq::<char>::empty() =~= enc_task(t));
    } else {
        let rest = ts.subrange(1, ts.len() as int);
        assert(ts.push(t).subrange(1, ts.len() + 1 as int) =~= rest.push(t));
        lemma_enc_items_rest_push(rest, t);
        assert(enc_items(ts.push(t)) == enc_task(ts[0]) + (enc_items_rest(rest) + (seq![',']
            + enc_task(t))));
        assert(enc_task(ts[0]) + (enc_items_rest(rest) + (seq![','] + enc_task(t))) =~= (enc_task(
            ts[0],
        ) + enc_items_rest(rest)) + (seq![','] + enc_task(t)));
    }
}

// ---------------------------------------------------------------------
// The executable encoder.
// ---------------------------------------------------------------------
/// Escape a text for embedding in a quoted string.
fn escape_str(s: &str) -> (r: String)
    ensures
        r@ == escape(s@),
{
    proof {
        reveal_strlit("\\\"");
        reveal_strlit("\\\\");
    }
    let n = s.unicode_len();
    let mut r = String::new();
    let mut i: usize = 0;
    while i < n
        invariant
            n == s@.len(),
            i <= n,
            r@ == escape(s@.subrange(0, i as int)),
        decreases n - i,
    {
        proof {
            reveal_strlit("\\\"");
            reveal_strlit("\\\\");
        }
        let c = s.get_char(i);
        if c == '"' {
            r.append("\\\"");
            proof {
                assert("\\\""@ =~= escape_char(c));
            }
        } else if c == '\\' {
            r.append("\\\\");
            proof {
                assert("\\\\"@ =~= escape_char(c));
            }
        } else {
            let piece = s.substring_char(i, i + 1);
            r.append(piece);
            proof {
                assert(piece@ =~= escape_char(c));
            }
        }
        proof {
            lemma_escape_push(s@.subrange(0, i as int), s@[i as int]);
            assert(s@.subrange(0, i as int).push(s@[i as int]) =~= s@.subrange(0, i + 1 as int));
        }
        i = i + 1;
    }
    proof {
        assert(s@.subrange(0, n as int) =~= s@);
    }
    r
}

/// Append a quoted string to the output.
fn append_quoted(out: &mut String, s: &str)
    ensures
        final(out)@ == old(out)@ + enc_string(s@),
{
    proof {
        reveal_strlit("\"");
    }
    let escaped = escape_str(s);
    out.append("\"");
    out.append(escaped.as_str());
    out.append("\"");
    proof {
        assert("\""@ =~= seq!['"']);
        assert(out@ =~= old(out)@ + enc_string(s@));
    }
}

/// Append one task record to the output.
fn append_task(out: &mut String, t: &Task)
    ensures
        final(out)@ == old(out)@ + enc_task(t@),
{
    proof {
        reveal_strlit("{\"event\":");
        reveal_strlit(",\"program\":");
        reveal_strlit(",\"options\":");
        reveal_strlit(",\"command\":");
        reveal_strlit("}");
        assert("{\"event\":"@ =~= task_open());
        assert(",\"program\":"@ =~= key_program());
        assert(",\"options\":"@ =~= key_options());
        assert(",\"command\":"@ =~= key_command());
        assert("}"@ =~= task_close());
    }
    out.append("{\"event\":");
    append_quoted(out, t.event.as_str());
    out.append(",\"program\":");
    append_quoted(out, t.program.as_str());
    out.append(",\"options\":");
    append_quoted(out, t.options.as_str());
    out.append(",\"command\":");
    append_quoted(out, t.command.as_str());
    out.append("}");
    proof {
        assert(out@ =~= old(out)@ + enc_task(t@));
    }
}

/// Encode a whole task registry as its persisted text record.
pub fn encode_saved_state(st: &SavedState) -> (r: String)
    ensures
        r@ == enc_saved(st@),
{
    proof {
        reveal_strlit("{\"tasks\":[");
        reveal_strlit(",");
        reveal_strlit("]}");
    }
    let mut out = String::from_str("{\"tasks\":[");
    proof {
        assert(out@ =~= saved_open());
    }
    let n = st.tasks.len();
    let mut i: usize = 0;
    while i < n
        invariant
            n == st.tasks@.len(),
            i <= n,
            out@ == saved_open() + enc_items(st@.subrange(0, i as int)),
        decreases n - i,
    {
        proof {
            reveal_strlit(",");
        }
        let ghost prefix = st@.subrange(0, i as int);
        if i > 0 {
            out.append(",");
        }
        append_task(&mut out, &st.tasks[i]);
        proof {
            assert(st@[i as int] == st.tasks@[i as int]@);
            lemma_enc_items_push(prefix, st@[i as int]);
            assert(prefix.push(st@[i as int]) =~= st@.subrange(0, i + 1 as int));
            assert(","@ =~= seq![',']);
            assert(out@ =~= saved_open() + enc_items(st@.subrange(0, i + 1 as int)));
        }
        i = i + 1;
    }
    out.append("]}");
    proof {
        assert(st@.subrange(0, n as int) =~= st@);
        assert("]}"@ =~= seq![']', '}']);
        assert(out@ =~= enc_saved(st@));
    }
    out
}

// ---------------------------------------------------------------------
// The executable decoder.
// ---------------------------------------------------------------------
/// Consume exactly the given literal at position `i`.
fn match_lit(s: &str, i: usize, lit: &str) -> (r: Option<usize>)
    requires
        i <= s@.len(),
    ensures
        match r {
            Some(j) => parse_lit(s@, i as int, lit@) == Some(j as int) && i <= j <= s@.len(),
            None => parse_lit(s@, i as int, lit@) is None,
        },
{
    let n = s.unicode_len();
    let m = lit.unicode_len();
    if m > n - i {
        return None;
    }
    let mut k: usize = 0;
    while k < m
        invariant
            i + m <= n,
            k <= m,
            n == s@.len(),
            m == lit@.len(),
            forall|q: int| 0 <= q < k ==> s@[i + q] == #[trigger] lit@[q],
        decreases m - k,
    {
        let a = s.get_char(i + k);
        let b = lit.get_char(k);
        if a != b {
            proof {
                assert(s@.subrange(i as int, i + lit@.len() as int)[k as int] == s@[i + k as int]);
                assert(s@.subrange(i as int, i + lit@.len() as int) != lit@);
            }
            return None;
        }
        k = k + 1;
    }
    proof {
        assert forall|q: int| 0 <= q < m implies s@.subrange(i as int, i + lit@.len() as int)[q]
            == lit@[q] by {
            assert(s@[i + q] == lit@[q]);
        }
        assert(s@.subrange(i as int, i + lit@.len() as int) =~= lit@);
    }
    Some(i + m)
}

/// Consume a quoted string at position `i`, yielding the unescaped text.
fn parse_quoted(s: &str, i: usize) -> (r: Option<(String, usize)>)
    requires
        i <= s@.len(),
    ensures
        match r {
            Some((v, j)) => parse_string(s@, i as int) == Some((v@, j as int)) && i < j
                <= s@.len(),
            None => parse_string(s@, i as int) is None,
        },
{
    let n = s.unicode_len();
    if i >= n {
        return None;
    }
    if s.get_char(i) != '"' {
        return None;
    }
    let mut acc = String::new();
    let mut cur = i + 1;
    loop
        invariant
            i + 1 <= cur <= n,
            n == s@.len(),
            i < n,
            s@[i as int] == '"',
            match parse_string_body(s@, cur as int) {
                Some((t, j)) => parse_string_body(s@, i + 1 as int) == Some((acc@ + t, j)),
                None => parse_string_body(s@, i + 1 as int) is None,
            },
        decreases n - cur,
    {
        if cur == n {
            return None;
        }
        let c = s.get_char(cur);
        if c == '"' {
            proof {
                assert(acc@ + Seq::<char>::empty() =~= acc@);
            }
            return Some((acc, cur + 1));
        } else if c == '\\' {
            if cur + 1 < n {
                let c2 = s.get_char(cur + 1);
                if c2 == '"' || c2 == '\\' {
                    let ghost acc0 = acc@;
                    let piece = s.substring_char(cur + 1, cur + 2);
                    acc.append(piece);
                    proof {
                        assert(piece@ =~= seq![s@[cur + 1 as int]]);
                        match parse_string_body(s@, cur + 2 as int) {
                            Some((t, j)) => {
                                assert((acc0 + seq![s@[cur + 1 as int]]) + t =~= acc0 + (seq![
                                    s@[cur + 1 as int],
                                ] + t));
                            },
                            None => {},
                        }
                    }
                    cur = cur + 2;
                } else {
                    return None;
                }
            } else {
                return None;
            }
        } else {
            let ghost acc0 = acc@;
            let piece = s.substring_char(cur, cur + 1);
            acc.append(piece);
            proof {
                assert(piece@ =~= seq![s@[cur as int]]);
                match parse_string_body(s@, cur + 1 as int) {
                    Some((t, j)) => {
                        assert((acc0 + seq![s@[cur as int]]) + t =~= acc0 + (seq![s@[cur as int]]
                            + t));
                    },
                    None => {},
                }
            }
            cur = cur + 1;
        }
    }
}

/// The task kind whose keyword the parsed text is, if any.
fn event_from_keyword(v: &String) -> (r: Option<PerfEvent>)
    ensures
        r == event_of_keyword(v@),
{
    proof {
        reveal_strlit("stat");
        reveal_strlit("record");
        reveal_strlit("report");
        reveal_strlit("annotate");
        reveal_strlit("top");
        reveal_strlit("bench");
        reveal_strlit("test");
        assert("stat"@ =~= keyword(PerfEvent::Stat));
        assert("record"@ =~= keyword(PerfEvent::Record));
        assert("report"@ =~= keyword(PerfEvent::Report));
        assert("annotate"@ =~= keyword(PerfEvent::Annotate));
        assert("top"@ =~= keyword(PerfEvent::Top));
        assert("bench"@ =~= keyword(PerfEvent::Bench));
        assert("test"@ =~= keyword(PerfEvent::Test));
    }
    if *v == String::from_str("stat") {
        Some(PerfEvent::Stat)
    } else if *v == String::from_str("record") {
        Some(PerfEvent::Record)
    } else if *v == String::from_str("report") {
        Some(PerfEvent::Report)
    } else if *v == String::from_str("annotate") {
        Some(PerfEvent::Annotate)
    } else if *v == String::from_str("top") {
        Some(PerfEvent::Top)
    } else if *v == String::from_str("bench") {
        Some(PerfEvent::Bench)
    } else if *v == String::from_str("test") {
        Some(PerfEvent::Test)
    } else {
        None
    }
}

/// Consume one task record at position `i`.
fn read_task(s: &str, i: usize) -> (r: Option<(Task, usize)>)
    requires
        i <= s@.len(),
    ensures
        match r {
            Some((t, j)) => parse_task(s@, i as int) == Some((t@, j as int)) && i < j <= s@.len(),
            None => parse_task(s@, i as int) is None,
        },
{
    proof {
        reveal_strlit("{\"event\":");
        reveal_strlit(",\"program\":");
        reveal_strlit(",\"options\":");
        reveal_strlit(",\"command\":");
        reveal_strlit("}");
        assert("{\"event\":"@ =~= task_open());
        assert(",\"program\":"@ =~= key_program());
        assert(",\"options\":"@ =~= key_options());
        assert(",\"command\":"@ =~= key_command());
        assert("}"@ =~= task_close());
    }
    let j0 = match match_lit(s, i, "{\"event\":") {
        Some(j) => j,
        None => {
            return None;
        },
    };
    let (ev, j1) = match parse_quoted(s, j0) {
        Some(x) => x,
        None => {
            return None;
        },
    };
    let e = match event_from_keyword(&ev) {
        Some(e) => e,
        None => {
            return None;
        },
    };
    let j2 = match match_lit(s, j1, ",\"program\":") {
        Some(j) => j,
        None => {
            return None;
        },
    };
    let (prog, j3) = match parse_quoted(s, j2) {
        Some(x) => x,
        None => {
            return None;
        },
    };
    let j4 = match match_lit(s, j3, ",\"options\":") {
        Some(j) => j,
        None => {
            return None;
        },
    };
    let (opts, j5) = match parse_quoted(s, j4) {
        Some(x) => x,
        None => {
            return None;
        },
    };
    let j6 = match match_lit(s, j5, ",\"command\":") {
        Some(j) => j,
        None => {
            return None;
        },
    };
    let (cmd, j7) = match parse_quoted(s, j6) {
        Some(x) => x,
        None => {
            return None;
        },
    };
    let j8 = match match_lit(s, j7, "}") {
        Some(j) => j,
        None => {
            return None;
        },
    };
    Some(
        (
            Task { event: e, program: prog, options: opts, command: cmd, state: TaskState::Idle },
            j8,
        ),
    )
}

/// Consume the task list from right after the opening bracket, up to and
/// including the closing bracket.
fn read_tasks(s: &str, i: usize) -> (r: Option<(Vec<Task>, usize)>)
    requires
        i <= s@.len(),
    ensures
        match r {
            Some((ts, j)) => parse_tasks(s@, i as int) == Some(
                (ts@.map_values(|t: Task| t@), j as int),
            ) && j <= s@.len(),
            None => parse_tasks(s@, i as int) is None,
        },
{
    let n = s.unicode_len();
    if i < n && s.get_char(i) == ']' {
        let empty: Vec<Task> = Vec::new();
        proof {
            assert(empty@.map_values(|t: Task| t@) =~= Seq::<TaskView>::empty());
        }
        return Some((empty, i + 1));
    }
    let (t0, j0) = match read_task(s, i) {
        Some(x) => x,
        None => {
            return None;
        },
    };
    let mut acc: Vec<Task> = Vec::new();
    acc.push(t0);
    proof {
        assert(acc@.map_values(|t: Task| t@) =~= seq![t0@]);
    }
    let mut cur = j0;
    loop
        invariant
            cur <= n,
            n == s@.len(),
            match parse_tasks_rest(s@, cur as int) {
                Some((ts, k)) => parse_tasks(s@, i as int) == Some(
                    (acc@.map_values(|t: Task| t@) + ts, k),
                ),
                None => parse_tasks(s@, i as int) is None,
            },
        decreases n - cur,
    {
        if cur == n {
            return None;
        }
        let c = s.get_char(cur);
        if c == ']' {
            proof {
                assert(acc@.map_values(|t: Task| t@) + Seq::<TaskView>::empty()
                    =~= acc@.map_values(|t: Task| t@));
            }
            return Some((acc, cur + 1));
        } else if c == ',' {
            match read_task(s, cur + 1) {
                Some((t, j)) => {
                    let ghost acc0 = acc@.map_values(|t: Task| t@);
                    acc.push(t);
                    proof {
                        assert(acc@.map_values(|t: Task| t@) =~= acc0.push(t@));
                        match parse_tasks_rest(s@, j as int) {
                            Some((ts2, k2)) => {
                                assert(acc0.push(t@) + ts2 =~= acc0 + (seq![t@] + ts2));
                            },
                            None => {},
                        }
                    }
                    cur = j;
                },
                None => {
                    return None;
                },
            }
        } else {
            return None;
        }
    }
}

/// Decode a persisted text record into a task registry; text that is not
/// exactly an encoded registry yields the format error.
pub fn decode_saved_state(s: &str) -> (r: Result<SavedState, LoadError>)
    ensures
        match parse_saved(s@) {
            Some(ts) => r is Ok && r->Ok_0@ == ts,
            None => r == Err::<SavedState, LoadError>(LoadError::FormatError),
        },
{
    proof {
        reveal_strlit("{\"tasks\":[");
        assert("{\"tasks\":["@ =~= saved_open());
    }
    let j = match match_lit(s, 0, "{\"tasks\":[") {
        Some(j) => j,
        None => {
            return Err(LoadError::FormatError);
        },
    };
    let (tasks, k) = match read_tasks(s, j) {
        Some(x) => x,
        None => {
            return Err(LoadError::FormatError);
        },
    };
    let n = s.unicode_len();
    if k < n && k + 1 == n && s.get_char(k) == '}' {
        Ok(SavedState { tasks })
    } else {
        Err(LoadError::FormatError)
    }
}

} // verus!
