//! The code emitter: walks the events in order, keeps a time cursor, puts a
//! wait before each event that is later than everything before it, and
//! assembles the script.

use vstd::prelude::*;
use vstd::string::*;
use crate::call::{create_lua_function, lua_function};
use crate::text::{has_one_line, is_single_line};
use crate::timeline::{event_views, Event, EventView};

verus! {

/// The bit that holds the sign of a single-precision number.
pub const SIGN_BIT: u32 = 0x8000_0000;

/// The bit pattern of positive infinity in single precision. A magnitude
/// above it is no number.
pub const INFINITY_BITS: u32 = 0x7f80_0000;

/// The first line of every script.
pub const HEADER: &'static str = "function convertedEvents()\n";

/// The last line of every script.
pub const FOOTER: &'static str = "end";

/// The time of an event, as the emitter needs it.
#[derive(Debug, PartialEq, Eq)]
pub struct Timestamp {
    /// The time as an IEEE 754 single-precision number, by its bit pattern.
    pub bits: u32,
    /// The time as a wait statement writes it.
    pub text: String,
}

/// A [`Timestamp`] in contracts.
pub struct TimestampView {
    pub bits: u32,
    pub text: Seq<char>,
}

impl View for Timestamp {
    type V = TimestampView;

    open spec fn view(&self) -> TimestampView {
        TimestampView { bits: self.bits, text: self.text@ }
    }
}

/// One statement of a script.
#[derive(Debug, PartialEq, Eq)]
pub enum Statement {
    /// Waits until the time that is written here.
    Wait(String),
    /// The call of one event, written out.
    Call(String),
}

/// A [`Statement`] in contracts.
pub enum StatementView {
    Wait(Seq<char>),
    Call(Seq<char>),
}

impl View for Statement {
    type V = StatementView;

    open spec fn view(&self) -> StatementView {
        match self {
            Statement::Wait(time) => StatementView::Wait(time@),
            Statement::Call(call) => StatementView::Call(call@),
        }
    }
}

/// The timestamps of a vector, each by its view.
pub open spec fn stamp_views(stamps: Seq<Timestamp>) -> Seq<TimestampView> {
    stamps.map_values(|t: Timestamp| t@)
}

/// The strings of a vector, each by its view.
pub open spec fn string_views(strings: Seq<String>) -> Seq<Seq<char>> {
    strings.map_values(|s: String| s@)
}

/// The statements of a vector, each by its view.
pub open spec fn statement_views(statements: Seq<Statement>) -> Seq<StatementView> {
    statements.map_values(|s: Statement| s@)
}

/// A bit pattern without its sign.
pub open spec fn magnitude(bits: u32) -> int {
    if bits >= SIGN_BIT {
        bits - SIGN_BIT
    } else {
        bits as int
    }
}

/// Whether a bit pattern stands for a number: anything up to infinity, of
/// either sign.
pub open spec fn is_number(bits: u32) -> bool {
    magnitude(bits) <= INFINITY_BITS
}

/// The place of a number among all numbers: two numbers are ordered as
/// their places are. Both zeros have the place 0.
pub open spec fn ordinal(bits: u32) -> int {
    if bits >= SIGN_BIT {
        -magnitude(bits)
    } else {
        magnitude(bits)
    }
}

/// Whether `time` is later than `cursor`, as single-precision numbers
/// compare: what is no number is later than nothing, and nothing is later
/// than it.
pub open spec fn is_after(time: u32, cursor: u32) -> bool {
    is_number(time) && is_number(cursor) && ordinal(time) > ordinal(cursor)
}

/// Where the time cursor stands after these events: at zero, or at the
/// latest time that moved it.
pub open spec fn cursor_after(stamps: Seq<TimestampView>) -> u32
    decreases stamps.len(),
{
    if stamps.len() == 0 {
        0
    } else {
        let cursor = cursor_after(stamps.drop_last());
        if is_after(stamps.last().bits, cursor) {
            stamps.last().bits
        } else {
            cursor
        }
    }
}

/// Whether the event at `index` gets a wait before its call: its time is
/// later than the cursor that the events before it left.
pub open spec fn waits_at(stamps: Seq<TimestampView>, index: int) -> bool {
    is_after(stamps[index].bits, cursor_after(stamps.take(index)))
}

/// The statements of a script: for each event its call, and before the call
/// a wait where the event is later than the cursor.
pub open spec fn statements(stamps: Seq<TimestampView>, calls: Seq<Seq<char>>) -> Seq<
    StatementView,
>
    recommends
        stamps.len() == calls.len(),
    decreases stamps.len(),
{
    if stamps.len() == 0 || calls.len() == 0 {
        Seq::empty()
    } else {
        let before = statements(stamps.drop_last(), calls.drop_last());
        let call = StatementView::Call(calls.last());
        if is_after(stamps.last().bits, cursor_after(stamps.drop_last())) {
            before.push(StatementView::Wait(stamps.last().text)).push(call)
        } else {
            before.push(call)
        }
    }
}

/// A statement as the script writes it.
pub open spec fn statement_text(statement: StatementView) -> Seq<char> {
    match statement {
        StatementView::Wait(time) => "e_waitUntilS("@ + time + ");"@,
        StatementView::Call(call) => call,
    }
}

/// The line of a statement: one tab, the statement, one line feed.
pub open spec fn statement_line(statement: StatementView) -> Seq<char> {
    "\t"@ + statement_text(statement) + "\n"@
}

/// The lines of the statements, one after the other.
pub open spec fn script_body(statements: Seq<StatementView>) -> Seq<char>
    decreases statements.len(),
{
    if statements.len() == 0 {
        Seq::empty()
    } else {
        script_body(statements.drop_last()) + statement_line(statements.last())
    }
}

/// The script: the statements' lines between [`HEADER`] and [`FOOTER`].
pub open spec fn script(statements: Seq<StatementView>) -> Seq<char> {
    HEADER@ + script_body(statements) + FOOTER@
}

/// The call of each event of the timeline `json`, in order.
pub open spec fn event_calls(json: Seq<char>, events: Seq<EventView>) -> Seq<Seq<char>> {
    Seq::new(
        events.len(),
        |i: int| lua_function(json, i as nat, events[i].event_type, events[i].arg1, events[i].arg2),
    )
}

/// The script for the events of the timeline `json`, with their times.
pub open spec fn lua_script(
    json: Seq<char>,
    events: Seq<EventView>,
    stamps: Seq<TimestampView>,
) -> Seq<char> {
    script(statements(stamps, event_calls(json, events)))
}

fn magnitude_of(bits: u32) -> (m: u32)
    ensures
        m == magnitude(bits),
{
    if bits >= SIGN_BIT {
        bits - SIGN_BIT
    } else {
        bits
    }
}

fn ordinal_of(bits: u32) -> (place: i64)
    ensures
        place == ordinal(bits),
{
    if bits >= SIGN_BIT {
        -(magnitude_of(bits) as i64)
    } else {
        bits as i64
    }
}

/// Whether `time` is later than `cursor`.
pub fn is_later(time: u32, cursor: u32) -> (later: bool)
    ensures
        later == is_after(time, cursor),
{
    magnitude_of(time) <= INFINITY_BITS && magnitude_of(cursor) <= INFINITY_BITS && ordinal_of(time)
        > ordinal_of(cursor)
}

/// Puts the calls of the events in a row and a wait before each event that
/// moves the time cursor. There has to be one timestamp for each call.
pub fn schedule(stamps: &Vec<Timestamp>, calls: &Vec<String>) -> (scheduled: Option<Vec<Statement>>)
    ensures
        scheduled is Some <==> stamps@.len() == calls@.len(),
        scheduled matches Some(v) ==> statement_views(v@) == statements(
            stamp_views(stamps@),
            string_views(calls@),
        ),
{
    if stamps.len() != calls.len() {
        return None;
    }
    let ghost times = stamp_views(stamps@);
    let ghost texts = string_views(calls@);
    let mut out: Vec<Statement> = Vec::new();
    let mut cursor: u32 = 0;
    let mut i: usize = 0;
    assert(statement_views(out@) =~= Seq::<StatementView>::empty());
    while i < stamps.len()
        invariant
            i <= stamps@.len(),
            stamps@.len() == calls@.len(),
            times == stamp_views(stamps@),
            texts == string_views(calls@),
            cursor == cursor_after(times.take(i as int)),
            statement_views(out@) == statements(times.take(i as int), texts.take(i as int)),
        decreases stamps@.len() - i,
    {
        let ghost before = out@;
        proof {
            assert(times.take(i + 1).drop_last() =~= times.take(i as int));
            assert(texts.take(i + 1).drop_last() =~= texts.take(i as int));
            assert(times.take(i + 1).last() == stamps@[i as int]@);
            assert(texts.take(i + 1).last() == calls@[i as int]@);
        }
        let stamp = &stamps[i];
        if is_later(stamp.bits, cursor) {
            out.push(Statement::Wait(stamp.text.clone()));
            cursor = stamp.bits;
            out.push(Statement::Call(calls[i].clone()));
            assert(statement_views(out@) =~= statement_views(before).push(
                StatementView::Wait(stamps@[i as int]@.text),
            ).push(StatementView::Call(calls@[i as int]@)));
        } else {
            out.push(Statement::Call(calls[i].clone()));
            assert(statement_views(out@) =~= statement_views(before).push(
                StatementView::Call(calls@[i as int]@),
            ));
        }
        i += 1;
    }
    assert(times.take(i as int) =~= times);
    assert(texts.take(i as int) =~= texts);
    Some(out)
}

/// Writes the statements out as a script.
pub fn render(statements: &Vec<Statement>) -> (text: String)
    ensures
        text@ == script(statement_views(statements@)),
{
    let ghost all = statement_views(statements@);
    let mut text = String::from_str(HEADER);
    let mut i: usize = 0;
    assert(text@ =~= HEADER@ + script_body(all.take(0)));
    while i < statements.len()
        invariant
            i <= statements@.len(),
            all == statement_views(statements@),
            text@ == HEADER@ + script_body(all.take(i as int)),
        decreases statements@.len() - i,
    {
        let ghost before = text@;
        proof {
            assert(all.take(i + 1).drop_last() =~= all.take(i as int));
            assert(all.take(i + 1).last() == statements@[i as int]@);
        }
        text.append("\t");
        match &statements[i] {
            Statement::Wait(time) => {
                text.append("e_waitUntilS(");
                text.append(time.as_str());
                text.append(");");
            },
            Statement::Call(call) => {
                text.append(call.as_str());
            },
        }
        text.append("\n");
        assert(text@ =~= before + statement_line(statements@[i as int]@));
        assert(text@ =~= HEADER@ + script_body(all.take(i + 1)));
        i += 1;
    }
    assert(all.take(i as int) =~= all);
    text.append(FOOTER);
    text
}

/// Creates the call of each event of the timeline `json`.
pub fn create_calls(json: &str, events: &Vec<Event>) -> (calls: Vec<String>)
    ensures
        calls@.len() == events@.len(),
        string_views(calls@) == event_calls(json@, event_views(events@)),
{
    let ghost all = event_calls(json@, event_views(events@));
    let mut calls: Vec<String> = Vec::new();
    let mut i: usize = 0;
    assert(string_views(calls@) =~= all.take(0));
    while i < events.len()
        invariant
            i <= events@.len(),
            all == event_calls(json@, event_views(events@)),
            calls@.len() == i,
            string_views(calls@) == all.take(i as int),
        decreases events@.len() - i,
    {
        let ghost before = calls@;
        let event = &events[i];
        let call = create_lua_function(
            json,
            i,
            event.event_type.as_str(),
            event.arg1.as_str(),
            event.arg2.as_str(),
        );
        calls.push(call);
        assert(event_views(events@)[i as int] == events@[i as int]@);
        assert(all[i as int] == call@);
        assert(string_views(calls@) =~= string_views(before).push(call@));
        assert(string_views(calls@) =~= all.take(i + 1));
        i += 1;
    }
    assert(all.take(i as int) =~= all);
    calls
}

/// Whether the text of every timestamp holds no line feed, so that its wait
/// takes one line.
pub open spec fn stamps_fit_lines(stamps: Seq<TimestampView>) -> bool {
    forall|i: int| 0 <= i < stamps.len() ==> is_single_line((#[trigger] stamps[i]).text)
}

/// Whether the text of every timestamp holds no line feed.
pub fn fit_lines(stamps: &Vec<Timestamp>) -> (fit: bool)
    ensures
        fit == stamps_fit_lines(stamp_views(stamps@)),
{
    let mut i: usize = 0;
    while i < stamps.len()
        invariant
            i <= stamps@.len(),
            forall|j: int| 0 <= j < i ==> is_single_line((#[trigger] stamp_views(stamps@)[j]).text),
        decreases stamps@.len() - i,
    {
        if !has_one_line(stamps[i].text.as_str()) {
            assert(!is_single_line(stamp_views(stamps@)[i as int].text));
            return false;
        }
        i += 1;
    }
    true
}

/// Creates the Lua script for the events of the timeline `json`. `stamps`
/// holds the time of each event, in the same order. There is no script with
/// another number of timestamps than events, nor with a timestamp whose
/// text holds a line feed.
pub fn create_lua_script(json: &str, events: &Vec<Event>, stamps: &Vec<Timestamp>) -> (text: Option<
    String,
>)
    ensures
        text is Some <==> stamps@.len() == events@.len() && stamps_fit_lines(stamp_views(stamps@)),
        text matches Some(t) ==> t@ == lua_script(
            json@,
            event_views(events@),
            stamp_views(stamps@),
        ),
{
    if stamps.len() != events.len() || !fit_lines(stamps) {
        return None;
    }
    let calls = create_calls(json, events);
    match schedule(stamps, &calls) {
        Some(statements) => Some(render(&statements)),
        None => None,
    }
}

/// The calls among the statements, in order.
pub open spec fn calls_of(statements: Seq<StatementView>) -> Seq<Seq<char>>
    decreases statements.len(),
{
    if statements.len() == 0 {
        Seq::empty()
    } else {
        let before = calls_of(statements.drop_last());
        match statements.last() {
            StatementView::Call(call) => before.push(call),
            StatementView::Wait(_) => before,
        }
    }
}

/// The times of the waits among the statements, in order.
pub open spec fn waits_of(statements: Seq<StatementView>) -> Seq<Seq<char>>
    decreases statements.len(),
{
    if statements.len() == 0 {
        Seq::empty()
    } else {
        let before = waits_of(statements.drop_last());
        match statements.last() {
            StatementView::Call(_) => before,
            StatementView::Wait(time) => before.push(time),
        }
    }
}

/// The times of the events that get a wait, in order.
pub open spec fn due_waits(stamps: Seq<TimestampView>) -> Seq<Seq<char>>
    decreases stamps.len(),
{
    if stamps.len() == 0 {
        Seq::empty()
    } else {
        let before = due_waits(stamps.drop_last());
        if waits_at(stamps, stamps.len() - 1) {
            before.push(stamps.last().text)
        } else {
            before
        }
    }
}

/// The cursor never stands before zero, is always a number, is at least as
/// late as every event so far that has a number for its time, and stands at
/// zero or at the time of one of the events.
pub proof fn lemma_cursor_is_latest(stamps: Seq<TimestampView>)
    ensures
        is_number(cursor_after(stamps)),
        ordinal(cursor_after(stamps)) >= 0,
        forall|j: int|
            0 <= j < stamps.len() && is_number(#[trigger] stamps[j].bits) ==> ordinal(
                stamps[j].bits,
            ) <= ordinal(cursor_after(stamps)),
        cursor_after(stamps) == 0 || exists|j: int|
            0 <= j < stamps.len() && (#[trigger] stamps[j]).bits == cursor_after(stamps),
    decreases stamps.len(),
{
    if stamps.len() > 0 {
        let before = stamps.drop_last();
        lemma_cursor_is_latest(before);
        let cursor = cursor_after(before);
        assert forall|j: int| 0 <= j < stamps.len() && is_number(#[trigger] stamps[j].bits) implies ordinal(
            stamps[j].bits,
        ) <= ordinal(cursor_after(stamps)) by {
            if j < stamps.len() - 1 {
                assert(before[j] == stamps[j]);
            }
        }
        if cursor_after(stamps) != 0 {
            if is_after(stamps.last().bits, cursor) {
                assert(stamps[stamps.len() - 1].bits == cursor_after(stamps));
            } else {
                let j = choose|j: int| 0 <= j < before.len() && (#[trigger] before[j]).bits == cursor;
                assert(stamps[j].bits == cursor_after(stamps));
            }
        }
    }
}

/// An event gets a wait exactly when its time is a number later than zero
/// and later than every earlier event whose time is a number. So an event
/// at the time of the one before it gets none.
pub proof fn lemma_wait_rule(stamps: Seq<TimestampView>, index: int)
    requires
        0 <= index < stamps.len(),
    ensures
        waits_at(stamps, index) <==> {
            &&& is_number(stamps[index].bits)
            &&& ordinal(stamps[index].bits) > 0
            &&& forall|j: int|
                0 <= j < index && is_number(#[trigger] stamps[j].bits) ==> ordinal(
                    stamps[index].bits,
                ) > ordinal(stamps[j].bits)
        },
{
    let before = stamps.take(index);
    lemma_cursor_is_latest(before);
    let cursor = cursor_after(before);
    let bits = stamps[index].bits;
    if waits_at(stamps, index) {
        assert forall|j: int| 0 <= j < index && is_number(#[trigger] stamps[j].bits) implies ordinal(
            bits,
        ) > ordinal(stamps[j].bits) by {
            assert(before[j] == stamps[j]);
        }
    }
    if is_number(bits) && ordinal(bits) > 0 && (forall|j: int|
        0 <= j < index && is_number(#[trigger] stamps[j].bits) ==> ordinal(bits) > ordinal(
            stamps[j].bits,
        )) {
        if cursor != 0 {
            let j = choose|j: int| 0 <= j < before.len() && (#[trigger] before[j]).bits == cursor;
            assert(before[j] == stamps[j]);
            assert(is_number(stamps[j].bits));
        }
        assert(waits_at(stamps, index));
    }
}

/// What one more statement adds to the calls and to the waits.
proof fn lemma_push_statement(statements: Seq<StatementView>, last: StatementView)
    ensures
        calls_of(statements.push(last)) == match last {
            StatementView::Call(call) => calls_of(statements).push(call),
            StatementView::Wait(_) => calls_of(statements),
        },
        waits_of(statements.push(last)) == match last {
            StatementView::Call(_) => waits_of(statements),
            StatementView::Wait(time) => waits_of(statements).push(time),
        },
{
    assert(statements.push(last).drop_last() =~= statements);
}

/// The calls of a script are the calls of the events, one for each event and
/// in their order: the statements that are no waits are as many as the
/// events.
pub proof fn lemma_one_call_per_event(stamps: Seq<TimestampView>, calls: Seq<Seq<char>>)
    requires
        stamps.len() == calls.len(),
    ensures
        calls_of(statements(stamps, calls)) == calls,
        calls_of(statements(stamps, calls)).len() == calls.len(),
    decreases stamps.len(),
{
    if stamps.len() > 0 {
        lemma_one_call_per_event(stamps.drop_last(), calls.drop_last());
        let before = statements(stamps.drop_last(), calls.drop_last());
        let call = StatementView::Call(calls.last());
        if is_after(stamps.last().bits, cursor_after(stamps.drop_last())) {
            let wait = StatementView::Wait(stamps.last().text);
            lemma_push_statement(before, wait);
            lemma_push_statement(before.push(wait), call);
        } else {
            lemma_push_statement(before, call);
        }
        assert(calls.drop_last().push(calls.last()) =~= calls);
    } else {
        assert(calls =~= Seq::<Seq<char>>::empty());
    }
}

/// The waits of a script are those of the events that get one, in their
/// order.
pub proof fn lemma_waits_are_due(stamps: Seq<TimestampView>, calls: Seq<Seq<char>>)
    requires
        stamps.len() == calls.len(),
    ensures
        waits_of(statements(stamps, calls)) == due_waits(stamps),
    decreases stamps.len(),
{
    if stamps.len() > 0 {
        lemma_waits_are_due(stamps.drop_last(), calls.drop_last());
        let before = statements(stamps.drop_last(), calls.drop_last());
        let call = StatementView::Call(calls.last());
        assert(stamps.take(stamps.len() - 1) =~= stamps.drop_last());
        if is_after(stamps.last().bits, cursor_after(stamps.drop_last())) {
            let wait = StatementView::Wait(stamps.last().text);
            lemma_push_statement(before, wait);
            lemma_push_statement(before.push(wait), call);
        } else {
            lemma_push_statement(before, call);
        }
    }
}

/// In the script of a timeline the statements that are no waits are as many
/// as the events.
pub proof fn lemma_script_has_one_call_per_event(
    json: Seq<char>,
    events: Seq<EventView>,
    stamps: Seq<TimestampView>,
)
    requires
        stamps.len() == events.len(),
    ensures
        calls_of(statements(stamps, event_calls(json, events))).len() == events.len(),
{
    lemma_one_call_per_event(stamps, event_calls(json, events));
}

} // verus!
