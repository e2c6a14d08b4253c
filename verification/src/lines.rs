//! The script read as lines: what the text of a script holds, line by line,
//! and how many of its lines are calls.

use vstd::prelude::*;
use crate::call::{
    arguments_are_single_lines, lemma_lua_function_is_single_line,
    lemma_statement_begins_with_call, lua_function, slot_field,
};
use crate::emit::{
    calls_of, event_calls, lemma_one_call_per_event, lua_script, script, script_body,
    stamps_fit_lines, statement_text, statements, StatementView, TimestampView, FOOTER, HEADER,
};
use crate::json::json_get;
use crate::text::is_single_line;
use crate::tables::{lemma_argument_names_are_single_lines, lemma_lua_name_is_no_wait, lua_name};
use crate::timeline::{
    event_at, event_count, event_object, lemma_timeline_events, timeline, EventView, ParseError,
    VALUE,
};

verus! {

/// The first line of a script, without its line feed.
pub const HEADER_LINE: &'static str = "function convertedEvents()";

/// How a wait statement begins.
pub const WAIT: &'static str = "e_waitUntilS(";

/// The lines of a text: what stands between its line feeds, before the
/// first and after the last. A text without a line feed is one line.
pub open spec fn lines(text: Seq<char>) -> Seq<Seq<char>>
    decreases text.len(),
{
    if text.len() == 0 {
        seq![Seq::<char>::empty()]
    } else {
        let before = lines(text.drop_last());
        if text.last() == '\n' {
            before.push(Seq::<char>::empty())
        } else {
            before.update(before.len() - 1, before.last().push(text.last()))
        }
    }
}

/// Whether a statement begins as a wait does.
pub open spec fn begins_like_wait(statement: Seq<char>) -> bool {
    WAIT@.is_prefix_of(statement)
}

/// Whether a line of a script is a wait: a tab, then the beginning of a
/// wait statement.
pub open spec fn is_wait_line(line: Seq<char>) -> bool {
    ("\t"@ + WAIT@).is_prefix_of(line)
}

/// The line of each statement, without its line feed.
pub open spec fn statement_lines(statements: Seq<StatementView>) -> Seq<Seq<char>> {
    statements.map_values(|s: StatementView| "\t"@ + statement_text(s))
}

/// The lines of the script of these statements.
pub open spec fn script_lines(statements: Seq<StatementView>) -> Seq<Seq<char>> {
    seq![HEADER_LINE@] + statement_lines(statements) + seq![FOOTER@]
}

/// How many of the lines are no waits.
pub open spec fn count_call_lines(lines: Seq<Seq<char>>) -> nat
    decreases lines.len(),
{
    if lines.len() == 0 {
        0
    } else if is_wait_line(lines.last()) {
        count_call_lines(lines.drop_last())
    } else {
        count_call_lines(lines.drop_last()) + 1
    }
}

/// Every text has a line.
pub proof fn lemma_lines_len(text: Seq<char>)
    ensures
        lines(text).len() >= 1,
    decreases text.len(),
{
    if text.len() > 0 {
        lemma_lines_len(text.drop_last());
    }
}

/// Text without a line feed, put behind another text, goes on its last line.
pub proof fn lemma_lines_append(text: Seq<char>, more: Seq<char>)
    requires
        is_single_line(more),
    ensures
        lines(text).len() >= 1,
        lines(text + more) == lines(text).drop_last().push(lines(text).last() + more),
    decreases more.len(),
{
    lemma_lines_len(text);
    if more.len() == 0 {
        assert(text + more =~= text);
        assert(lines(text).last() + more =~= lines(text).last());
        assert(lines(text).drop_last().push(lines(text).last()) =~= lines(text));
    } else {
        let shorter = more.drop_last();
        assert(is_single_line(shorter)) by {
            assert forall|i: int| 0 <= i < shorter.len() implies shorter[i] != '\n' by {
                assert(shorter[i] == more[i]);
            }
        }
        lemma_lines_append(text, shorter);
        assert((text + more).drop_last() =~= text + shorter);
        assert((text + more).last() == more[more.len() - 1]);
        assert(more[more.len() - 1] != '\n');
        let before = lines(text + shorter);
        assert((lines(text).last() + shorter).push(more.last()) =~= lines(text).last() + more);
        assert(before.update(before.len() - 1, before.last().push(more.last())) =~= lines(
            text,
        ).drop_last().push(lines(text).last() + more));
    }
}

/// A line feed behind a text begins a new, empty line.
pub proof fn lemma_lines_feed(text: Seq<char>)
    ensures
        lines(text + "\n"@) == lines(text).push(Seq::<char>::empty()),
{
    reveal_strlit("\n");
    assert("\n"@ =~= seq!['\n']);
    assert((text + "\n"@).drop_last() =~= text);
    assert((text + "\n"@).last() == '\n');
}

/// Behind a text that ends with a line feed, the body of a script puts one
/// line for each statement, and ends with a line feed again.
proof fn lemma_body_lines(text: Seq<char>, statements: Seq<StatementView>)
    requires
        lines(text).last() == Seq::<char>::empty(),
        forall|i: int|
            0 <= i < statements.len() ==> is_single_line(#[trigger] statement_text(statements[i])),
    ensures
        lines(text + script_body(statements)) == lines(text).drop_last() + statement_lines(
            statements,
        ) + seq![Seq::<char>::empty()],
    decreases statements.len(),
{
    lemma_lines_len(text);
    if statements.len() == 0 {
        assert(text + script_body(statements) =~= text);
        assert(lines(text).drop_last() + statement_lines(statements) + seq![Seq::<char>::empty()]
            =~= lines(text));
    } else {
        let before = statements.drop_last();
        let last = statements.last();
        assert forall|i: int| 0 <= i < before.len() implies is_single_line(
            #[trigger] statement_text(before[i]),
        ) by {
            assert(before[i] == statements[i]);
        }
        lemma_body_lines(text, before);
        let line = "\t"@ + statement_text(last);
        reveal_strlit("\t");
        assert(is_single_line(statement_text(statements[statements.len() - 1])));
        assert(is_single_line(line)) by {
            assert forall|i: int| 0 <= i < line.len() implies line[i] != '\n' by {
                if i > 0 {
                    assert(line[i] == statement_text(last)[i - 1]);
                }
            }
        }
        let so_far = text + script_body(before);
        lemma_lines_append(so_far, line);
        lemma_lines_feed(so_far + line);
        assert(text + script_body(statements) =~= so_far + line + "\n"@);
        assert(lines(so_far).last() + line =~= line);
        assert(statement_lines(statements) =~= statement_lines(before).push(line));
        assert(lines(so_far + line) =~= lines(text).drop_last() + statement_lines(statements));
        assert(lines(so_far + line).push(Seq::<char>::empty()) =~= lines(text).drop_last()
            + statement_lines(statements) + seq![Seq::<char>::empty()]);
    }
}

/// A script whose statements hold no line feed has the header for its first
/// line, then one line for each statement, then the footer.
pub proof fn lemma_script_lines(statements: Seq<StatementView>)
    requires
        forall|i: int|
            0 <= i < statements.len() ==> is_single_line(#[trigger] statement_text(statements[i])),
    ensures
        lines(script(statements)) == script_lines(statements),
{
    reveal_strlit("function convertedEvents()\n");
    reveal_strlit("function convertedEvents()");
    reveal_strlit("end");
    reveal_strlit("\n");
    let first = HEADER_LINE@;
    let none = Seq::<char>::empty();
    assert(HEADER@ =~= first + "\n"@);
    assert(is_single_line(first));
    assert(is_single_line(FOOTER@));
    lemma_lines_append(none, first);
    assert(none + first =~= first);
    assert(lines(none) =~= seq![none]);
    assert(lines(first) =~= seq![first]);
    lemma_lines_feed(first);
    assert(lines(HEADER@) =~= seq![first, none]);
    lemma_body_lines(HEADER@, statements);
    let body = HEADER@ + script_body(statements);
    lemma_lines_append(body, FOOTER@);
    assert(lines(HEADER@).drop_last() =~= seq![first]);
    assert(lines(body).last() + FOOTER@ =~= FOOTER@);
    assert(lines(body).drop_last() =~= seq![first] + statement_lines(statements));
    assert(lines(body + FOOTER@) =~= script_lines(statements));
}

/// The line of a wait is a wait line, and the line of a call is one only
/// where the call begins as a wait does.
proof fn lemma_wait_lines(statement: StatementView)
    ensures
        statement matches StatementView::Wait(_) ==> is_wait_line(
            "\t"@ + statement_text(statement),
        ),
        statement matches StatementView::Call(call) ==> (is_wait_line("\t"@ + call)
            <==> begins_like_wait(call)),
{
    reveal_strlit("\t");
    reveal_strlit("e_waitUntilS(");
    let tab = "\t"@;
    match statement {
        StatementView::Wait(time) => {
            let line = tab + (WAIT@ + time + ");"@);
            assert(line.subrange(0, (tab + WAIT@).len() as int) =~= tab + WAIT@);
        },
        StatementView::Call(call) => {
            let line = tab + call;
            if is_wait_line(line) {
                let head = line.subrange(0, (tab + WAIT@).len() as int);
                assert(head == tab + WAIT@);
                assert forall|i: int| 0 <= i < WAIT@.len() implies WAIT@[i] == call[i] by {
                    assert(head[i + 1] == (tab + WAIT@)[i + 1]);
                    assert(head[i + 1] == line[i + 1]);
                }
                assert(call.subrange(0, WAIT@.len() as int) =~= WAIT@);
            }
            if begins_like_wait(call) {
                let head = call.subrange(0, WAIT@.len() as int);
                assert(head == WAIT@);
                assert forall|i: int| 0 <= i < (tab + WAIT@).len() implies (tab + WAIT@)[i]
                    == line[i] by {
                    if i > 0 {
                        assert(head[i - 1] == call[i - 1]);
                    }
                }
                assert(line.subrange(0, (tab + WAIT@).len() as int) =~= tab + WAIT@);
            }
        },
    }
}

/// Where no call begins as a wait does, the lines that are no waits are as
/// many as the calls.
proof fn lemma_count_call_lines(statements: Seq<StatementView>)
    requires
        forall|i: int|
            0 <= i < statements.len() ==> (#[trigger] statements[i] matches StatementView::Call(
                call,
            ) ==> !begins_like_wait(call)),
    ensures
        count_call_lines(statement_lines(statements)) == calls_of(statements).len(),
    decreases statements.len(),
{
    if statements.len() > 0 {
        let before = statements.drop_last();
        assert forall|i: int| 0 <= i < before.len() implies (#[trigger] before[i] matches StatementView::Call(
            call,
        ) ==> !begins_like_wait(call)) by {
            assert(before[i] == statements[i]);
        }
        lemma_count_call_lines(before);
        lemma_wait_lines(statements.last());
        assert(statements[statements.len() - 1] == statements.last());
        assert(statement_lines(statements).drop_last() =~= statement_lines(before));
        assert(statement_lines(statements).last() == "\t"@ + statement_text(statements.last()));
    } else {
        assert(statement_lines(statements) =~= Seq::<Seq<char>>::empty());
    }
}

/// Each statement is the wait of one of the timestamps or one of the calls.
proof fn lemma_statements_come_from(
    stamps: Seq<TimestampView>,
    calls: Seq<Seq<char>>,
    index: int,
)
    requires
        stamps.len() == calls.len(),
        0 <= index < statements(stamps, calls).len(),
    ensures
        match statements(stamps, calls)[index] {
            StatementView::Wait(time) => exists|j: int|
                0 <= j < stamps.len() && (#[trigger] stamps[j]).text == time,
            StatementView::Call(call) => exists|j: int|
                0 <= j < calls.len() && #[trigger] calls[j] == call,
        },
    decreases stamps.len(),
{
    if stamps.len() > 0 {
        let before = statements(stamps.drop_last(), calls.drop_last());
        let last = stamps.len() - 1;
        if index < before.len() {
            lemma_statements_come_from(stamps.drop_last(), calls.drop_last(), index);
            assert(statements(stamps, calls)[index] == before[index]);
            match before[index] {
                StatementView::Wait(time) => {
                    let j = choose|j: int|
                        0 <= j < stamps.drop_last().len() && (#[trigger] stamps.drop_last()[j]).text
                            == time;
                    assert(stamps[j].text == time);
                },
                StatementView::Call(call) => {
                    let j = choose|j: int|
                        0 <= j < calls.drop_last().len() && #[trigger] calls.drop_last()[j] == call;
                    assert(calls[j] == call);
                },
            }
        } else {
            assert(stamps[last].text == stamps.last().text);
            assert(calls[last] == calls.last());
        }
    }
}

/// A script whose waits and calls hold no line feed, and whose calls do not
/// begin as a wait does, reads line by line as: the header, one line for
/// each statement, the footer. The lines between header and footer that are
/// no waits are as many as the calls.
pub proof fn lemma_call_lines(stamps: Seq<TimestampView>, calls: Seq<Seq<char>>)
    requires
        stamps.len() == calls.len(),
        forall|i: int| 0 <= i < stamps.len() ==> is_single_line((#[trigger] stamps[i]).text),
        forall|i: int| 0 <= i < calls.len() ==> is_single_line(#[trigger] calls[i]),
        forall|i: int| 0 <= i < calls.len() ==> !begins_like_wait(#[trigger] calls[i]),
    ensures
        ({
            let all = lines(script(statements(stamps, calls)));
            &&& all == script_lines(statements(stamps, calls))
            &&& all.len() >= 2
            &&& all.first() == HEADER_LINE@
            &&& all.last() == FOOTER@
            &&& count_call_lines(all.subrange(1, all.len() - 1)) == calls.len()
        }),
{
    let made = statements(stamps, calls);
    reveal_strlit("e_waitUntilS(");
    reveal_strlit(");");
    reveal_strlit("\n");
    assert forall|i: int| 0 <= i < made.len() implies is_single_line(statement_text(made[i])) && (
    #[trigger] made[i] matches StatementView::Call(call) ==> !begins_like_wait(call)) by {
        lemma_statements_come_from(stamps, calls, i);
        match made[i] {
            StatementView::Wait(time) => {
                let j = choose|j: int| 0 <= j < stamps.len() && (#[trigger] stamps[j]).text == time;
                assert(is_single_line(stamps[j].text));
                let text = statement_text(made[i]);
                assert forall|k: int| 0 <= k < text.len() implies text[k] != '\n' by {
                    if WAIT@.len() <= k < WAIT@.len() + time.len() {
                        assert(text[k] == time[k - WAIT@.len()]);
                    }
                }
            },
            StatementView::Call(call) => {
                let j = choose|j: int| 0 <= j < calls.len() && #[trigger] calls[j] == call;
                assert(is_single_line(calls[j]));
                assert(!begins_like_wait(calls[j]));
            },
        }
    }
    assert forall|i: int| 0 <= i < made.len() implies is_single_line(
        #[trigger] statement_text(made[i]),
    ) by {
        assert(is_single_line(statement_text(made[i])) && (made[i] matches StatementView::Call(
            call,
        ) ==> !begins_like_wait(call)));
    }
    lemma_script_lines(made);
    lemma_count_call_lines(made);
    lemma_one_call_per_event(stamps, calls);
    let all = script_lines(made);
    assert(all.subrange(1, all.len() - 1) =~= statement_lines(made));
}

/// The call of an event never begins as a wait does.
pub proof fn lemma_event_call_is_no_wait(
    json: Seq<char>,
    index: nat,
    event_type: Seq<char>,
    arg1: Seq<char>,
    arg2: Seq<char>,
)
    ensures
        !begins_like_wait(lua_function(json, index, event_type, arg1, arg2)),
{
    let object = event_object(json, index);
    let call = lua_name(event_type);
    let statement = lua_function(json, index, event_type, arg1, arg2);
    lemma_lua_name_is_no_wait(event_type);
    lemma_statement_begins_with_call(
        call,
        arg1,
        slot_field(object, arg1),
        arg2,
        slot_field(object, arg2),
    );
    reveal_strlit("e_waitUntilS(");
    if begins_like_wait(statement) {
        let head = statement.subrange(0, WAIT@.len() as int);
        assert(head == WAIT@);
        assert(head[0] == statement[0] && head[2] == statement[2]);
        assert(call == statement.subrange(0, call.len() as int));
        assert(statement.subrange(0, call.len() as int)[0] == statement[0]);
        assert(statement.subrange(0, call.len() as int)[2] == statement[2]);
    }
}

/// In the script of a timeline in which no timestamp and no argument value
/// holds a line feed, the lines between header and footer that are no waits
/// are as many as the events: each event has one line for its call, also
/// where its type is unknown or its time moves no cursor.
pub proof fn lemma_script_call_lines(
    json: Seq<char>,
    events: Seq<EventView>,
    stamps: Seq<TimestampView>,
)
    requires
        stamps.len() == events.len(),
        stamps_fit_lines(stamps),
        forall|i: int|
            0 <= i < events.len() ==> arguments_are_single_lines(
                json,
                i as nat,
                (#[trigger] events[i]).arg1,
                events[i].arg2,
            ),
    ensures
        ({
            let all = lines(lua_script(json, events, stamps));
            &&& all == script_lines(statements(stamps, event_calls(json, events)))
            &&& all.len() >= 2
            &&& all.first() == HEADER_LINE@
            &&& all.last() == FOOTER@
            &&& count_call_lines(all.subrange(1, all.len() - 1)) == events.len()
        }),
{
    let calls = event_calls(json, events);
    assert forall|i: int| 0 <= i < calls.len() implies !begins_like_wait(#[trigger] calls[i])
        && is_single_line(calls[i]) by {
        lemma_event_call_is_no_wait(
            json,
            i as nat,
            events[i].event_type,
            events[i].arg1,
            events[i].arg2,
        );
        lemma_lua_function_is_single_line(
            json,
            i as nat,
            events[i].event_type,
            events[i].arg1,
            events[i].arg2,
        );
    }
    lemma_call_lines(stamps, calls);
}

/// Whether the fields that supply the two argument slots of the event at
/// `index` hold no line feed, as far as they are there.
pub open spec fn values_are_single_lines(
    json: Seq<char>,
    index: nat,
    arg1: Seq<char>,
    arg2: Seq<char>,
) -> bool {
    let first = slot_field(event_object(json, index), arg1);
    let second = slot_field(event_object(json, index), arg2);
    &&& first.exists ==> is_single_line(first.text)
    &&& second.exists ==> is_single_line(second.text)
}

/// The script of a timeline has one call line for each of its events. Where
/// no timestamp and no argument that the JSON gives holds a line feed, the
/// lines between header and footer that are no waits are as many as the
/// events that `gjson` counts.
pub proof fn lemma_timeline_call_lines(json: Seq<char>, stamps: Seq<TimestampView>)
    requires
        timeline(json) is Ok,
        stamps.len() == timeline(json).unwrap().len(),
        stamps_fit_lines(stamps),
        forall|i: int|
            0 <= i < timeline(json).unwrap().len() ==> values_are_single_lines(
                json,
                i as nat,
                (#[trigger] timeline(json).unwrap()[i]).arg1,
                timeline(json).unwrap()[i].arg2,
            ),
    ensures
        ({
            let events = timeline(json).unwrap();
            let all = lines(lua_script(json, events, stamps));
            &&& all == script_lines(statements(stamps, event_calls(json, events)))
            &&& all.len() >= 2
            &&& all.first() == HEADER_LINE@
            &&& all.last() == FOOTER@
            &&& count_call_lines(all.subrange(1, all.len() - 1)) == events.len()
            &&& events.len() == event_count(json)
        }),
{
    let events = timeline(json).unwrap();
    lemma_timeline_events(json);
    reveal_strlit("value");
    assert(is_single_line(VALUE@));
    assert forall|i: int| 0 <= i < events.len() implies arguments_are_single_lines(
        json,
        i as nat,
        (#[trigger] events[i]).arg1,
        events[i].arg2,
    ) by {
        assert(event_at(json, i as nat) == Ok::<EventView, ParseError>(events[i]));
        assert(values_are_single_lines(json, i as nat, events[i].arg1, events[i].arg2));
        let object = event_object(json, i as nat);
        lemma_argument_names_are_single_lines(json_get(object, "type"@).text);
    }
    lemma_script_call_lines(json, events, stamps);
}

} // verus!
