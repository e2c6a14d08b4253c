//! The argument resolver: from an event and its JSON object to the text of
//! its Lua call.

use vstd::prelude::*;
use vstd::string::*;
use crate::json::{absent, field_named, find_field, no_field, Field, FieldView};
use crate::tables::{
    get_lua_name, is_known_name, lemma_lua_name_is_single_line, lemma_unknown_name_is_invalid,
    lua_name, INVALID, NO_ARGUMENT,
};
use crate::text::{is_single_line, str_eq};
use crate::timeline::{event_object, event_text};

verus! {

/// Whether an argument slot is used: its name is not [`NO_ARGUMENT`].
pub open spec fn is_used(arg_name: Seq<char>) -> bool {
    arg_name != NO_ARGUMENT@
}

/// Whether an argument slot of this name holds a string, which Lua wants in
/// quotes.
pub open spec fn is_string_slot(arg_name: Seq<char>) -> bool {
    arg_name == "id"@ || arg_name == "message"@
}

/// The value of an argument as Lua wants it: in double quotes for a string
/// slot, as it is for any other.
pub open spec fn fixed_string(arg_name: Seq<char>, arg_value: Seq<char>) -> Seq<char> {
    if is_string_slot(arg_name) {
        "\""@ + arg_value + "\""@
    } else {
        arg_value
    }
}

/// The value of an argument slot: the text of its field, whatever that
/// spells. Where the slot is not used, or the event has no such field, it is
/// the slot's own name.
pub open spec fn argument_value(arg_name: Seq<char>, field: FieldView) -> Seq<char> {
    if is_used(arg_name) && field.exists {
        field.text
    } else {
        arg_name
    }
}

/// The statement that calls `call` with the two argument slots. The slots
/// that are used decide how many arguments it takes: with none the call
/// stands as the table writes it, with the first alone it takes one, and
/// with the second it takes two. The first value is quoted where its slot
/// holds a string; the second never is.
pub open spec fn call_statement(
    call: Seq<char>,
    arg1_name: Seq<char>,
    arg1: FieldView,
    arg2_name: Seq<char>,
    arg2: FieldView,
) -> Seq<char> {
    let first = fixed_string(arg1_name, argument_value(arg1_name, arg1));
    let second = argument_value(arg2_name, arg2);
    if is_used(arg2_name) {
        call + "("@ + first + ", "@ + second + ");"@
    } else if is_used(arg1_name) {
        call + "("@ + first + ");"@
    } else {
        call
    }
}

/// The field of an event object that supplies an argument slot. For a slot
/// that is not used the object is not searched.
pub open spec fn slot_field(object: Seq<char>, arg_name: Seq<char>) -> FieldView {
    if is_used(arg_name) {
        field_named(object, arg_name)
    } else {
        no_field()
    }
}

/// The Lua statement for the event at `index` of the timeline `json`, whose
/// call goes by `event_type` and whose arguments are the fields `arg1` and
/// `arg2` of the event.
pub open spec fn lua_function(
    json: Seq<char>,
    index: nat,
    event_type: Seq<char>,
    arg1: Seq<char>,
    arg2: Seq<char>,
) -> Seq<char> {
    let object = event_object(json, index);
    call_statement(
        lua_name(event_type),
        arg1,
        slot_field(object, arg1),
        arg2,
        slot_field(object, arg2),
    )
}

/// A JSON string comes out of the parser without its quotes. This puts them
/// back where the argument is known to be a string.
pub fn fix_strings(arg_name: &str, arg_value: &str) -> (fixed: String)
    ensures
        fixed@ == fixed_string(arg_name@, arg_value@),
{
    if str_eq(arg_name, "id") || str_eq(arg_name, "message") {
        let mut fixed = String::from_str("\"");
        fixed.append(arg_value);
        fixed.append("\"");
        fixed
    } else {
        String::from_str(arg_value)
    }
}

fn value_of(arg_name: &str, used: bool, field: &Field) -> (value: String)
    requires
        used == is_used(arg_name@),
    ensures
        value@ == argument_value(arg_name@, field@),
{
    if used && field.exists {
        field.text.clone()
    } else {
        String::from_str(arg_name)
    }
}

/// Writes the statement that calls `call` with what the two argument slots
/// hold.
pub fn write_call(call: &str, arg1_name: &str, arg1: &Field, arg2_name: &str, arg2: &Field) -> (statement:
    String)
    ensures
        statement@ == call_statement(call@, arg1_name@, arg1@, arg2_name@, arg2@),
{
    let first_used = !str_eq(arg1_name, NO_ARGUMENT);
    let second_used = !str_eq(arg2_name, NO_ARGUMENT);
    let first_value = value_of(arg1_name, first_used, arg1);
    let first = fix_strings(arg1_name, first_value.as_str());
    let mut statement = String::from_str(call);
    if second_used {
        let second = value_of(arg2_name, second_used, arg2);
        statement.append("(");
        statement.append(first.as_str());
        statement.append(", ");
        statement.append(second.as_str());
        statement.append(");");
    } else if first_used {
        statement.append("(");
        statement.append(first.as_str());
        statement.append(");");
    }
    statement
}

/// Searches an event object for the field of an argument slot, unless the
/// slot is not used.
pub fn find_slot(object: &str, arg_name: &str) -> (field: Field)
    ensures
        field@ == slot_field(object@, arg_name@),
{
    if str_eq(arg_name, NO_ARGUMENT) {
        absent()
    } else {
        find_field(object, arg_name)
    }
}

/// Given the event's type and argument names, along with its place in the
/// JSON, creates the equivalent Lua call.
pub fn create_lua_function(json: &str, index: usize, event_type: &str, arg1: &str, arg2: &str) -> (statement:
    String)
    ensures
        statement@ == lua_function(json@, index as nat, event_type@, arg1@, arg2@),
{
    let object = event_text(json, index);
    let first = find_slot(object.as_str(), arg1);
    let second = find_slot(object.as_str(), arg2);
    write_call(get_lua_name(event_type), arg1, &first, arg2, &second)
}

/// Every statement begins with the call that the table gives for its event.
pub proof fn lemma_statement_begins_with_call(
    call: Seq<char>,
    arg1_name: Seq<char>,
    arg1: FieldView,
    arg2_name: Seq<char>,
    arg2: FieldView,
)
    ensures
        call.is_prefix_of(call_statement(call, arg1_name, arg1, arg2_name, arg2)),
{
}

/// A statement takes as many arguments as the event has slots in use, and a
/// field that is there is the argument, whatever its text spells: also
/// where it spells [`NO_ARGUMENT`].
pub proof fn lemma_used_slots_decide(
    call: Seq<char>,
    arg1_name: Seq<char>,
    arg1: FieldView,
    arg2_name: Seq<char>,
    arg2: FieldView,
)
    ensures
        !is_used(arg1_name) && !is_used(arg2_name) ==> call_statement(
            call,
            arg1_name,
            arg1,
            arg2_name,
            arg2,
        ) == call,
        is_used(arg1_name) && !is_used(arg2_name) && arg1.exists ==> call_statement(
            call,
            arg1_name,
            arg1,
            arg2_name,
            arg2,
        ) == call + "("@ + fixed_string(arg1_name, arg1.text) + ");"@,
        is_used(arg1_name) && is_used(arg2_name) && arg1.exists && arg2.exists ==> call_statement(
            call,
            arg1_name,
            arg1,
            arg2_name,
            arg2,
        ) == call + "("@ + fixed_string(arg1_name, arg1.text) + ", "@ + arg2.text + ");"@,
        is_used(arg1_name) ==> call_statement(call, arg1_name, arg1, arg2_name, arg2) != call,
        is_used(arg2_name) ==> call_statement(call, arg1_name, arg1, arg2_name, arg2) != call,
{
    reveal_strlit("(");
    let first = fixed_string(arg1_name, argument_value(arg1_name, arg1));
    let second = argument_value(arg2_name, arg2);
    assert((call + "("@ + first + ");"@).len() > call.len());
    assert((call + "("@ + first + ", "@ + second + ");"@).len() > call.len());
}

/// The first argument of a call is in double quotes where its slot is named
/// `id` or `message`. A slot named `duration` gives its value as it is,
/// first or second.
pub proof fn lemma_string_slots_are_quoted(
    call: Seq<char>,
    arg1_name: Seq<char>,
    arg1: FieldView,
    arg2_name: Seq<char>,
    arg2: FieldView,
)
    ensures
        arg1_name == "id"@ || arg1_name == "message"@ ==> {
            let quoted = "\""@ + argument_value(arg1_name, arg1) + "\""@;
            let second = argument_value(arg2_name, arg2);
            &&& fixed_string(arg1_name, argument_value(arg1_name, arg1)) == quoted
            &&& call_statement(call, arg1_name, arg1, arg2_name, arg2) == if is_used(arg2_name) {
                call + "("@ + quoted + ", "@ + second + ");"@
            } else {
                call + "("@ + quoted + ");"@
            }
        },
        arg1_name == "duration"@ ==> fixed_string(arg1_name, argument_value(arg1_name, arg1))
            == argument_value(arg1_name, arg1),
        arg2_name == "duration"@ ==> call_statement(call, arg1_name, arg1, arg2_name, arg2) == call
            + "("@ + fixed_string(arg1_name, argument_value(arg1_name, arg1)) + ", "@
            + argument_value(arg2_name, arg2) + ");"@,
{
    reveal_strlit("id");
    reveal_strlit("message");
    reveal_strlit("duration");
    reveal_strlit("None");
    assert("id"@.len() == 2 && "message"@.len() == 7 && "duration"@.len() == 8 && "None"@.len()
        == 4);
}

/// An event type that the call table does not hold gives a statement that
/// begins with the marker `INVALID`.
pub proof fn lemma_unknown_type_shows(
    json: Seq<char>,
    index: nat,
    event_type: Seq<char>,
    arg1: Seq<char>,
    arg2: Seq<char>,
)
    requires
        !is_known_name(event_type),
    ensures
        INVALID@.is_prefix_of(lua_function(json, index, event_type, arg1, arg2)),
{
    lemma_unknown_name_is_invalid(event_type);
}

/// Two texts without a line feed make one without a line feed.
pub proof fn lemma_single_line_concat(a: Seq<char>, b: Seq<char>)
    requires
        is_single_line(a),
        is_single_line(b),
    ensures
        is_single_line(a + b),
{
    assert forall|i: int| 0 <= i < (a + b).len() implies (a + b)[i] != '\n' by {
        if i >= a.len() {
            assert((a + b)[i] == b[i - a.len()]);
        }
    }
}

/// A statement whose call and argument values hold no line feed holds none.
pub proof fn lemma_statement_is_single_line(
    call: Seq<char>,
    arg1_name: Seq<char>,
    arg1: FieldView,
    arg2_name: Seq<char>,
    arg2: FieldView,
)
    requires
        is_single_line(call),
        is_single_line(argument_value(arg1_name, arg1)),
        is_single_line(argument_value(arg2_name, arg2)),
    ensures
        is_single_line(call_statement(call, arg1_name, arg1, arg2_name, arg2)),
{
    reveal_strlit("(");
    reveal_strlit(", ");
    reveal_strlit(");");
    reveal_strlit("\"");
    let value = argument_value(arg1_name, arg1);
    let first = fixed_string(arg1_name, value);
    let second = argument_value(arg2_name, arg2);
    assert(is_single_line(first)) by {
        lemma_single_line_concat("\""@, value);
        lemma_single_line_concat("\""@ + value, "\""@);
    }
    lemma_single_line_concat(call, "("@);
    lemma_single_line_concat(call + "("@, first);
    lemma_single_line_concat(call + "("@ + first, ");"@);
    lemma_single_line_concat(call + "("@ + first, ", "@);
    lemma_single_line_concat(call + "("@ + first + ", "@, second);
    lemma_single_line_concat(call + "("@ + first + ", "@ + second, ");"@);
}

/// Whether the values of both argument slots of the event at `index` hold
/// no line feed.
pub open spec fn arguments_are_single_lines(
    json: Seq<char>,
    index: nat,
    arg1: Seq<char>,
    arg2: Seq<char>,
) -> bool {
    let object = event_object(json, index);
    &&& is_single_line(argument_value(arg1, slot_field(object, arg1)))
    &&& is_single_line(argument_value(arg2, slot_field(object, arg2)))
}

/// The statement of an event whose argument values hold no line feed holds
/// none, whatever the event's type.
pub proof fn lemma_lua_function_is_single_line(
    json: Seq<char>,
    index: nat,
    event_type: Seq<char>,
    arg1: Seq<char>,
    arg2: Seq<char>,
)
    requires
        arguments_are_single_lines(json, index, arg1, arg2),
    ensures
        is_single_line(lua_function(json, index, event_type, arg1, arg2)),
{
    let object = event_object(json, index);
    lemma_lua_name_is_single_line(event_type);
    lemma_statement_is_single_line(
        lua_name(event_type),
        arg1,
        slot_field(object, arg1),
        arg2,
        slot_field(object, arg2),
    );
}

} // verus!
