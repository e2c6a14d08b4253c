//! The timeline parser: from the JSON text of a timeline to its events, in
//! the order in which the JSON lists them.

use vstd::prelude::*;
use vstd::string::*;
use crate::json::{is_valid, json_get, json_valid, key_path, lookup, plain_path, Field, FieldView, Kind};
use crate::tables::{first_arg_name, get_first_arg_name, get_second_arg_name, second_arg_name, NO_ARGUMENT};
use crate::text::{decimal, decimal_string, lemma_decimal_digits};

verus! {

/// The name of the first argument slot of an event that sets a field.
pub const VALUE: &'static str = "value";

/// One entry of a timeline.
#[derive(Debug, PartialEq, Eq)]
pub struct Event {
    /// When the event happens, in seconds: the number as the JSON writes it.
    pub time: String,
    /// The name by which the event's Lua call is found: the event's type,
    /// or, for an event that sets a field, the name of that field.
    pub event_type: String,
    /// The name of the field that supplies the first argument.
    pub arg1: String,
    /// The name of the field that supplies the second argument.
    pub arg2: String,
}

/// An [`Event`] in contracts.
pub struct EventView {
    pub time: Seq<char>,
    pub event_type: Seq<char>,
    pub arg1: Seq<char>,
    pub arg2: Seq<char>,
}

impl View for Event {
    type V = EventView;

    open spec fn view(&self) -> EventView {
        EventView {
            time: self.time@,
            event_type: self.event_type@,
            arg1: self.arg1@,
            arg2: self.arg2@,
        }
    }
}

/// The events of a vector, each by its view.
pub open spec fn event_views(events: Seq<Event>) -> Seq<EventView> {
    events.map_values(|e: Event| e@)
}

/// Why a text is no timeline.
#[derive(Clone, Copy, Debug, PartialEq, Eq, Structural)]
pub enum ParseError {
    /// The text is not JSON.
    InvalidJson,
    /// The JSON has no array named `events`.
    NoEvents,
    /// The element at this index of `events` is no object.
    BadEvent(usize),
    /// The event at this index has no `time`, or one that is no number.
    BadTime(usize),
    /// The event at this index has no `type`, or one that is no string.
    BadType(usize),
}

/// Whether an element of `events` is an object.
pub open spec fn is_object(element: FieldView) -> bool {
    element.exists && element.kind == Kind::Object
}

/// The event that an element of `events` and three of its fields make, or
/// what is wrong with them. The element has to be an object, `time` a
/// number and `type` a string. Where `value_name` is there, the event sets
/// a field: it goes by that field's name and takes the one argument
/// `value`, whatever its type.
pub open spec fn resolved_event(
    index: nat,
    element: FieldView,
    time: FieldView,
    event_type: FieldView,
    value_name: FieldView,
) -> Result<EventView, ParseError> {
    if !is_object(element) {
        Err(ParseError::BadEvent(index as usize))
    } else if !(time.exists && time.kind == Kind::Number) {
        Err(ParseError::BadTime(index as usize))
    } else if !(event_type.exists && event_type.kind == Kind::Text) {
        Err(ParseError::BadType(index as usize))
    } else if value_name.exists {
        Ok(
            EventView {
                time: time.text,
                event_type: value_name.text,
                arg1: VALUE@,
                arg2: NO_ARGUMENT@,
            },
        )
    } else {
        Ok(
            EventView {
                time: time.text,
                event_type: event_type.text,
                arg1: first_arg_name(event_type.text),
                arg2: second_arg_name(event_type.text),
            },
        )
    }
}

/// Makes an event of the element at `index` of `events` and of its `time`,
/// `type` and `value_name` fields.
pub fn resolve_event(
    index: usize,
    element: &Field,
    time: &Field,
    event_type: &Field,
    value_name: &Field,
) -> (event: Result<Event, ParseError>)
    ensures
        match event {
            Ok(e) => resolved_event(index as nat, element@, time@, event_type@, value_name@)
                == Ok::<EventView, ParseError>(e@),
            Err(e) => resolved_event(index as nat, element@, time@, event_type@, value_name@)
                == Err::<EventView, ParseError>(e),
        },
{
    if !(element.exists && element.kind == Kind::Object) {
        Err(ParseError::BadEvent(index))
    } else if !(time.exists && time.kind == Kind::Number) {
        Err(ParseError::BadTime(index))
    } else if !(event_type.exists && event_type.kind == Kind::Text) {
        Err(ParseError::BadType(index))
    } else if value_name.exists {
        Ok(
            Event {
                time: time.text.clone(),
                event_type: value_name.text.clone(),
                arg1: String::from_str(VALUE),
                arg2: String::from_str(NO_ARGUMENT),
            },
        )
    } else {
        Ok(
            Event {
                time: time.text.clone(),
                event_type: event_type.text.clone(),
                arg1: String::from_str(get_first_arg_name(event_type.text.as_str())),
                arg2: String::from_str(get_second_arg_name(event_type.text.as_str())),
            },
        )
    }
}

/// The path of the element at `index` of `events`.
pub open spec fn event_path(index: nat) -> Seq<char> {
    "events."@ + decimal(index)
}

/// The element at `index` of `events`.
pub open spec fn event_element(json: Seq<char>, index: nat) -> FieldView {
    json_get(json, event_path(index))
}

/// The event at `index` as the JSON writes it: the text of the element
/// where that is an object, and no text where it is anything else.
pub open spec fn event_object(json: Seq<char>, index: nat) -> Seq<char> {
    if is_object(event_element(json, index)) {
        event_element(json, index).text
    } else {
        Seq::empty()
    }
}

/// The event at `index` of the timeline `json`, or what is wrong with it.
pub open spec fn event_at(json: Seq<char>, index: nat) -> Result<EventView, ParseError> {
    let object = event_object(json, index);
    resolved_event(
        index,
        event_element(json, index),
        json_get(object, "time"@),
        json_get(object, "type"@),
        json_get(object, "value_name"@),
    )
}

/// The first `count` events of the timeline `json`, or what is wrong with
/// the first of them that is no event.
pub open spec fn events_before(json: Seq<char>, count: nat) -> Result<Seq<EventView>, ParseError>
    decreases count,
{
    if count == 0 {
        Ok(Seq::empty())
    } else {
        match events_before(json, (count - 1) as nat) {
            Err(e) => Err(e),
            Ok(events) => match event_at(json, (count - 1) as nat) {
                Err(e) => Err(e),
                Ok(event) => Ok(events.push(event)),
            },
        }
    }
}

/// How many events the timeline `json` lists, as `gjson` counts them.
pub open spec fn event_count(json: Seq<char>) -> int {
    json_get(json, "events.#"@).whole as int
}

/// Whether `json` is JSON with an array named `events`.
pub open spec fn has_events(json: Seq<char>) -> bool {
    let events = json_get(json, "events"@);
    json_valid(json) && events.exists && events.kind == Kind::Array && event_count(json) >= 0
}

/// The events of the timeline `json`, or why it is no timeline.
pub open spec fn timeline(json: Seq<char>) -> Result<Seq<EventView>, ParseError> {
    if !json_valid(json) {
        Err(ParseError::InvalidJson)
    } else if !has_events(json) {
        Err(ParseError::NoEvents)
    } else {
        events_before(json, event_count(json) as nat)
    }
}

/// Reads the element at `index` of `events`.
pub fn find_event(json: &str, index: usize) -> (element: Field)
    ensures
        element@ == event_element(json@, index as nat),
{
    let mut path = String::from_str("events.");
    let digits = decimal_string(index);
    path.append(digits.as_str());
    proof {
        reveal_strlit("events.");
        lemma_decimal_digits(index as nat);
        assert(key_path(path@));
    }
    lookup(json, path.as_str())
}

/// Reads the event at `index` out of the timeline, as text. An element that
/// is no object has no text.
pub fn event_text(json: &str, index: usize) -> (object: String)
    ensures
        object@ == event_object(json@, index as nat),
{
    let element = find_event(json, index);
    if element.exists && element.kind == Kind::Object {
        element.text
    } else {
        String::new()
    }
}

/// Reads the event at `index` of the timeline `json`.
pub fn parse_event(json: &str, index: usize) -> (event: Result<Event, ParseError>)
    ensures
        match event {
            Ok(e) => event_at(json@, index as nat) == Ok::<EventView, ParseError>(e@),
            Err(e) => event_at(json@, index as nat) == Err::<EventView, ParseError>(e),
        },
{
    let element = find_event(json, index);
    let object = event_text(json, index);
    proof {
        reveal_strlit("time");
        reveal_strlit("type");
        reveal_strlit("value_name");
        assert(key_path("time"@) && key_path("type"@) && key_path("value_name"@));
    }
    let time = lookup(object.as_str(), "time");
    let event_type = lookup(object.as_str(), "type");
    let value_name = lookup(object.as_str(), "value_name");
    resolve_event(index, &element, &time, &event_type, &value_name)
}

/// Takes the JSON text of a timeline and parses it into its events, in the
/// order of the `events` array. A text that is not JSON, that has no such
/// array, or in which an element of the array is no object with a numeric
/// `time` and a string `type` is refused as a whole.
pub fn parse_timeline(json: &str) -> (events: Result<Vec<Event>, ParseError>)
    ensures
        match events {
            Ok(v) => timeline(json@) == Ok::<Seq<EventView>, ParseError>(event_views(v@)),
            Err(e) => timeline(json@) == Err::<Seq<EventView>, ParseError>(e),
        },
{
    if !is_valid(json) {
        return Err(ParseError::InvalidJson);
    }
    proof {
        reveal_strlit("events");
        reveal_strlit("events.#");
        assert(key_path("events"@));
        assert(key_path("events.#"@.subrange(0, 6)));
        assert(plain_path("events.#"@));
    }
    let events = lookup(json, "events");
    let count = lookup(json, "events.#").whole;
    if !(events.exists && events.kind == Kind::Array) || count < 0 {
        return Err(ParseError::NoEvents);
    }
    let length: usize = count as usize;
    let mut timeline: Vec<Event> = Vec::new();
    let mut i: usize = 0;
    assert(event_views(timeline@) =~= Seq::<EventView>::empty());
    while i < length
        invariant
            i <= length,
            length == event_count(json@),
            json_valid(json@),
            has_events(json@),
            events_before(json@, i as nat) == Ok::<Seq<EventView>, ParseError>(
                event_views(timeline@),
            ),
        decreases length - i,
    {
        match parse_event(json, i) {
            Err(e) => {
                proof {
                    assert(events_before(json@, (i + 1) as nat) == Err::<
                        Seq<EventView>,
                        ParseError,
                    >(e));
                    lemma_first_error(json@, (i + 1) as nat, length as nat);
                }
                return Err(e);
            },
            Ok(event) => {
                let ghost before = timeline@;
                timeline.push(event);
                assert(event_views(timeline@) =~= event_views(before).push(event@));
            },
        }
        i += 1;
    }
    Ok(timeline)
}

/// Once a prefix of the events fails, every longer prefix fails the same
/// way.
proof fn lemma_first_error(json: Seq<char>, short: nat, long: nat)
    requires
        short <= long,
        events_before(json, short) is Err,
    ensures
        events_before(json, long) == events_before(json, short),
    decreases long,
{
    if short < long {
        lemma_first_error(json, short, (long - 1) as nat);
    }
}

/// A prefix of the events that parses holds one event for each index, and
/// each of them is what [`event_at`] gives for its index.
pub proof fn lemma_events_before(json: Seq<char>, count: nat)
    requires
        events_before(json, count) is Ok,
    ensures
        events_before(json, count).unwrap().len() == count,
        forall|i: int|
            0 <= i < count ==> event_at(json, i as nat) == Ok::<EventView, ParseError>(
                #[trigger] events_before(json, count).unwrap()[i],
            ),
    decreases count,
{
    if count > 0 {
        lemma_events_before(json, (count - 1) as nat);
    }
}

/// A timeline that parses holds one event for each index that `gjson`
/// counts, and each of them is what [`event_at`] gives for its index.
pub proof fn lemma_timeline_events(json: Seq<char>)
    requires
        timeline(json) is Ok,
    ensures
        timeline(json).unwrap().len() == event_count(json),
        forall|i: int|
            0 <= i < event_count(json) ==> event_at(json, i as nat) == Ok::<EventView, ParseError>(
                #[trigger] timeline(json).unwrap()[i],
            ),
{
    lemma_events_before(json, event_count(json) as nat);
}

/// Every event of a timeline is an object of the JSON, and its time is the
/// number that the JSON writes for it.
pub proof fn lemma_event_is_an_object(json: Seq<char>, index: int)
    requires
        timeline(json) is Ok,
        0 <= index < timeline(json).unwrap().len(),
    ensures
        ({
            let time = json_get(event_object(json, index as nat), "time"@);
            &&& is_object(event_element(json, index as nat))
            &&& event_object(json, index as nat) == event_element(json, index as nat).text
            &&& time.exists
            &&& time.kind == Kind::Number
            &&& timeline(json).unwrap()[index].time == time.text
        }),
{
    lemma_timeline_events(json);
    let event = timeline(json).unwrap()[index];
    assert(event_at(json, index as nat) == Ok::<EventView, ParseError>(event));
}

/// An event without `value_name` goes by the `type` that the JSON gives it,
/// and takes its argument names from the table entry of that type.
pub proof fn lemma_plain_event_keeps_type(json: Seq<char>, index: int)
    requires
        timeline(json) is Ok,
        0 <= index < timeline(json).unwrap().len(),
        !json_get(event_object(json, index as nat), "value_name"@).exists,
    ensures
        ({
            let event = timeline(json).unwrap()[index];
            let event_type = json_get(event_object(json, index as nat), "type"@).text;
            &&& event.event_type == event_type
            &&& event.arg1 == first_arg_name(event_type)
            &&& event.arg2 == second_arg_name(event_type)
        }),
{
    lemma_timeline_events(json);
    let event = timeline(json).unwrap()[index];
    assert(event_at(json, index as nat) == Ok::<EventView, ParseError>(event));
}

/// An event with `value_name` goes by that name and takes the one argument
/// `value`, whatever its `type` is.
pub proof fn lemma_setter_event_goes_by_value_name(json: Seq<char>, index: int)
    requires
        timeline(json) is Ok,
        0 <= index < timeline(json).unwrap().len(),
        json_get(event_object(json, index as nat), "value_name"@).exists,
    ensures
        ({
            let event = timeline(json).unwrap()[index];
            &&& event.event_type == json_get(event_object(json, index as nat), "value_name"@).text
            &&& event.arg1 == VALUE@
            &&& event.arg2 == NO_ARGUMENT@
        }),
{
    lemma_timeline_events(json);
    let event = timeline(json).unwrap()[index];
    assert(event_at(json, index as nat) == Ok::<EventView, ParseError>(event));
}

} // verus!
