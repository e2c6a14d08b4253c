use events_to_lua::call::{create_lua_function, find_slot, fix_strings, write_call};
use events_to_lua::tables::get_second_arg_name;
use events_to_lua::emit::{
    create_calls, create_lua_script, fit_lines, is_later, render, schedule, Statement, Timestamp,
};
use events_to_lua::json::{find_field, is_key_name, Field, Kind};
use events_to_lua::timeline::{
    event_text, parse_event, parse_timeline, resolve_event, Event, ParseError,
};

fn stamp(time: &str) -> Timestamp {
    let seconds = gjson::parse(time).f32();
    Timestamp { bits: seconds.to_bits(), text: seconds.to_string() }
}

fn stamps_of(events: &Vec<Event>) -> Vec<Timestamp> {
    events.iter().map(|e| stamp(&e.time)).collect()
}

fn convert(json: &str) -> String {
    let events = parse_timeline(json).unwrap();
    let stamps = stamps_of(&events);
    create_lua_script(json, &events, &stamps).unwrap()
}

fn statements_of(json: &str) -> Vec<Statement> {
    let events = parse_timeline(json).unwrap();
    let stamps = stamps_of(&events);
    schedule(&stamps, &create_calls(json, &events)).unwrap()
}

fn count_waits(statements: &Vec<Statement>) -> usize {
    statements.iter().filter(|s| matches!(s, Statement::Wait(_))).count()
}

fn field(kind: Kind, text: &str) -> Field {
    Field { exists: true, kind, text: text.to_string(), whole: 0 }
}

fn object() -> Field {
    field(Kind::Object, "{}")
}

fn missing() -> Field {
    Field { exists: false, kind: Kind::Null, text: String::new(), whole: 0 }
}

#[test]
fn converts_a_wait_and_a_message() {
    let json = r#"{"events":[{"time":0,"type":"timeline_wait","duration":5},{"time":5,"type":"message_add","message":"hello","duration":2}]}"#;
    assert_eq!(
        convert(json),
        "function convertedEvents()\n\tt_wait(5);\n\te_waitUntilS(5);\n\te_messageAdd(\"hello\", 2);\nend"
    );
}

#[test]
fn an_empty_timeline_is_header_and_footer() {
    assert_eq!(convert(r#"{"events":[]}"#), "function convertedEvents()\nend");
}

#[test]
fn events_at_the_same_time_get_no_wait() {
    let json = r#"{"events":[{"time":0,"type":"menu"},{"time":0,"type":"timeline_clear"}]}"#;
    let statements = statements_of(json);
    assert_eq!(count_waits(&statements), 0);
    assert_eq!(
        statements,
        vec![Statement::Call("e_kill()".to_string()), Statement::Call("t_clear()".to_string())]
    );
}

#[test]
fn a_later_event_gets_one_wait() {
    let json = r#"{"events":[{"time":0,"type":"menu"},{"time":2,"type":"timeline_clear"}]}"#;
    let statements = statements_of(json);
    assert_eq!(count_waits(&statements), 1);
    assert_eq!(
        statements,
        vec![
            Statement::Call("e_kill()".to_string()),
            Statement::Wait("2".to_string()),
            Statement::Call("t_clear()".to_string()),
        ]
    );
    assert_eq!(
        convert(json),
        "function convertedEvents()\n\te_kill()\n\te_waitUntilS(2);\n\tt_clear()\nend"
    );
}

#[test]
fn a_wait_carries_the_fraction_of_its_time() {
    let json = r#"{"events":[{"time":2.5,"type":"menu"}]}"#;
    assert_eq!(convert(json), "function convertedEvents()\n\te_waitUntilS(2.5);\n\te_kill()\nend");
}

#[test]
fn an_earlier_event_does_not_move_the_cursor_back() {
    let json = r#"{"events":[{"time":5,"type":"menu"},{"time":3,"type":"menu"},{"time":4,"type":"menu"},{"time":6,"type":"menu"}]}"#;
    assert_eq!(
        statements_of(json),
        vec![
            Statement::Wait("5".to_string()),
            Statement::Call("e_kill()".to_string()),
            Statement::Call("e_kill()".to_string()),
            Statement::Call("e_kill()".to_string()),
            Statement::Wait("6".to_string()),
            Statement::Call("e_kill()".to_string()),
        ]
    );
}

#[test]
fn a_negative_time_gets_no_wait() {
    let json = r#"{"events":[{"time":-1,"type":"menu"}]}"#;
    assert_eq!(convert(json), "function convertedEvents()\n\te_kill()\nend");
}

#[test]
fn there_is_one_call_for_each_event() {
    let json = r#"{"events":[{"time":1,"type":"menu"},{"time":1,"type":"bogus"},{"time":7,"type":"time_stop","duration":3},{"time":2,"type":"menu"}]}"#;
    let events = parse_timeline(json).unwrap();
    let statements = statements_of(json);
    let calls = statements.iter().filter(|s| matches!(s, Statement::Call(_))).count();
    assert_eq!(events.len(), 4);
    assert_eq!(calls, events.len());
    let text = convert(json);
    let lines: Vec<&str> = text.lines().collect();
    let call_lines = lines[1..lines.len() - 1]
        .iter()
        .filter(|line| !line.starts_with("\te_waitUntilS("))
        .count();
    assert_eq!(call_lines, events.len());
}

#[test]
fn later_compares_as_single_precision_numbers_do() {
    let values: [f32; 9] =
        [0.0, -0.0, 1.0, -1.0, 2.5, f32::INFINITY, f32::NEG_INFINITY, f32::NAN, 1.0e-40];
    for a in values.iter() {
        for b in values.iter() {
            assert_eq!(is_later(a.to_bits(), b.to_bits()), a > b);
        }
    }
    assert!(is_later(0x4000_0000, 0x3f80_0000));
    assert!(!is_later(0x3f80_0000, 0x3f80_0000));
}

#[test]
fn schedule_wants_one_timestamp_for_each_call() {
    let calls = vec!["a()".to_string(), "b()".to_string()];
    assert_eq!(schedule(&vec![stamp("1")], &calls), None);
    let json = r#"{"events":[{"time":0,"type":"menu"}]}"#;
    let events = parse_timeline(json).unwrap();
    assert_eq!(create_lua_script(json, &events, &vec![]), None);
    assert_eq!(create_lua_script(json, &events, &vec![stamp("0"), stamp("0")]), None);
    let broken = Timestamp { bits: 0x3f80_0000, text: "1\n".to_string() };
    assert_eq!(create_lua_script(json, &events, &vec![broken]), None);
    assert!(fit_lines(&vec![stamp("1"), stamp("2.5")]));
    assert!(!fit_lines(&vec![stamp("1"), Timestamp { bits: 0, text: "\n0".to_string() }]));
}

#[test]
fn render_writes_one_line_for_each_statement() {
    let statements =
        vec![Statement::Wait("1.5".to_string()), Statement::Call("t_clear()".to_string())];
    assert_eq!(
        render(&statements),
        "function convertedEvents()\n\te_waitUntilS(1.5);\n\tt_clear()\nend"
    );
    assert_eq!(render(&vec![]), "function convertedEvents()\nend");
}

#[test]
fn an_event_without_value_name_keeps_its_type() {
    let json = r#"{"events":[{"time":3,"type":"music_set_segment","id":"song","segment_index":2}]}"#;
    let events = parse_timeline(json).unwrap();
    assert_eq!(events.len(), 1);
    assert_eq!(events[0].time, "3");
    assert_eq!(events[0].event_type, "music_set_segment");
    assert_eq!(events[0].arg1, "id");
    assert_eq!(events[0].arg2, "segment_index");
    assert_eq!(convert(json), "function convertedEvents()\n\te_waitUntilS(3);\n\ta_setMusicSegment(\"song\", 2);\nend");
}

#[test]
fn an_event_with_value_name_goes_by_that_name() {
    let json = r#"{"events":[{"time":1,"type":"level_float_set","value_name":"speed_multiplier","value":2.5},{"time":1,"type":"message_add","value_name":"sides","value":6,"duration":9}]}"#;
    let events = parse_timeline(json).unwrap();
    assert_eq!(events[0].event_type, "speed_multiplier");
    assert_eq!(events[0].arg1, "value");
    assert_eq!(events[0].arg2, "None");
    assert_eq!(events[1].event_type, "sides");
    assert_eq!(events[1].arg1, "value");
    assert_eq!(events[1].arg2, "None");
    assert_eq!(
        convert(json),
        "function convertedEvents()\n\te_waitUntilS(1);\n\tl_setSpeedMult(2.5);\n\tl_setSides(6);\nend"
    );
}

#[test]
fn resolve_event_follows_the_three_fields() {
    let time = field(Kind::Number, "4");
    let plain = resolve_event(0, &object(), &time, &field(Kind::Text, "message_add"), &missing()).unwrap();
    assert_eq!(
        plain,
        Event {
            time: "4".to_string(),
            event_type: "message_add".to_string(),
            arg1: "message".to_string(),
            arg2: "duration".to_string(),
        }
    );
    let setter =
        resolve_event(0, &object(), &time, &field(Kind::Text, "message_add"), &field(Kind::Text, "hue_min"))
            .unwrap();
    assert_eq!(
        setter,
        Event {
            time: "4".to_string(),
            event_type: "hue_min".to_string(),
            arg1: "value".to_string(),
            arg2: "None".to_string(),
        }
    );
    let unknown = resolve_event(0, &object(), &time, &field(Kind::Text, "bogus"), &missing()).unwrap();
    assert_eq!(unknown.arg1, "None");
    assert_eq!(unknown.arg2, "None");
}

#[test]
fn resolve_event_names_the_field_that_is_wrong() {
    let time = field(Kind::Number, "4");
    let kind = field(Kind::Text, "menu");
    assert_eq!(resolve_event(3, &object(), &missing(), &kind, &missing()), Err(ParseError::BadTime(3)));
    assert_eq!(
        resolve_event(3, &object(), &field(Kind::Text, "4"), &kind, &missing()),
        Err(ParseError::BadTime(3))
    );
    assert_eq!(resolve_event(5, &object(), &time, &missing(), &missing()), Err(ParseError::BadType(5)));
    assert_eq!(
        resolve_event(5, &object(), &time, &field(Kind::Number, "1"), &missing()),
        Err(ParseError::BadType(5))
    );
    assert_eq!(resolve_event(7, &object(), &missing(), &missing(), &missing()), Err(ParseError::BadTime(7)));
}

#[test]
fn refuses_text_that_is_not_json() {
    assert_eq!(parse_timeline("{\"events\":[").unwrap_err(), ParseError::InvalidJson);
    assert_eq!(parse_timeline("").unwrap_err(), ParseError::InvalidJson);
    assert_eq!(parse_timeline("not json").unwrap_err(), ParseError::InvalidJson);
}

#[test]
fn refuses_json_without_an_events_array() {
    assert_eq!(parse_timeline("{}").unwrap_err(), ParseError::NoEvents);
    assert_eq!(parse_timeline(r#"{"events":5}"#).unwrap_err(), ParseError::NoEvents);
    assert_eq!(parse_timeline(r#"{"events":{"0":1}}"#).unwrap_err(), ParseError::NoEvents);
    assert_eq!(parse_timeline(r#"{"event":[]}"#).unwrap_err(), ParseError::NoEvents);
}

#[test]
fn refuses_an_event_without_a_time_or_a_type() {
    assert_eq!(
        parse_timeline(r#"{"events":[{"type":"menu"}]}"#).unwrap_err(),
        ParseError::BadTime(0)
    );
    assert_eq!(
        parse_timeline(r#"{"events":[{"time":"1","type":"menu"}]}"#).unwrap_err(),
        ParseError::BadTime(0)
    );
    assert_eq!(
        parse_timeline(r#"{"events":[{"time":1,"type":"menu"},{"time":2}]}"#).unwrap_err(),
        ParseError::BadType(1)
    );
    assert_eq!(
        parse_timeline(r#"{"events":[{"time":1,"type":7}]}"#).unwrap_err(),
        ParseError::BadType(0)
    );
    assert_eq!(
        parse_timeline(r#"{"events":[{"time":1,"type":"menu"},7]}"#).unwrap_err(),
        ParseError::BadEvent(1)
    );
}

#[test]
fn the_first_bad_event_is_the_one_reported() {
    let json = r#"{"events":[{"time":1,"type":"menu"},{"time":1},{"type":"menu"}]}"#;
    assert_eq!(parse_timeline(json).unwrap_err(), ParseError::BadType(1));
    assert_eq!(parse_event(json, 2).unwrap_err(), ParseError::BadTime(2));
    assert_eq!(parse_event(json, 0).unwrap().event_type, "menu");
    assert_eq!(parse_event(json, 3).unwrap_err(), ParseError::BadEvent(3));
}

#[test]
fn events_keep_the_order_of_the_json() {
    let json = r#"{"events":[{"time":9,"type":"c"},{"time":1,"type":"a"},{"time":4,"type":"b"}]}"#;
    let events = parse_timeline(json).unwrap();
    let types: Vec<&str> = events.iter().map(|e| e.event_type.as_str()).collect();
    let times: Vec<&str> = events.iter().map(|e| e.time.as_str()).collect();
    assert_eq!(types, vec!["c", "a", "b"]);
    assert_eq!(times, vec!["9", "1", "4"]);
}

#[test]
fn a_timeline_of_a_dozen_events_reaches_the_two_digit_indices() {
    let mut json = String::from(r#"{"events":["#);
    for i in 0..12 {
        if i > 0 {
            json.push(',');
        }
        json.push_str(&format!(r#"{{"time":{},"type":"timeline_wait","duration":{}}}"#, i, i * 10));
    }
    json.push_str("]}");
    let events = parse_timeline(&json).unwrap();
    assert_eq!(events.len(), 12);
    assert_eq!(event_text(&json, 11), r#"{"time":11,"type":"timeline_wait","duration":110}"#);
    assert_eq!(create_lua_function(&json, 10, "timeline_wait", "duration", "None"), "t_wait(100);");
    assert_eq!(event_text(&json, 12), "");
}

#[test]
fn string_slots_are_quoted_and_duration_is_not() {
    assert_eq!(fix_strings("message", "hello"), "\"hello\"");
    assert_eq!(fix_strings("id", "song"), "\"song\"");
    assert_eq!(fix_strings("duration", "5"), "5");
    assert_eq!(fix_strings("value", "true"), "true");
    assert_eq!(fix_strings("message", ""), "\"\"");
    let json = r#"{"events":[{"time":0,"type":"message_important_add","message":"go","duration":3},{"time":0,"type":"play_sound","id":"beep"},{"time":0,"type":"time_stop","duration":4}]}"#;
    assert_eq!(
        create_lua_function(json, 0, "message_important_add", "message", "duration"),
        "e_messageAddImportant(\"go\", 3);"
    );
    assert_eq!(create_lua_function(json, 1, "play_sound", "id", "None"), "a_playPackSound(\"beep\");");
    assert_eq!(create_lua_function(json, 2, "time_stop", "duration", "None"), "u_haltTime(4);");
}

#[test]
fn the_second_slot_is_never_quoted() {
    let json = r#"{"events":[{"time":0,"type":"message_add","message":"hi","duration":2}]}"#;
    assert_eq!(
        create_lua_function(json, 0, "message_add", "duration", "message"),
        "e_messageAdd(2, hi);"
    );
    assert_eq!(
        write_call("f", "a", &field(Kind::Number, "1"), "id", &field(Kind::Text, "x")),
        "f(1, x);"
    );
}

#[test]
fn a_missing_field_gives_the_name_of_its_slot() {
    let json = r#"{"events":[{"time":0,"type":"timeline_wait"},{"time":0,"type":"message_add","duration":2}]}"#;
    assert_eq!(create_lua_function(json, 0, "timeline_wait", "duration", "None"), "t_wait(duration);");
    assert_eq!(
        create_lua_function(json, 1, "message_add", "message", "duration"),
        "e_messageAdd(\"message\", 2);"
    );
    assert_eq!(write_call("f", "a", &missing(), "b", &missing()), "f(a, b);");
}

#[test]
fn a_call_takes_as_many_arguments_as_it_has_values() {
    let one = field(Kind::Number, "1");
    let two = field(Kind::Number, "2");
    assert_eq!(write_call("l_setIncEnabled(true)", "None", &missing(), "None", &missing()), "l_setIncEnabled(true)");
    assert_eq!(write_call("t_wait", "duration", &one, "None", &missing()), "t_wait(1);");
    assert_eq!(write_call("f", "a", &one, "b", &two), "f(1, 2);");
    assert_eq!(write_call("f", "None", &missing(), "b", &two), "f(None, 2);");
    assert_eq!(
        write_call("f", "a", &field(Kind::Text, "None"), "b", &field(Kind::Text, "None")),
        "f(None, None);"
    );
    assert_eq!(write_call("f", "id", &field(Kind::Text, "None"), "None", &missing()), "f(\"None\");");
    assert_eq!(write_call("f", "None", &field(Kind::Text, "x"), "None", &field(Kind::Text, "y")), "f");
}

#[test]
fn an_unknown_event_type_shows_as_invalid() {
    let json = r#"{"events":[{"time":0,"type":"bogus","duration":1}]}"#;
    assert_eq!(convert(json), "function convertedEvents()\n\tINVALID\nend");
    assert_eq!(create_lua_function(json, 0, "bogus", "duration", "None"), "INVALID(1);");
    assert!(create_lua_function(json, 0, "", "None", "None").contains("INVALID"));
}

#[test]
fn a_name_that_is_no_plain_path_names_no_field() {
    let json = r#"{"events":[{"time":0,"type":"timeline_wait","duration":5}]}"#;
    assert!(is_key_name("duration"));
    assert!(is_key_name("segment_index"));
    assert!(is_key_name("3D_depth"));
    assert!(!is_key_name("events.12"));
    assert!(!is_key_name("events.#"));
    assert!(!is_key_name("#.a"));
    assert!(is_key_name(""));
    assert!(!is_key_name("@this"));
    assert!(!is_key_name("dur*"));
    assert!(!is_key_name("a|b"));
    assert!(!is_key_name("dur\u{e9}e"));
    assert_eq!(create_lua_function(json, 0, "timeline_wait", "@this", "None"), "t_wait(@this);");
    assert_eq!(create_lua_function(json, 0, "timeline_wait", "dur*", "None"), "t_wait(dur*);");
    assert_eq!(find_field(r#"{"duration":5}"#, "dur*"), missing());
}

#[test]
fn find_field_tells_what_it_found() {
    let json = r#"{"n":12,"s":"a\"b","t":true,"f":false,"z":null,"a":[1,2,3],"o":{"k":"v"}}"#;
    assert_eq!(find_field(json, "n"), Field { exists: true, kind: Kind::Number, text: "12".to_string(), whole: 12 });
    assert_eq!(find_field(json, "s"), Field { exists: true, kind: Kind::Text, text: "a\"b".to_string(), whole: 0 });
    assert_eq!(find_field(json, "t").kind, Kind::True);
    assert_eq!(find_field(json, "t").text, "true");
    assert_eq!(find_field(json, "f").kind, Kind::False);
    assert_eq!(find_field(json, "z").kind, Kind::Null);
    assert!(find_field(json, "z").exists);
    assert_eq!(find_field(json, "a").kind, Kind::Array);
    assert_eq!(find_field(json, "a").text, "[1,2,3]");
    assert_eq!(find_field(json, "o").text, r#"{"k":"v"}"#);
    assert_eq!(find_field(json, "a.#"), missing());
    assert_eq!(find_field(json, "a.1"), missing());
    assert_eq!(find_field(json, "o.k"), missing());
    assert_eq!(find_field(json, "x"), missing());
}

#[test]
fn a_message_with_a_line_feed_takes_two_lines() {
    let json = r#"{"events":[{"time":0,"type":"message_add","message":"a\nb","duration":1}]}"#;
    assert_eq!(
        convert(json),
        "function convertedEvents()\n\te_messageAdd(\"a\nb\", 1);\nend"
    );
    assert_eq!(statements_of(json).len(), 1);
    assert_eq!(convert(json).lines().count(), 4);
}

#[test]
fn a_field_that_spells_none_is_an_argument() {
    let json = r#"{"events":[{"time":0,"type":"timeline_wait","duration":"None"}]}"#;
    assert_eq!(
        create_lua_function(json, 0, "timeline_wait", "duration", get_second_arg_name("timeline_wait")),
        "t_wait(None);"
    );
    assert_eq!(convert(json), "function convertedEvents()\n\tt_wait(None);\nend");
    let setter = r#"{"events":[{"time":0,"type":"style_float_set","value_name":"hue_min","value":"None"}]}"#;
    assert_eq!(convert(setter), "function convertedEvents()\n\ts_setHueMin(None);\nend");
}

#[test]
fn a_slot_that_is_not_used_is_not_searched() {
    let json = r#"{"events":[{"time":0,"type":"menu","None":"x"}]}"#;
    assert_eq!(convert(json), "function convertedEvents()\n\te_kill()\nend");
    assert_eq!(create_lua_function(json, 0, "menu", "None", "None"), "e_kill()");
    assert_eq!(create_lua_function(json, 0, "t", "None", "time"), "INVALID(None, 0);");
    assert_eq!(find_slot(r#"{"None":"x","a":1}"#, "None"), missing());
    assert_eq!(find_slot(r#"{"None":"x","a":1}"#, "a").text, "1");
}

#[test]
fn an_element_that_is_no_object_is_no_event() {
    let json = r#"{"events":["{\"time\":0,\"type\":\"menu\"}"]}"#;
    assert_eq!(parse_timeline(json).unwrap_err(), ParseError::BadEvent(0));
    assert_eq!(event_text(json, 0), "");
    assert_eq!(create_lua_function(json, 0, "timeline_wait", "time", "None"), "t_wait(time);");
    assert_eq!(
        parse_timeline(r#"{"events":[[{"time":0,"type":"menu"}]]}"#).unwrap_err(),
        ParseError::BadEvent(0)
    );
    assert_eq!(parse_timeline(r#"{"events":[null]}"#).unwrap_err(), ParseError::BadEvent(0));
    assert_eq!(
        resolve_event(2, &field(Kind::Text, "{}"), &missing(), &missing(), &missing()),
        Err(ParseError::BadEvent(2))
    );
    assert_eq!(
        resolve_event(2, &missing(), &field(Kind::Number, "1"), &field(Kind::Text, "menu"), &missing()),
        Err(ParseError::BadEvent(2))
    );
}

#[test]
fn text_that_is_no_json_gives_text_all_the_same() {
    let broken = "[{\"a\":tru\u{20ac}}]";
    assert_eq!(find_field(broken, "#.a"), missing());
    assert_eq!(find_field(broken, "a"), missing());
    let cut = "{\"a\":\"\\u12\u{20ac}\"}";
    let found = find_field(cut, "a");
    assert!(found.exists);
    assert_eq!(found.kind, Kind::Text);
    assert!(std::str::from_utf8(found.text.as_bytes()).is_ok());
    let json = "{\"events\":[[{\"a\":tru\u{20ac}}]]}";
    assert_eq!(create_lua_function(json, 0, "menu", "#.a", "None"), "e_kill()(#.a);");
}
