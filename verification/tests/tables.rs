use events_to_lua::tables::{
    get_first_arg_name, get_lua_name, get_second_arg_name, ARGUMENT_NAMES, CALL_NAMES, INVALID,
    NO_ARGUMENT,
};

#[test]
fn every_entry_of_the_call_table_is_found() {
    assert_eq!(CALL_NAMES.len(), 50);
    for (name, call) in CALL_NAMES.iter() {
        assert_eq!(get_lua_name(name), *call);
    }
}

#[test]
fn the_call_table_holds_each_name_once() {
    for (i, (name, _)) in CALL_NAMES.iter().enumerate() {
        for (other, _) in CALL_NAMES[i + 1..].iter() {
            assert_ne!(name, other);
        }
    }
}

#[test]
fn calls_are_found_by_name() {
    assert_eq!(get_lua_name("timeline_wait"), "t_wait");
    assert_eq!(get_lua_name("timeline_clear"), "t_clear()");
    assert_eq!(get_lua_name("time_stop"), "u_haltTime");
    assert_eq!(get_lua_name("message_add"), "e_messageAdd");
    assert_eq!(get_lua_name("menu"), "e_kill()");
    assert_eq!(get_lua_name("side_changing_stop"), "l_enableRndSideChanges(false)");
    assert_eq!(get_lua_name("increment_start"), "l_setIncEnabled(true)");
    assert_eq!(get_lua_name("style_set"), "s_setStyle");
    assert_eq!(get_lua_name("play_sound"), "a_playPackSound");
    assert_eq!(get_lua_name("speed_multiplier"), "l_setSpeedMult");
    assert_eq!(get_lua_name("beatpulse_max"), "l_setBeatpulseMax");
    assert_eq!(get_lua_name("beatpulse_delay_max"), "l_setBeatpulseMax");
    assert_eq!(get_lua_name("3D_depth"), "s_set3dDepth");
    assert_eq!(get_lua_name("3D_pulse_speed"), "s_setPulseSpeed");
}

#[test]
fn an_unknown_name_is_invalid() {
    assert_eq!(INVALID, "INVALID");
    assert_eq!(get_lua_name("bogus"), "INVALID");
    assert_eq!(get_lua_name(""), "INVALID");
    assert_eq!(get_lua_name("Timeline_wait"), "INVALID");
    assert_eq!(get_lua_name("timeline_wait "), "INVALID");
    assert_eq!(get_lua_name("event_time_stop"), "INVALID");
    assert_eq!(get_lua_name("t_wait"), "INVALID");
}

#[test]
fn argument_names_follow_the_event_type() {
    assert_eq!(ARGUMENT_NAMES.len(), 10);
    assert_eq!(get_first_arg_name("event_time_stop"), "duration");
    assert_eq!(get_first_arg_name("timeline_wait"), "duration");
    assert_eq!(get_first_arg_name("time_stop"), "duration");
    assert_eq!(get_first_arg_name("message_add"), "message");
    assert_eq!(get_first_arg_name("message_important_add"), "message");
    assert_eq!(get_first_arg_name("style_set"), "id");
    assert_eq!(get_first_arg_name("music_set"), "id");
    assert_eq!(get_first_arg_name("music_set_segment"), "id");
    assert_eq!(get_first_arg_name("music_set_seconds"), "id");
    assert_eq!(get_first_arg_name("play_sound"), "id");
    assert_eq!(get_second_arg_name("message_add"), "duration");
    assert_eq!(get_second_arg_name("message_important_add"), "duration");
    assert_eq!(get_second_arg_name("music_set_segment"), "segment_index");
    assert_eq!(get_second_arg_name("music_set_seconds"), "segment_seconds");
    assert_eq!(get_second_arg_name("timeline_wait"), "None");
    assert_eq!(get_second_arg_name("play_sound"), "None");
}

#[test]
fn an_unknown_event_type_takes_no_argument() {
    assert_eq!(NO_ARGUMENT, "None");
    assert_eq!(get_first_arg_name("menu"), "None");
    assert_eq!(get_second_arg_name("menu"), "None");
    assert_eq!(get_first_arg_name("bogus"), "None");
    assert_eq!(get_second_arg_name(""), "None");
}
