//! The name tables: which Lua call stands for an event or a level field, and
//! which fields of an event supply the call's arguments.

use vstd::prelude::*;
use crate::text::{is_single_line, str_eq};

verus! {

/// What a lookup gives for a name that the call table does not hold.
pub const INVALID: &'static str = "INVALID";

/// The name of an argument slot that is not used.
pub const NO_ARGUMENT: &'static str = "None";

/// Event and field names, each with its Lua call. A call that takes no
/// argument is written out whole, brackets included.
pub const CALL_NAMES: [(&'static str, &'static str); 50] = [
    ("timeline_wait", "t_wait"),
    ("timeline_clear", "t_clear()"),
    ("time_stop", "u_haltTime"),
    ("message_add", "e_messageAdd"),
    ("message_important_add", "e_messageAddImportant"),
    ("menu", "e_kill()"),
    ("side_changing_start", "l_enableRndSideChanges(true)"),
    ("side_changing_stop", "l_enableRndSideChanges(false)"),
    ("increment_start", "l_setIncEnabled(true)"),
    ("increment_stop", "l_setIncEnabled(false)"),
    ("style_set", "s_setStyle"),
    ("music_set", "a_setMusic"),
    ("music_set_segment", "a_setMusicSegment"),
    ("music_set_seconds", "a_setMusicSeconds"),
    ("play_sound", "a_playPackSound"),
    ("speed_multiplier", "l_setSpeedMult"),
    ("speed_increment", "l_setSpeedInc"),
    ("rotation_speed", "l_setRotationSpeed"),
    ("rotation_increment", "l_setRotationInc"),
    ("delay_multiplier", "l_setDelayMult"),
    ("delay_increment", "l_setDelayInc"),
    ("fast_spin", "l_setFastSpin"),
    ("sides", "l_setSides"),
    ("sides_min", "l_setSidesMin"),
    ("sides_max", "l_setSidesMax"),
    ("increment_time", "l_setIncTime"),
    ("rotation_speed_max", "l_setRotationSpeedMax"),
    ("wall_skew_left", "l_setWallSkewLeft"),
    ("wall_skew_right", "l_setWallSkewRight"),
    ("wall_angle_left", "l_setWallAngleLeft"),
    ("wall_angle_right", "l_setWallAngleRight"),
    ("pulse_min", "l_setPulseMin"),
    ("pulse_max", "l_setPulseMax"),
    ("pulse_speed", "l_setPulseSpeed"),
    ("pulse_speed_r", "l_setPulseSpeedR"),
    ("pulse_delay_max", "l_setPulseDelayMax"),
    ("beatpulse_max", "l_setBeatpulseMax"),
    ("beatpulse_delay_max", "l_setBeatpulseMax"),
    ("hue_min", "s_setHueMin"),
    ("hue_max", "s_setHueMax"),
    ("hue_ping_pong", "s_setHuePingPong"),
    ("hue_increment", "s_setHueInc"),
    ("3D_depth", "s_set3dDepth"),
    ("3D_skew", "s_set3dSkew"),
    ("3D_spacing", "s_set3dSpacing"),
    ("3D_darken_multiplier", "s_set3dDarkenMult"),
    ("3D_alpha_multiplier", "s_set3dAlphaMult"),
    ("3D_pulse_min", "s_setPulseMin"),
    ("3D_pulse_max", "s_setPulseMax"),
    ("3D_pulse_speed", "s_setPulseSpeed"),
];

/// Event types that take arguments, each with the names of the fields that
/// supply the first and the second one.
pub const ARGUMENT_NAMES: [(&'static str, &'static str, &'static str); 10] = [
    ("event_time_stop", "duration", "None"),
    ("timeline_wait", "duration", "None"),
    ("time_stop", "duration", "None"),
    ("message_add", "message", "duration"),
    ("message_important_add", "message", "duration"),
    ("style_set", "id", "None"),
    ("music_set", "id", "None"),
    ("music_set_segment", "id", "segment_index"),
    ("music_set_seconds", "id", "segment_seconds"),
    ("play_sound", "id", "None"),
];

/// The call of the first entry at or after `from` whose name is `name`.
pub open spec fn call_from(
    table: Seq<(&'static str, &'static str)>,
    from: int,
    name: Seq<char>,
) -> Option<Seq<char>>
    decreases table.len() - from,
{
    if from < 0 || from >= table.len() {
        None
    } else if table[from].0@ == name {
        Some(table[from].1@)
    } else {
        call_from(table, from + 1, name)
    }
}

/// The two argument names of the first entry at or after `from` whose event
/// type is `event_type`.
pub open spec fn arguments_from(
    table: Seq<(&'static str, &'static str, &'static str)>,
    from: int,
    event_type: Seq<char>,
) -> Option<(Seq<char>, Seq<char>)>
    decreases table.len() - from,
{
    if from < 0 || from >= table.len() {
        None
    } else if table[from].0@ == event_type {
        Some((table[from].1@, table[from].2@))
    } else {
        arguments_from(table, from + 1, event_type)
    }
}

/// Whether the call table has an entry for `name`.
pub open spec fn is_known_name(name: Seq<char>) -> bool {
    exists|i: int| 0 <= i < CALL_NAMES@.len() && (#[trigger] CALL_NAMES@[i]).0@ == name
}

/// The Lua call for an event or field name: the table's entry, or
/// [`INVALID`] where it has none.
pub open spec fn lua_name(name: Seq<char>) -> Seq<char> {
    match call_from(CALL_NAMES@, 0, name) {
        Some(call) => call,
        None => INVALID@,
    }
}

/// The name of the field that supplies the first argument of `event_type`, or
/// [`NO_ARGUMENT`].
pub open spec fn first_arg_name(event_type: Seq<char>) -> Seq<char> {
    match arguments_from(ARGUMENT_NAMES@, 0, event_type) {
        Some(names) => names.0,
        None => NO_ARGUMENT@,
    }
}

/// The name of the field that supplies the second argument of `event_type`,
/// or [`NO_ARGUMENT`].
pub open spec fn second_arg_name(event_type: Seq<char>) -> Seq<char> {
    match arguments_from(ARGUMENT_NAMES@, 0, event_type) {
        Some(names) => names.1,
        None => NO_ARGUMENT@,
    }
}

/// Finds the Lua call that stands for the JSON name of an event or field.
pub fn get_lua_name(json_name: &str) -> (call: &'static str)
    ensures
        call@ == lua_name(json_name@),
{
    let mut i: usize = 0;
    while i < CALL_NAMES.len()
        invariant
            i <= CALL_NAMES@.len(),
            call_from(CALL_NAMES@, 0, json_name@) == call_from(CALL_NAMES@, i as int, json_name@),
        decreases CALL_NAMES@.len() - i,
    {
        let entry = CALL_NAMES[i];
        if str_eq(entry.0, json_name) {
            return entry.1;
        }
        i += 1;
    }
    INVALID
}

fn find_arguments(event_type: &str) -> (found: Option<(&'static str, &'static str)>)
    ensures
        match found {
            Some(names) => arguments_from(ARGUMENT_NAMES@, 0, event_type@) == Some(
                (names.0@, names.1@),
            ),
            None => arguments_from(ARGUMENT_NAMES@, 0, event_type@).is_none(),
        },
{
    let mut i: usize = 0;
    while i < ARGUMENT_NAMES.len()
        invariant
            i <= ARGUMENT_NAMES@.len(),
            arguments_from(ARGUMENT_NAMES@, 0, event_type@) == arguments_from(
                ARGUMENT_NAMES@,
                i as int,
                event_type@,
            ),
        decreases ARGUMENT_NAMES@.len() - i,
    {
        let entry = ARGUMENT_NAMES[i];
        if str_eq(entry.0, event_type) {
            return Some((entry.1, entry.2));
        }
        i += 1;
    }
    None
}

/// Given an event type, the name of the field that holds its first argument.
pub fn get_first_arg_name(event_type: &str) -> (name: &'static str)
    ensures
        name@ == first_arg_name(event_type@),
{
    match find_arguments(event_type) {
        Some(names) => names.0,
        None => NO_ARGUMENT,
    }
}

/// Given an event type, the name of the field that holds its second argument.
pub fn get_second_arg_name(event_type: &str) -> (name: &'static str)
    ensures
        name@ == second_arg_name(event_type@),
{
    match find_arguments(event_type) {
        Some(names) => names.1,
        None => NO_ARGUMENT,
    }
}

/// A lookup that does not find its name has passed every entry of the table.
proof fn lemma_call_from_none(table: Seq<(&'static str, &'static str)>, from: int, name: Seq<char>)
    requires
        0 <= from,
        forall|i: int| from <= i < table.len() ==> (#[trigger] table[i]).0@ != name,
    ensures
        call_from(table, from, name).is_none(),
    decreases table.len() - from,
{
    if from < table.len() {
        lemma_call_from_none(table, from + 1, name);
    }
}

/// A lookup that finds its name gives the call of some entry with that name.
proof fn lemma_call_from_some(table: Seq<(&'static str, &'static str)>, from: int, name: Seq<char>)
    requires
        0 <= from,
        call_from(table, from, name).is_some(),
    ensures
        exists|i: int|
            from <= i < table.len() && (#[trigger] table[i]).0@ == name && call_from(
                table,
                from,
                name,
            ) == Some(table[i].1@),
    decreases table.len() - from,
{
    if table[from].0@ != name {
        lemma_call_from_some(table, from + 1, name);
    }
}

/// A name that the call table does not hold resolves to the visible marker
/// [`INVALID`], and only such a name, or one whose entry is that marker,
/// does.
pub proof fn lemma_unknown_name_is_invalid(name: Seq<char>)
    ensures
        !is_known_name(name) ==> lua_name(name) == INVALID@,
        is_known_name(name) ==> exists|i: int|
            0 <= i < CALL_NAMES@.len() && (#[trigger] CALL_NAMES@[i]).0@ == name && lua_name(name)
                == CALL_NAMES@[i].1@,
{
    if is_known_name(name) {
        let k = choose|i: int| 0 <= i < CALL_NAMES@.len() && (#[trigger] CALL_NAMES@[i]).0@ == name;
        if call_from(CALL_NAMES@, 0, name).is_none() {
            lemma_call_from_found(CALL_NAMES@, 0, k, name);
        }
        lemma_call_from_some(CALL_NAMES@, 0, name);
    } else {
        lemma_call_from_none(CALL_NAMES@, 0, name);
    }
}

/// A lookup that starts at or before an entry with the name finds something.
proof fn lemma_call_from_found(
    table: Seq<(&'static str, &'static str)>,
    from: int,
    at: int,
    name: Seq<char>,
)
    requires
        0 <= from <= at < table.len(),
        table[at].0@ == name,
    ensures
        call_from(table, from, name).is_some(),
    decreases at - from,
{
    if from < at && table[from].0@ != name {
        lemma_call_from_found(table, from + 1, at, name);
    }
}

/// No call of the table begins as a wait statement does: each has three
/// characters or more, and not both the `e` and the `w` of `e_waitUntilS`
/// in their places. The same holds of [`INVALID`].
pub proof fn lemma_calls_are_no_waits()
    ensures
        forall|i: int|
            0 <= i < CALL_NAMES@.len() ==> (#[trigger] CALL_NAMES@[i]).1@.len() >= 3 && !(
            CALL_NAMES@[i].1@[0] == 'e' && CALL_NAMES@[i].1@[2] == 'w'),
        INVALID@.len() >= 3 && INVALID@[0] != 'e',
{
    reveal_strlit("INVALID");
    reveal_strlit("a_playPackSound");
    reveal_strlit("a_setMusic");
    reveal_strlit("a_setMusicSeconds");
    reveal_strlit("a_setMusicSegment");
    reveal_strlit("e_kill()");
    reveal_strlit("e_messageAdd");
    reveal_strlit("e_messageAddImportant");
    reveal_strlit("l_enableRndSideChanges(false)");
    reveal_strlit("l_enableRndSideChanges(true)");
    reveal_strlit("l_setBeatpulseMax");
    reveal_strlit("l_setDelayInc");
    reveal_strlit("l_setDelayMult");
    reveal_strlit("l_setFastSpin");
    reveal_strlit("l_setIncEnabled(false)");
    reveal_strlit("l_setIncEnabled(true)");
    reveal_strlit("l_setIncTime");
    reveal_strlit("l_setPulseDelayMax");
    reveal_strlit("l_setPulseMax");
    reveal_strlit("l_setPulseMin");
    reveal_strlit("l_setPulseSpeed");
    reveal_strlit("l_setPulseSpeedR");
    reveal_strlit("l_setRotationInc");
    reveal_strlit("l_setRotationSpeed");
    reveal_strlit("l_setRotationSpeedMax");
    reveal_strlit("l_setSides");
    reveal_strlit("l_setSidesMax");
    reveal_strlit("l_setSidesMin");
    reveal_strlit("l_setSpeedInc");
    reveal_strlit("l_setSpeedMult");
    reveal_strlit("l_setWallAngleLeft");
    reveal_strlit("l_setWallAngleRight");
    reveal_strlit("l_setWallSkewLeft");
    reveal_strlit("l_setWallSkewRight");
    reveal_strlit("s_set3dAlphaMult");
    reveal_strlit("s_set3dDarkenMult");
    reveal_strlit("s_set3dDepth");
    reveal_strlit("s_set3dSkew");
    reveal_strlit("s_set3dSpacing");
    reveal_strlit("s_setHueInc");
    reveal_strlit("s_setHueMax");
    reveal_strlit("s_setHueMin");
    reveal_strlit("s_setHuePingPong");
    reveal_strlit("s_setPulseMax");
    reveal_strlit("s_setPulseMin");
    reveal_strlit("s_setPulseSpeed");
    reveal_strlit("s_setStyle");
    reveal_strlit("t_clear()");
    reveal_strlit("t_wait");
    reveal_strlit("u_haltTime");
    assert forall|i: int| 0 <= i < CALL_NAMES@.len() implies (#[trigger] CALL_NAMES@[i]).1@.len() >= 3
        && !(CALL_NAMES@[i].1@[0] == 'e' && CALL_NAMES@[i].1@[2] == 'w') by {
        if i == 0 {
            assert(CALL_NAMES@[0].1@ == "t_wait"@);
            assert("t_wait"@.len() >= 3 && !("t_wait"@[0] == 'e' && "t_wait"@[2] == 'w'));
        }
        if i == 1 {
            assert(CALL_NAMES@[1].1@ == "t_clear()"@);
            assert("t_clear()"@.len() >= 3 && !("t_clear()"@[0] == 'e' && "t_clear()"@[2] == 'w'));
        }
        if i == 2 {
            assert(CALL_NAMES@[2].1@ == "u_haltTime"@);
            assert("u_haltTime"@.len() >= 3 && !("u_haltTime"@[0] == 'e' && "u_haltTime"@[2] == 'w'));
        }
        if i == 3 {
            assert(CALL_NAMES@[3].1@ == "e_messageAdd"@);
            assert("e_messageAdd"@.len() >= 3 && !("e_messageAdd"@[0] == 'e' && "e_messageAdd"@[2] == 'w'));
        }
        if i == 4 {
            assert(CALL_NAMES@[4].1@ == "e_messageAddImportant"@);
            assert("e_messageAddImportant"@.len() >= 3 && !("e_messageAddImportant"@[0] == 'e' && "e_messageAddImportant"@[2] == 'w'));
        }
        if i == 5 {
            assert(CALL_NAMES@[5].1@ == "e_kill()"@);
            assert("e_kill()"@.len() >= 3 && !("e_kill()"@[0] == 'e' && "e_kill()"@[2] == 'w'));
        }
        if i == 6 {
            assert(CALL_NAMES@[6].1@ == "l_enableRndSideChanges(true)"@);
            assert("l_enableRndSideChanges(true)"@.len() >= 3 && !("l_enableRndSideChanges(true)"@[0] == 'e' && "l_enableRndSideChanges(true)"@[2] == 'w'));
        }
        if i == 7 {
            assert(CALL_NAMES@[7].1@ == "l_enableRndSideChanges(false)"@);
            assert("l_enableRndSideChanges(false)"@.len() >= 3 && !("l_enableRndSideChanges(false)"@[0] == 'e' && "l_enableRndSideChanges(false)"@[2] == 'w'));
        }
        if i == 8 {
            assert(CALL_NAMES@[8].1@ == "l_setIncEnabled(true)"@);
            assert("l_setIncEnabled(true)"@.len() >= 3 && !("l_setIncEnabled(true)"@[0] == 'e' && "l_setIncEnabled(true)"@[2] == 'w'));
        }
        if i == 9 {
            assert(CALL_NAMES@[9].1@ == "l_setIncEnabled(false)"@);
            assert("l_setIncEnabled(false)"@.len() >= 3 && !("l_setIncEnabled(false)"@[0] == 'e' && "l_setIncEnabled(false)"@[2] == 'w'));
        }
        if i == 10 {
            assert(CALL_NAMES@[10].1@ == "s_setStyle"@);
            assert("s_setStyle"@.len() >= 3 && !("s_setStyle"@[0] == 'e' && "s_setStyle"@[2] == 'w'));
        }
        if i == 11 {
            assert(CALL_NAMES@[11].1@ == "a_setMusic"@);
            assert("a_setMusic"@.len() >= 3 && !("a_setMusic"@[0] == 'e' && "a_setMusic"@[2] == 'w'));
        }
        if i == 12 {
            assert(CALL_NAMES@[12].1@ == "a_setMusicSegment"@);
            assert("a_setMusicSegment"@.len() >= 3 && !("a_setMusicSegment"@[0] == 'e' && "a_setMusicSegment"@[2] == 'w'));
        }
        if i == 13 {
            assert(CALL_NAMES@[13].1@ == "a_setMusicSeconds"@);
            assert("a_setMusicSeconds"@.len() >= 3 && !("a_setMusicSeconds"@[0] == 'e' && "a_setMusicSeconds"@[2] == 'w'));
        }
        if i == 14 {
            assert(CALL_NAMES@[14].1@ == "a_playPackSound"@);
            assert("a_playPackSound"@.len() >= 3 && !("a_playPackSound"@[0] == 'e' && "a_playPackSound"@[2] == 'w'));
        }
        if i == 15 {
            assert(CALL_NAMES@[15].1@ == "l_setSpeedMult"@);
            assert("l_setSpeedMult"@.len() >= 3 && !("l_setSpeedMult"@[0] == 'e' && "l_setSpeedMult"@[2] == 'w'));
        }
        if i == 16 {
            assert(CALL_NAMES@[16].1@ == "l_setSpeedInc"@);
            assert("l_setSpeedInc"@.len() >= 3 && !("l_setSpeedInc"@[0] == 'e' && "l_setSpeedInc"@[2] == 'w'));
        }
        if i == 17 {
            assert(CALL_NAMES@[17].1@ == "l_setRotationSpeed"@);
            assert("l_setRotationSpeed"@.len() >= 3 && !("l_setRotationSpeed"@[0] == 'e' && "l_setRotationSpeed"@[2] == 'w'));
        }
        if i == 18 {
            assert(CALL_NAMES@[18].1@ == "l_setRotationInc"@);
            assert("l_setRotationInc"@.len() >= 3 && !("l_setRotationInc"@[0] == 'e' && "l_setRotationInc"@[2] == 'w'));
        }
        if i == 19 {
            assert(CALL_NAMES@[19].1@ == "l_setDelayMult"@);
            assert("l_setDelayMult"@.len() >= 3 && !("l_setDelayMult"@[0] == 'e' && "l_setDelayMult"@[2] == 'w'));
        }
        if i == 20 {
            assert(CALL_NAMES@[20].1@ == "l_setDelayInc"@);
            assert("l_setDelayInc"@.len() >= 3 && !("l_setDelayInc"@[0] == 'e' && "l_setDelayInc"@[2] == 'w'));
        }
        if i == 21 {
            assert(CALL_NAMES@[21].1@ == "l_setFastSpin"@);
            assert("l_setFastSpin"@.len() >= 3 && !("l_setFastSpin"@[0] == 'e' && "l_setFastSpin"@[2] == 'w'));
        }
        if i == 22 {
            assert(CALL_NAMES@[22].1@ == "l_setSides"@);
            assert("l_setSides"@.len() >= 3 && !("l_setSides"@[0] == 'e' && "l_setSides"@[2] == 'w'));
        }
        if i == 23 {
            assert(CALL_NAMES@[23].1@ == "l_setSidesMin"@);
            assert("l_setSidesMin"@.len() >= 3 && !("l_setSidesMin"@[0] == 'e' && "l_setSidesMin"@[2] == 'w'));
        }
        if i == 24 {
            assert(CALL_NAMES@[24].1@ == "l_setSidesMax"@);
            assert("l_setSidesMax"@.len() >= 3 && !("l_setSidesMax"@[0] == 'e' && "l_setSidesMax"@[2] == 'w'));
        }
        if i == 25 {
            assert(CALL_NAMES@[25].1@ == "l_setIncTime"@);
            assert("l_setIncTime"@.len() >= 3 && !("l_setIncTime"@[0] == 'e' && "l_setIncTime"@[2] == 'w'));
        }
        if i == 26 {
            assert(CALL_NAMES@[26].1@ == "l_setRotationSpeedMax"@);
            assert("l_setRotationSpeedMax"@.len() >= 3 && !("l_setRotationSpeedMax"@[0] == 'e' && "l_setRotationSpeedMax"@[2] == 'w'));
        }
        if i == 27 {
            assert(CALL_NAMES@[27].1@ == "l_setWallSkewLeft"@);
            assert("l_setWallSkewLeft"@.len() >= 3 && !("l_setWallSkewLeft"@[0] == 'e' && "l_setWallSkewLeft"@[2] == 'w'));
        }
        if i == 28 {
            assert(CALL_NAMES@[28].1@ == "l_setWallSkewRight"@);
            assert("l_setWallSkewRight"@.len() >= 3 && !("l_setWallSkewRight"@[0] == 'e' && "l_setWallSkewRight"@[2] == 'w'));
        }
        if i == 29 {
            assert(CALL_NAMES@[29].1@ == "l_setWallAngleLeft"@);
            assert("l_setWallAngleLeft"@.len() >= 3 && !("l_setWallAngleLeft"@[0] == 'e' && "l_setWallAngleLeft"@[2] == 'w'));
        }
        if i == 30 {
            assert(CALL_NAMES@[30].1@ == "l_setWallAngleRight"@);
            assert("l_setWallAngleRight"@.len() >= 3 && !("l_setWallAngleRight"@[0] == 'e' && "l_setWallAngleRight"@[2] == 'w'));
        }
        if i == 31 {
            assert(CALL_NAMES@[31].1@ == "l_setPulseMin"@);
            assert("l_setPulseMin"@.len() >= 3 && !("l_setPulseMin"@[0] == 'e' && "l_setPulseMin"@[2] == 'w'));
        }
        if i == 32 {
            assert(CALL_NAMES@[32].1@ == "l_setPulseMax"@);
            assert("l_setPulseMax"@.len() >= 3 && !("l_setPulseMax"@[0] == 'e' && "l_setPulseMax"@[2] == 'w'));
        }
        if i == 33 {
            assert(CALL_NAMES@[33].1@ == "l_setPulseSpeed"@);
            assert("l_setPulseSpeed"@.len() >= 3 && !("l_setPulseSpeed"@[0] == 'e' && "l_setPulseSpeed"@[2] == 'w'));
        }
        if i == 34 {
            assert(CALL_NAMES@[34].1@ == "l_setPulseSpeedR"@);
            assert("l_setPulseSpeedR"@.len() >= 3 && !("l_setPulseSpeedR"@[0] == 'e' && "l_setPulseSpeedR"@[2] == 'w'));
        }
        if i == 35 {
            assert(CALL_NAMES@[35].1@ == "l_setPulseDelayMax"@);
            assert("l_setPulseDelayMax"@.len() >= 3 && !("l_setPulseDelayMax"@[0] == 'e' && "l_setPulseDelayMax"@[2] == 'w'));
        }
        if i == 36 {
            assert(CALL_NAMES@[36].1@ == "l_setBeatpulseMax"@);
            assert("l_setBeatpulseMax"@.len() >= 3 && !("l_setBeatpulseMax"@[0] == 'e' && "l_setBeatpulseMax"@[2] == 'w'));
        }
        if i == 37 {
            assert(CALL_NAMES@[37].1@ == "l_setBeatpulseMax"@);
            assert("l_setBeatpulseMax"@.len() >= 3 && !("l_setBeatpulseMax"@[0] == 'e' && "l_setBeatpulseMax"@[2] == 'w'));
        }
        if i == 38 {
            assert(CALL_NAMES@[38].1@ == "s_setHueMin"@);
            assert("s_setHueMin"@.len() >= 3 && !("s_setHueMin"@[0] == 'e' && "s_setHueMin"@[2] == 'w'));
        }
        if i == 39 {
            assert(CALL_NAMES@[39].1@ == "s_setHueMax"@);
            assert("s_setHueMax"@.len() >= 3 && !("s_setHueMax"@[0] == 'e' && "s_setHueMax"@[2] == 'w'));
        }
        if i == 40 {
            assert(CALL_NAMES@[40].1@ == "s_setHuePingPong"@);
            assert("s_setHuePingPong"@.len() >= 3 && !("s_setHuePingPong"@[0] == 'e' && "s_setHuePingPong"@[2] == 'w'));
        }
        if i == 41 {
            assert(CALL_NAMES@[41].1@ == "s_setHueInc"@);
            assert("s_setHueInc"@.len() >= 3 && !("s_setHueInc"@[0] == 'e' && "s_setHueInc"@[2] == 'w'));
        }
        if i == 42 {
            assert(CALL_NAMES@[42].1@ == "s_set3dDepth"@);
            assert("s_set3dDepth"@.len() >= 3 && !("s_set3dDepth"@[0] == 'e' && "s_set3dDepth"@[2] == 'w'));
        }
        if i == 43 {
            assert(CALL_NAMES@[43].1@ == "s_set3dSkew"@);
            assert("s_set3dSkew"@.len() >= 3 && !("s_set3dSkew"@[0] == 'e' && "s_set3dSkew"@[2] == 'w'));
        }
        if i == 44 {
            assert(CALL_NAMES@[44].1@ == "s_set3dSpacing"@);
            assert("s_set3dSpacing"@.len() >= 3 && !("s_set3dSpacing"@[0] == 'e' && "s_set3dSpacing"@[2] == 'w'));
        }
        if i == 45 {
            assert(CALL_NAMES@[45].1@ == "s_set3dDarkenMult"@);
            assert("s_set3dDarkenMult"@.len() >= 3 && !("s_set3dDarkenMult"@[0] == 'e' && "s_set3dDarkenMult"@[2] == 'w'));
        }
        if i == 46 {
            assert(CALL_NAMES@[46].1@ == "s_set3dAlphaMult"@);
            assert("s_set3dAlphaMult"@.len() >= 3 && !("s_set3dAlphaMult"@[0] == 'e' && "s_set3dAlphaMult"@[2] == 'w'));
        }
        if i == 47 {
            assert(CALL_NAMES@[47].1@ == "s_setPulseMin"@);
            assert("s_setPulseMin"@.len() >= 3 && !("s_setPulseMin"@[0] == 'e' && "s_setPulseMin"@[2] == 'w'));
        }
        if i == 48 {
            assert(CALL_NAMES@[48].1@ == "s_setPulseMax"@);
            assert("s_setPulseMax"@.len() >= 3 && !("s_setPulseMax"@[0] == 'e' && "s_setPulseMax"@[2] == 'w'));
        }
        if i == 49 {
            assert(CALL_NAMES@[49].1@ == "s_setPulseSpeed"@);
            assert("s_setPulseSpeed"@.len() >= 3 && !("s_setPulseSpeed"@[0] == 'e' && "s_setPulseSpeed"@[2] == 'w'));
        }
    }
}

/// The call that a name resolves to, known or not, does not begin as a wait
/// statement does.
pub proof fn lemma_lua_name_is_no_wait(name: Seq<char>)
    ensures
        lua_name(name).len() >= 3,
        !(lua_name(name)[0] == 'e' && lua_name(name)[2] == 'w'),
{
    lemma_calls_are_no_waits();
    lemma_unknown_name_is_invalid(name);
}

proof fn lemma_single_lines_0()
    ensures
        is_single_line("a_playPackSound"@),
        is_single_line("a_setMusic"@),
        is_single_line("a_setMusicSeconds"@),
        is_single_line("a_setMusicSegment"@),
        is_single_line("e_kill()"@),
        is_single_line("e_messageAdd"@),
        is_single_line("e_messageAddImportant"@),
        is_single_line("l_enableRndSideChanges(false)"@),
        is_single_line("l_enableRndSideChanges(true)"@),
        is_single_line("l_setBeatpulseMax"@),
{
    reveal_strlit("a_playPackSound");
    reveal_strlit("a_setMusic");
    reveal_strlit("a_setMusicSeconds");
    reveal_strlit("a_setMusicSegment");
    reveal_strlit("e_kill()");
    reveal_strlit("e_messageAdd");
    reveal_strlit("e_messageAddImportant");
    reveal_strlit("l_enableRndSideChanges(false)");
    reveal_strlit("l_enableRndSideChanges(true)");
    reveal_strlit("l_setBeatpulseMax");
}

proof fn lemma_single_lines_1()
    ensures
        is_single_line("l_setDelayInc"@),
        is_single_line("l_setDelayMult"@),
        is_single_line("l_setFastSpin"@),
        is_single_line("l_setIncEnabled(false)"@),
        is_single_line("l_setIncEnabled(true)"@),
        is_single_line("l_setIncTime"@),
        is_single_line("l_setPulseDelayMax"@),
        is_single_line("l_setPulseMax"@),
        is_single_line("l_setPulseMin"@),
        is_single_line("l_setPulseSpeed"@),
{
    reveal_strlit("l_setDelayInc");
    reveal_strlit("l_setDelayMult");
    reveal_strlit("l_setFastSpin");
    reveal_strlit("l_setIncEnabled(false)");
    reveal_strlit("l_setIncEnabled(true)");
    reveal_strlit("l_setIncTime");
    reveal_strlit("l_setPulseDelayMax");
    reveal_strlit("l_setPulseMax");
    reveal_strlit("l_setPulseMin");
    reveal_strlit("l_setPulseSpeed");
}

proof fn lemma_single_lines_2()
    ensures
        is_single_line("l_setPulseSpeedR"@),
        is_single_line("l_setRotationInc"@),
        is_single_line("l_setRotationSpeed"@),
        is_single_line("l_setRotationSpeedMax"@),
        is_single_line("l_setSides"@),
        is_single_line("l_setSidesMax"@),
        is_single_line("l_setSidesMin"@),
        is_single_line("l_setSpeedInc"@),
        is_single_line("l_setSpeedMult"@),
        is_single_line("l_setWallAngleLeft"@),
{
    reveal_strlit("l_setPulseSpeedR");
    reveal_strlit("l_setRotationInc");
    reveal_strlit("l_setRotationSpeed");
    reveal_strlit("l_setRotationSpeedMax");
    reveal_strlit("l_setSides");
    reveal_strlit("l_setSidesMax");
    reveal_strlit("l_setSidesMin");
    reveal_strlit("l_setSpeedInc");
    reveal_strlit("l_setSpeedMult");
    reveal_strlit("l_setWallAngleLeft");
}

proof fn lemma_single_lines_3()
    ensures
        is_single_line("l_setWallAngleRight"@),
        is_single_line("l_setWallSkewLeft"@),
        is_single_line("l_setWallSkewRight"@),
        is_single_line("s_set3dAlphaMult"@),
        is_single_line("s_set3dDarkenMult"@),
        is_single_line("s_set3dDepth"@),
        is_single_line("s_set3dSkew"@),
        is_single_line("s_set3dSpacing"@),
        is_single_line("s_setHueInc"@),
        is_single_line("s_setHueMax"@),
{
    reveal_strlit("l_setWallAngleRight");
    reveal_strlit("l_setWallSkewLeft");
    reveal_strlit("l_setWallSkewRight");
    reveal_strlit("s_set3dAlphaMult");
    reveal_strlit("s_set3dDarkenMult");
    reveal_strlit("s_set3dDepth");
    reveal_strlit("s_set3dSkew");
    reveal_strlit("s_set3dSpacing");
    reveal_strlit("s_setHueInc");
    reveal_strlit("s_setHueMax");
}

proof fn lemma_single_lines_4()
    ensures
        is_single_line("s_setHueMin"@),
        is_single_line("s_setHuePingPong"@),
        is_single_line("s_setPulseMax"@),
        is_single_line("s_setPulseMin"@),
        is_single_line("s_setPulseSpeed"@),
        is_single_line("s_setStyle"@),
        is_single_line("t_clear()"@),
        is_single_line("t_wait"@),
        is_single_line("u_haltTime"@),
{
    reveal_strlit("s_setHueMin");
    reveal_strlit("s_setHuePingPong");
    reveal_strlit("s_setPulseMax");
    reveal_strlit("s_setPulseMin");
    reveal_strlit("s_setPulseSpeed");
    reveal_strlit("s_setStyle");
    reveal_strlit("t_clear()");
    reveal_strlit("t_wait");
    reveal_strlit("u_haltTime");
}

/// No call of the table holds a line feed, nor does [`INVALID`].
pub proof fn lemma_calls_are_single_lines()
    ensures
        forall|i: int|
            0 <= i < CALL_NAMES@.len() ==> is_single_line((#[trigger] CALL_NAMES@[i]).1@),
        is_single_line(INVALID@),
{
    reveal_strlit("INVALID");
    lemma_single_lines_0();
    lemma_single_lines_1();
    lemma_single_lines_2();
    lemma_single_lines_3();
    lemma_single_lines_4();
    assert forall|i: int| 0 <= i < CALL_NAMES@.len() implies is_single_line(
        (#[trigger] CALL_NAMES@[i]).1@,
    ) by {
        if i == 0 {
            assert(CALL_NAMES@[0].1@ == "t_wait"@);
        }
        if i == 1 {
            assert(CALL_NAMES@[1].1@ == "t_clear()"@);
        }
        if i == 2 {
            assert(CALL_NAMES@[2].1@ == "u_haltTime"@);
        }
        if i == 3 {
            assert(CALL_NAMES@[3].1@ == "e_messageAdd"@);
        }
        if i == 4 {
            assert(CALL_NAMES@[4].1@ == "e_messageAddImportant"@);
        }
        if i == 5 {
            assert(CALL_NAMES@[5].1@ == "e_kill()"@);
        }
        if i == 6 {
            assert(CALL_NAMES@[6].1@ == "l_enableRndSideChanges(true)"@);
        }
        if i == 7 {
            assert(CALL_NAMES@[7].1@ == "l_enableRndSideChanges(false)"@);
        }
        if i == 8 {
            assert(CALL_NAMES@[8].1@ == "l_setIncEnabled(true)"@);
        }
        if i == 9 {
            assert(CALL_NAMES@[9].1@ == "l_setIncEnabled(false)"@);
        }
        if i == 10 {
            assert(CALL_NAMES@[10].1@ == "s_setStyle"@);
        }
        if i == 11 {
            assert(CALL_NAMES@[11].1@ == "a_setMusic"@);
        }
        if i == 12 {
            assert(CALL_NAMES@[12].1@ == "a_setMusicSegment"@);
        }
        if i == 13 {
            assert(CALL_NAMES@[13].1@ == "a_setMusicSeconds"@);
        }
        if i == 14 {
            assert(CALL_NAMES@[14].1@ == "a_playPackSound"@);
        }
        if i == 15 {
            assert(CALL_NAMES@[15].1@ == "l_setSpeedMult"@);
        }
        if i == 16 {
            assert(CALL_NAMES@[16].1@ == "l_setSpeedInc"@);
        }
        if i == 17 {
            assert(CALL_NAMES@[17].1@ == "l_setRotationSpeed"@);
        }
        if i == 18 {
            assert(CALL_NAMES@[18].1@ == "l_setRotationInc"@);
        }
        if i == 19 {
            assert(CALL_NAMES@[19].1@ == "l_setDelayMult"@);
        }
        if i == 20 {
            assert(CALL_NAMES@[20].1@ == "l_setDelayInc"@);
        }
        if i == 21 {
            assert(CALL_NAMES@[21].1@ == "l_setFastSpin"@);
        }
        if i == 22 {
            assert(CALL_NAMES@[22].1@ == "l_setSides"@);
        }
        if i == 23 {
            assert(CALL_NAMES@[23].1@ == "l_setSidesMin"@);
        }
        if i == 24 {
            assert(CALL_NAMES@[24].1@ == "l_setSidesMax"@);
        }
        if i == 25 {
            assert(CALL_NAMES@[25].1@ == "l_setIncTime"@);
        }
        if i == 26 {
            assert(CALL_NAMES@[26].1@ == "l_setRotationSpeedMax"@);
        }
        if i == 27 {
            assert(CALL_NAMES@[27].1@ == "l_setWallSkewLeft"@);
        }
        if i == 28 {
            assert(CALL_NAMES@[28].1@ == "l_setWallSkewRight"@);
        }
        if i == 29 {
            assert(CALL_NAMES@[29].1@ == "l_setWallAngleLeft"@);
        }
        if i == 30 {
            assert(CALL_NAMES@[30].1@ == "l_setWallAngleRight"@);
        }
        if i == 31 {
            assert(CALL_NAMES@[31].1@ == "l_setPulseMin"@);
        }
        if i == 32 {
            assert(CALL_NAMES@[32].1@ == "l_setPulseMax"@);
        }
        if i == 33 {
            assert(CALL_NAMES@[33].1@ == "l_setPulseSpeed"@);
        }
        if i == 34 {
            assert(CALL_NAMES@[34].1@ == "l_setPulseSpeedR"@);
        }
        if i == 35 {
            assert(CALL_NAMES@[35].1@ == "l_setPulseDelayMax"@);
        }
        if i == 36 {
            assert(CALL_NAMES@[36].1@ == "l_setBeatpulseMax"@);
        }
        if i == 37 {
            assert(CALL_NAMES@[37].1@ == "l_setBeatpulseMax"@);
        }
        if i == 38 {
            assert(CALL_NAMES@[38].1@ == "s_setHueMin"@);
        }
        if i == 39 {
            assert(CALL_NAMES@[39].1@ == "s_setHueMax"@);
        }
        if i == 40 {
            assert(CALL_NAMES@[40].1@ == "s_setHuePingPong"@);
        }
        if i == 41 {
            assert(CALL_NAMES@[41].1@ == "s_setHueInc"@);
        }
        if i == 42 {
            assert(CALL_NAMES@[42].1@ == "s_set3dDepth"@);
        }
        if i == 43 {
            assert(CALL_NAMES@[43].1@ == "s_set3dSkew"@);
        }
        if i == 44 {
            assert(CALL_NAMES@[44].1@ == "s_set3dSpacing"@);
        }
        if i == 45 {
            assert(CALL_NAMES@[45].1@ == "s_set3dDarkenMult"@);
        }
        if i == 46 {
            assert(CALL_NAMES@[46].1@ == "s_set3dAlphaMult"@);
        }
        if i == 47 {
            assert(CALL_NAMES@[47].1@ == "s_setPulseMin"@);
        }
        if i == 48 {
            assert(CALL_NAMES@[48].1@ == "s_setPulseMax"@);
        }
        if i == 49 {
            assert(CALL_NAMES@[49].1@ == "s_setPulseSpeed"@);
        }
    }
}

/// The call that a name resolves to, known or not, holds no line feed.
pub proof fn lemma_lua_name_is_single_line(name: Seq<char>)
    ensures
        is_single_line(lua_name(name)),
{
    lemma_calls_are_single_lines();
    lemma_unknown_name_is_invalid(name);
}

/// A lookup of argument names that finds its event type gives the names of
/// some entry of the table.
proof fn lemma_arguments_from_some(
    table: Seq<(&'static str, &'static str, &'static str)>,
    from: int,
    event_type: Seq<char>,
)
    requires
        0 <= from,
        arguments_from(table, from, event_type).is_some(),
    ensures
        exists|i: int|
            from <= i < table.len() && arguments_from(table, from, event_type) == Some(
                ((#[trigger] table[i]).1@, table[i].2@),
            ),
    decreases table.len() - from,
{
    if table[from].0@ != event_type {
        lemma_arguments_from_some(table, from + 1, event_type);
    }
}

/// No argument name of the table holds a line feed, nor does
/// [`NO_ARGUMENT`]: an event type resolves to names of one line.
pub proof fn lemma_argument_names_are_single_lines(event_type: Seq<char>)
    ensures
        is_single_line(NO_ARGUMENT@),
        is_single_line(first_arg_name(event_type)),
        is_single_line(second_arg_name(event_type)),
{
    reveal_strlit("None");
    reveal_strlit("duration");
    reveal_strlit("message");
    reveal_strlit("id");
    reveal_strlit("segment_index");
    reveal_strlit("segment_seconds");
    assert(is_single_line("None"@));
    assert(is_single_line("duration"@));
    assert(is_single_line("message"@));
    assert(is_single_line("id"@));
    assert(is_single_line("segment_index"@));
    assert(is_single_line("segment_seconds"@));
    assert forall|i: int| 0 <= i < ARGUMENT_NAMES@.len() implies is_single_line(
        (#[trigger] ARGUMENT_NAMES@[i]).1@,
    ) && is_single_line(ARGUMENT_NAMES@[i].2@) by {
        if i == 0 {
            assert(ARGUMENT_NAMES@[0].1@ == "duration"@ && ARGUMENT_NAMES@[0].2@ == "None"@);
        }
        if i == 1 {
            assert(ARGUMENT_NAMES@[1].1@ == "duration"@ && ARGUMENT_NAMES@[1].2@ == "None"@);
        }
        if i == 2 {
            assert(ARGUMENT_NAMES@[2].1@ == "duration"@ && ARGUMENT_NAMES@[2].2@ == "None"@);
        }
        if i == 3 {
            assert(ARGUMENT_NAMES@[3].1@ == "message"@ && ARGUMENT_NAMES@[3].2@ == "duration"@);
        }
        if i == 4 {
            assert(ARGUMENT_NAMES@[4].1@ == "message"@ && ARGUMENT_NAMES@[4].2@ == "duration"@);
        }
        if i == 5 {
            assert(ARGUMENT_NAMES@[5].1@ == "id"@ && ARGUMENT_NAMES@[5].2@ == "None"@);
        }
        if i == 6 {
            assert(ARGUMENT_NAMES@[6].1@ == "id"@ && ARGUMENT_NAMES@[6].2@ == "None"@);
        }
        if i == 7 {
            assert(ARGUMENT_NAMES@[7].1@ == "id"@ && ARGUMENT_NAMES@[7].2@ == "segment_index"@);
        }
        if i == 8 {
            assert(ARGUMENT_NAMES@[8].1@ == "id"@ && ARGUMENT_NAMES@[8].2@ == "segment_seconds"@);
        }
        if i == 9 {
            assert(ARGUMENT_NAMES@[9].1@ == "id"@ && ARGUMENT_NAMES@[9].2@ == "None"@);
        }
    }
    if arguments_from(ARGUMENT_NAMES@, 0, event_type).is_some() {
        lemma_arguments_from_some(ARGUMENT_NAMES@, 0, event_type);
    }
}

} // verus!
