use looper_core::midi::midi_commands;
use looper_core::mix::max_abs;
use looper_core::mix::samples_to_time;
use looper_core::mix::sat_add64;
use looper_core::types::Command;
use looper_core::types::CommandOneof;
use looper_core::types::GlobalCommandType;
use looper_core::types::LooperCommandType;
use looper_core::types::PlayMode;
use looper_core::types::RecordMode;

#[test]
fn samples_to_time_truncates_at_the_sample_rate() {
    assert_eq!(samples_to_time(0), 0);
    assert_eq!(samples_to_time(441), 10);
    assert_eq!(samples_to_time(44100), 1000);
    assert_eq!(samples_to_time(44099), 999); // truncated, not rounded
    assert_eq!(samples_to_time(100), 2); // 2.26... ms truncates to 2
}

#[test]
fn sat_add64_saturates_at_the_sample_bounds() {
    assert_eq!(sat_add64(2, 3), 5);
    assert_eq!(sat_add64(-2, -3), -5);
    assert_eq!(sat_add64(i64::MAX, 1), i64::MAX);
    assert_eq!(sat_add64(i64::MAX, i64::MAX), i64::MAX);
    assert_eq!(sat_add64(i64::MIN, -1), i64::MIN);
    assert_eq!(sat_add64(i64::MIN, i64::MAX), -1);
}

#[test]
fn max_abs_is_the_peak_absolute_amplitude() {
    let empty: Vec<i64> = Vec::new();
    assert_eq!(max_abs(&empty), 0);
    assert_eq!(max_abs(&vec![3, -5, 4]), 5);
    assert_eq!(max_abs(&vec![i64::MIN]), 9_223_372_036_854_775_808u64);
    assert_eq!(max_abs(&vec![0, 0]), 0);
}

#[test]
fn mode_codes_match_the_wire_encoding() {
    assert_eq!(RecordMode::Off.code(), 0);
    assert_eq!(RecordMode::Ready.code(), 1);
    assert_eq!(RecordMode::Record.code(), 2);
    assert_eq!(RecordMode::Overdub.code(), 3);
    assert_eq!(PlayMode::Paused.code(), 0);
    assert_eq!(PlayMode::Playing.code(), 1);
}

#[test]
fn command_type_codes_round_trip() {
    let looper_types = vec![
        LooperCommandType::EnableReady,
        LooperCommandType::EnableRecord,
        LooperCommandType::DisableRecord,
        LooperCommandType::EnableOverdub,
        LooperCommandType::DisableOverdub,
        LooperCommandType::EnableMultiply,
        LooperCommandType::DisableMultiply,
        LooperCommandType::EnablePlay,
        LooperCommandType::DisablePlay,
        LooperCommandType::Select,
        LooperCommandType::Delete,
    ];
    for t in looper_types {
        assert_eq!(LooperCommandType::from_code(t.code()), Some(t));
    }
    assert_eq!(LooperCommandType::from_code(11), None);
    assert_eq!(LooperCommandType::from_code(-1), None);
    assert_eq!(GlobalCommandType::from_code(GlobalCommandType::ResetTime.code()), Some(GlobalCommandType::ResetTime));
    assert_eq!(GlobalCommandType::from_code(GlobalCommandType::AddLooper.code()), Some(GlobalCommandType::AddLooper));
    assert_eq!(GlobalCommandType::from_code(2), None);
}

fn expect_looper_command(c: &Command, id: u32, typ: LooperCommandType) {
    match &c.command_oneof {
        Some(CommandOneof::LooperCommand(lc)) => {
            assert_eq!(lc.loopers, vec![id]);
            assert_eq!(lc.command_type, typ.code());
        }
        _ => panic!("expected a looper command"),
    }
}

fn expect_global_command(c: &Command, typ: GlobalCommandType) {
    match &c.command_oneof {
        Some(CommandOneof::GlobalCommand(gc)) => {
            assert_eq!(gc.command, typ.code());
        }
        _ => panic!("expected a global command"),
    }
}

#[test]
fn midi_note_60_maps_by_looper_state() {
    // Empty looper: arm for recording.
    let cmds = midi_commands(3, true, false, &vec![vec![144, 60, 10]]);
    assert_eq!(cmds.len(), 1);
    expect_looper_command(&cmds[0], 3, LooperCommandType::EnableReady);
    // Paused looper with layers: still arm.
    let cmds = midi_commands(3, false, true, &vec![vec![144, 60, 10]]);
    assert_eq!(cmds.len(), 1);
    expect_looper_command(&cmds[0], 3, LooperCommandType::EnableReady);
    // Playing looper with layers: overdub.
    let cmds = midi_commands(3, false, false, &vec![vec![144, 60, 10]]);
    assert_eq!(cmds.len(), 1);
    expect_looper_command(&cmds[0], 3, LooperCommandType::EnableOverdub);
}

#[test]
fn midi_note_62_emits_stop_toggle_and_reset() {
    let cmds = midi_commands(0, false, true, &vec![vec![144, 62, 10]]);
    assert_eq!(cmds.len(), 3);
    expect_looper_command(&cmds[0], 0, LooperCommandType::DisableRecord);
    expect_looper_command(&cmds[1], 0, LooperCommandType::EnablePlay);
    expect_global_command(&cmds[2], GlobalCommandType::ResetTime);
    let cmds = midi_commands(0, false, false, &vec![vec![144, 62, 10]]);
    assert_eq!(cmds.len(), 3);
    expect_looper_command(&cmds[1], 0, LooperCommandType::DisablePlay);
}

#[test]
fn midi_note_64_emits_add_looper() {
    let cmds = midi_commands(0, true, true, &vec![vec![144, 64, 10]]);
    assert_eq!(cmds.len(), 1);
    expect_global_command(&cmds[0], GlobalCommandType::AddLooper);
}

#[test]
fn midi_translation_keeps_event_order() {
    let events = vec![
        vec![144, 64, 1],
        vec![128, 60, 1],
        vec![144, 60, 1],
    ];
    let cmds = midi_commands(9, true, true, &events);
    assert_eq!(cmds.len(), 2);
    expect_global_command(&cmds[0], GlobalCommandType::AddLooper);
    expect_looper_command(&cmds[1], 9, LooperCommandType::EnableReady);
}
