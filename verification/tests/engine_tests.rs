use looper_core::channel::CommandQueue;
use looper_core::channel::StateQueue;
use looper_core::engine::Engine;
use looper_core::types::Command;
use looper_core::types::CommandOneof;
use looper_core::types::GlobalCommandType;
use looper_core::types::LooperCommand;
use looper_core::types::LooperCommandType;

fn make_engine() -> (Engine, CommandQueue, StateQueue) {
    let commands = CommandQueue::new();
    let states = StateQueue::new();
    let command_handle = commands.handle();
    let state_handle = states.handle();
    let engine = Engine::new(states, commands);
    (engine, command_handle, state_handle)
}

fn silent_block(len: usize) -> Vec<i64> {
    let mut b: Vec<i64> = Vec::new();
    for _ in 0..len {
        b.push(0);
    }
    b
}

fn no_midi() -> Vec<Vec<u8>> {
    Vec::new()
}

#[test]
fn new_engine_starts_at_zero_with_one_looper() {
    let (engine, _commands, _states) = make_engine();
    assert_eq!(engine.time(), 0);
    assert_eq!(engine.active_id(), 0);
    assert_eq!(engine.looper_count(), 1);
}

#[test]
fn scenario_ready_then_hot_block_records_raw_input() {
    let (mut engine, commands, states) = make_engine();
    commands.push(Command::looper_command(0, LooperCommandType::EnableReady));
    let in_l = vec![500_000i64, -7, 13, 0];
    let in_r = vec![0i64, 0, 0, 42];
    let (out_l, out_r) = engine.process(&no_midi(), &in_l, &in_r);
    // Nothing plays yet: output is the live input.
    assert_eq!(out_l, in_l);
    assert_eq!(out_r, in_r);
    // The hot block armed recording and was itself recorded, raw.
    for i in 0..4 {
        assert_eq!(engine.layer_sample(0, 0, i, true), Some(in_l[i]));
        assert_eq!(engine.layer_sample(0, 0, i, false), Some(in_r[i]));
    }
    assert_eq!(engine.layer_sample(0, 0, 4, true), None);
    let snapshot = states.pop().expect("one snapshot per block");
    assert_eq!(snapshot.loops.len(), 1);
    assert_eq!(snapshot.loops[0].id, 0);
    assert_eq!(snapshot.loops[0].record_mode, 2); // Record
    assert_eq!(snapshot.loops[0].play_mode, 0); // Paused
    assert!(snapshot.loops[0].active);
}

#[test]
fn quiet_block_does_not_trigger_recording() {
    let (mut engine, commands, states) = make_engine();
    commands.push(Command::looper_command(0, LooperCommandType::EnableReady));
    // Peak 100_000 does not exceed the threshold (strictly greater is required).
    let in_l = vec![100_000i64, 0];
    let in_r = vec![0i64, -100_000];
    engine.process(&no_midi(), &in_l, &in_r);
    assert_eq!(engine.layer_sample(0, 0, 0, true), None);
    let snapshot = states.pop().expect("one snapshot per block");
    assert_eq!(snapshot.loops[0].record_mode, 1); // still Ready
}

#[test]
fn scenario_playback_repeats_recorded_block() {
    let (mut engine, commands, states) = make_engine();
    // Record one hot block of four samples.
    commands.push(Command::looper_command(0, LooperCommandType::EnableReady));
    let recorded_l = vec![500_000i64, 1, 2, 3];
    let recorded_r = vec![4i64, 5, 6, 500_000];
    engine.process(&no_midi(), &recorded_l, &recorded_r);
    let _ = states.pop();
    // Stop recording, start playing, reset the clock.
    commands.push(Command::looper_command(0, LooperCommandType::DisableRecord));
    commands.push(Command::looper_command(0, LooperCommandType::EnablePlay));
    commands.push(Command::global_command(GlobalCommandType::ResetTime));
    let (out_l, out_r) = engine.process(&no_midi(), &silent_block(4), &silent_block(4));
    assert_eq!(out_l, recorded_l);
    assert_eq!(out_r, recorded_r);
    assert_eq!(engine.time(), 4); // reset to 0, then advanced by the block
    let snapshot = states.pop().expect("one snapshot per block");
    assert_eq!(snapshot.loops[0].record_mode, 0); // Off
    assert_eq!(snapshot.loops[0].play_mode, 1); // Playing
    // The loop keeps repeating on later blocks (loop length = 1 block).
    let (again_l, again_r) = engine.process(&no_midi(), &silent_block(4), &silent_block(4));
    assert_eq!(again_l, recorded_l);
    assert_eq!(again_r, recorded_r);
}

#[test]
fn playback_mixes_on_top_of_live_input() {
    let (mut engine, commands, _states) = make_engine();
    commands.push(Command::looper_command(0, LooperCommandType::EnableReady));
    engine.process(&no_midi(), &vec![200_000i64, 300_000], &silent_block(2));
    commands.push(Command::looper_command(0, LooperCommandType::DisableRecord));
    commands.push(Command::looper_command(0, LooperCommandType::EnablePlay));
    commands.push(Command::global_command(GlobalCommandType::ResetTime));
    let (out_l, _out_r) = engine.process(&no_midi(), &vec![11i64, 22], &silent_block(2));
    assert_eq!(out_l, vec![200_011i64, 300_022]);
}

#[test]
fn scenario_add_looper_twice_assigns_fresh_ids() {
    let (mut engine, commands, states) = make_engine();
    commands.push(Command::global_command(GlobalCommandType::AddLooper));
    commands.push(Command::global_command(GlobalCommandType::AddLooper));
    engine.process(&no_midi(), &silent_block(1), &silent_block(1));
    assert_eq!(engine.looper_count(), 3);
    assert_eq!(engine.active_id(), 2);
    let snapshot = states.pop().expect("one snapshot per block");
    assert_eq!(snapshot.loops.len(), 3);
    assert_eq!(snapshot.loops[0].id, 0);
    assert_eq!(snapshot.loops[1].id, 1);
    assert_eq!(snapshot.loops[2].id, 2);
    assert!(!snapshot.loops[0].active);
    assert!(!snapshot.loops[1].active);
    assert!(snapshot.loops[2].active);
}

#[test]
fn scenario_unknown_command_code_changes_nothing() {
    let (mut engine, commands, states) = make_engine();
    commands.push(Command::looper_command(0, LooperCommandType::EnableReady));
    engine.process(&no_midi(), &silent_block(2), &silent_block(2));
    let _ = states.pop();
    commands.push(Command {
        command_oneof: Some(CommandOneof::LooperCommand(LooperCommand {
            loopers: vec![0],
            command_type: 99,
        })),
    });
    engine.process(&no_midi(), &silent_block(2), &silent_block(2));
    let snapshot = states.pop().expect("one snapshot per block");
    assert_eq!(snapshot.loops[0].record_mode, 1); // still Ready
    assert_eq!(snapshot.loops[0].play_mode, 0); // still Paused
    assert!(snapshot.loops[0].active);
}

#[test]
fn unknown_target_id_and_empty_command_are_ignored() {
    let (mut engine, commands, states) = make_engine();
    commands.push(Command::looper_command(77, LooperCommandType::EnablePlay));
    commands.push(Command { command_oneof: None });
    engine.process(&no_midi(), &silent_block(2), &silent_block(2));
    assert_eq!(engine.looper_count(), 1);
    let snapshot = states.pop().expect("one snapshot per block");
    assert_eq!(snapshot.loops[0].play_mode, 0);
}

#[test]
fn command_targets_only_its_looper() {
    let (mut engine, commands, states) = make_engine();
    commands.push(Command::global_command(GlobalCommandType::AddLooper));
    engine.process(&no_midi(), &silent_block(1), &silent_block(1));
    let _ = states.pop();
    // Target looper 0 alone; looper 1 must keep all its fields.
    commands.push(Command::looper_command(0, LooperCommandType::EnableReady));
    commands.push(Command::looper_command(0, LooperCommandType::EnablePlay));
    engine.process(&no_midi(), &silent_block(1), &silent_block(1));
    let snapshot = states.pop().expect("one snapshot per block");
    assert_eq!(snapshot.loops[0].record_mode, 1);
    assert_eq!(snapshot.loops[0].play_mode, 1);
    assert_eq!(snapshot.loops[1].record_mode, 0);
    assert_eq!(snapshot.loops[1].play_mode, 0);
}

#[test]
fn time_advances_by_block_length_every_block() {
    let (mut engine, commands, _states) = make_engine();
    engine.process(&no_midi(), &silent_block(128), &silent_block(128));
    assert_eq!(engine.time(), 128);
    engine.process(&no_midi(), &silent_block(64), &silent_block(64));
    assert_eq!(engine.time(), 192);
    commands.push(Command::global_command(GlobalCommandType::ResetTime));
    engine.process(&no_midi(), &silent_block(32), &silent_block(32));
    assert_eq!(engine.time(), 32); // reset to exactly 0, then one block
}

#[test]
fn hot_blocks_while_recording_append_instead_of_clearing() {
    let (mut engine, commands, _states) = make_engine();
    commands.push(Command::looper_command(0, LooperCommandType::EnableReady));
    let first = vec![400_000i64, 1];
    engine.process(&no_midi(), &first, &silent_block(2));
    let second = vec![900_000i64, 2];
    engine.process(&no_midi(), &second, &silent_block(2));
    // Layer 0 holds both blocks in order: nothing was cleared by the second
    // hot block.
    assert_eq!(engine.layer_sample(0, 0, 0, true), Some(400_000));
    assert_eq!(engine.layer_sample(0, 0, 1, true), Some(1));
    assert_eq!(engine.layer_sample(0, 0, 2, true), Some(900_000));
    assert_eq!(engine.layer_sample(0, 0, 3, true), Some(2));
    assert_eq!(engine.layer_sample(0, 0, 4, true), None);
}

#[test]
fn empty_looper_is_silent_even_when_playing() {
    let (mut engine, commands, _states) = make_engine();
    commands.push(Command::looper_command(0, LooperCommandType::EnablePlay));
    let in_l = vec![7i64, -9, 11];
    let in_r = vec![1i64, 2, 3];
    let (out_l, out_r) = engine.process(&no_midi(), &in_l, &in_r);
    assert_eq!(out_l, in_l);
    assert_eq!(out_r, in_r);
}

#[test]
fn zero_length_overdub_layer_is_silent_not_a_fault() {
    let (mut engine, commands, states) = make_engine();
    // An overdub entry pushes a fresh, empty layer; playing it must be
    // silence, never a division fault on the modulo.
    commands.push(Command::looper_command(0, LooperCommandType::EnableOverdub));
    commands.push(Command::looper_command(0, LooperCommandType::EnablePlay));
    let in_l = vec![5i64, 6];
    let (out_l, _out_r) = engine.process(&no_midi(), &in_l, &silent_block(2));
    assert_eq!(out_l, in_l);
    let snapshot = states.pop().expect("one snapshot per block");
    assert_eq!(snapshot.loops[0].record_mode, 3); // Overdub
}

#[test]
fn overdub_command_from_midi_on_playing_looper() {
    let (mut engine, commands, states) = make_engine();
    // Record, then play, as usual.
    commands.push(Command::looper_command(0, LooperCommandType::EnableReady));
    engine.process(&no_midi(), &vec![300_000i64, 0], &silent_block(2));
    commands.push(Command::looper_command(0, LooperCommandType::DisableRecord));
    commands.push(Command::looper_command(0, LooperCommandType::EnablePlay));
    engine.process(&no_midi(), &silent_block(2), &silent_block(2));
    let _ = states.pop();
    let _ = states.pop();
    // Note 60 on a playing, non-empty looper asks for an overdub.
    let midi = vec![vec![144u8, 60, 101]];
    engine.process(&midi, &silent_block(2), &silent_block(2));
    let snapshot = states.pop().expect("one snapshot per block");
    assert_eq!(snapshot.loops[0].record_mode, 3); // Overdub
}

#[test]
fn midi_note_60_arms_an_empty_looper_within_the_same_block() {
    let (mut engine, _commands, states) = make_engine();
    // The command decoded from this block's MIDI affects this same block:
    // the looper is armed, and the hot input is recorded at once.
    let midi = vec![vec![144u8, 60, 101]];
    let in_l = vec![777_000i64, 3];
    engine.process(&midi, &in_l, &silent_block(2));
    assert_eq!(engine.layer_sample(0, 0, 0, true), Some(777_000));
    let snapshot = states.pop().expect("one snapshot per block");
    assert_eq!(snapshot.loops[0].record_mode, 2); // Record
}

#[test]
fn midi_note_62_stops_recording_starts_playback_and_resets_time() {
    let (mut engine, commands, states) = make_engine();
    commands.push(Command::looper_command(0, LooperCommandType::EnableReady));
    engine.process(&no_midi(), &vec![500_000i64, 8], &silent_block(2));
    let _ = states.pop();
    let midi = vec![vec![144u8, 62, 99]];
    let (out_l, _out_r) = engine.process(&midi, &silent_block(2), &silent_block(2));
    // Playback starts in the very block that carried the note.
    assert_eq!(out_l, vec![500_000i64, 8]);
    assert_eq!(engine.time(), 2);
    let snapshot = states.pop().expect("one snapshot per block");
    assert_eq!(snapshot.loops[0].record_mode, 0); // Off
    assert_eq!(snapshot.loops[0].play_mode, 1); // Playing
}

#[test]
fn midi_note_64_adds_a_looper() {
    let (mut engine, _commands, _states) = make_engine();
    let midi = vec![vec![144u8, 64, 1]];
    engine.process(&midi, &silent_block(1), &silent_block(1));
    assert_eq!(engine.looper_count(), 2);
    assert_eq!(engine.active_id(), 1);
}

#[test]
fn other_midi_events_are_ignored() {
    let (mut engine, _commands, states) = make_engine();
    let midi = vec![
        vec![128u8, 60, 1],     // note-off status
        vec![144u8, 61, 1],     // unmapped note
        vec![144u8, 60],        // too short
        vec![144u8, 60, 1, 2],  // too long
        vec![],                 // empty
    ];
    engine.process(&midi, &silent_block(1), &silent_block(1));
    let snapshot = states.pop().expect("one snapshot per block");
    assert_eq!(snapshot.loops.len(), 1);
    assert_eq!(snapshot.loops[0].record_mode, 0);
    assert_eq!(snapshot.loops[0].play_mode, 0);
}

#[test]
fn select_changes_the_active_looper() {
    let (mut engine, commands, _states) = make_engine();
    commands.push(Command::global_command(GlobalCommandType::AddLooper));
    engine.process(&no_midi(), &silent_block(1), &silent_block(1));
    assert_eq!(engine.active_id(), 1);
    commands.push(Command::looper_command(0, LooperCommandType::Select));
    engine.process(&no_midi(), &silent_block(1), &silent_block(1));
    assert_eq!(engine.active_id(), 0);
    // Selecting a missing looper is ignored.
    commands.push(Command::looper_command(55, LooperCommandType::Select));
    engine.process(&no_midi(), &silent_block(1), &silent_block(1));
    assert_eq!(engine.active_id(), 0);
}

#[test]
fn snapshot_reports_length_and_offset_in_truncated_milliseconds() {
    let (mut engine, commands, states) = make_engine();
    // Record an 882-sample loop (20 ms at 44100 Hz) in one block.
    commands.push(Command::looper_command(0, LooperCommandType::EnableReady));
    let mut hot = silent_block(882);
    hot[0] = 500_000;
    engine.process(&no_midi(), &hot, &silent_block(882));
    let _ = states.pop();
    commands.push(Command::looper_command(0, LooperCommandType::DisableRecord));
    commands.push(Command::looper_command(0, LooperCommandType::EnablePlay));
    commands.push(Command::global_command(GlobalCommandType::ResetTime));
    engine.process(&no_midi(), &silent_block(441), &silent_block(441));
    let snapshot = states.pop().expect("one snapshot per block");
    assert_eq!(snapshot.loops[0].length, 20); // 882 samples
    assert_eq!(snapshot.loops[0].time, 10); // offset 441 of 882
}

#[test]
fn snapshot_offset_is_zero_when_paused_or_empty() {
    let (mut engine, commands, states) = make_engine();
    commands.push(Command::looper_command(0, LooperCommandType::EnableReady));
    let mut hot = silent_block(441);
    hot[0] = 500_000;
    engine.process(&no_midi(), &hot, &silent_block(441));
    let _ = states.pop();
    commands.push(Command::looper_command(0, LooperCommandType::DisableRecord));
    // Still paused: offset must be 0 even though layer 0 has samples.
    engine.process(&no_midi(), &silent_block(100), &silent_block(100));
    let snapshot = states.pop().expect("one snapshot per block");
    assert_eq!(snapshot.loops[0].length, 10); // 441 samples = 10 ms
    assert_eq!(snapshot.loops[0].time, 0);
}
