//! Translation of raw MIDI events into commands, run once per block on the
//! audio thread. Only 3-byte note-on messages (status byte 144) are
//! recognized; everything else is ignored. The mapping is evaluated against
//! the active looper's state as it stood when the block began.

use vstd::prelude::*;

use crate::types::Command;
use crate::types::CommandView;
use crate::types::GlobalCommandType;
use crate::types::LooperCommandType;

verus! {

/// The commands one raw MIDI event produces, given the id of the active
/// looper, whether it has no layers, and whether it is paused:
/// - note 60 arms recording (`EnableReady`) on an empty or paused looper,
///   and otherwise starts an overdub;
/// - note 62 stops recording, toggles playback, and resets the clock;
/// - note 64 adds a looper.
pub open spec fn spec_event_commands(
    id: u32,
    layers_empty: bool,
    paused: bool,
    bytes: Seq<u8>,
) -> Seq<CommandView> {
    if bytes.len() == 3 && bytes[0] == 144 {
        if bytes[1] == 60 {
            if layers_empty || paused {
                seq![
                    CommandView::Loopers {
                        targets: seq![id],
                        code: LooperCommandType::EnableReady.spec_code(),
                    },
                ]
            } else {
                seq![
                    CommandView::Loopers {
                        targets: seq![id],
                        code: LooperCommandType::EnableOverdub.spec_code(),
                    },
                ]
            }
        } else if bytes[1] == 62 {
            seq![
                CommandView::Loopers {
                    targets: seq![id],
                    code: LooperCommandType::DisableRecord.spec_code(),
                },
                CommandView::Loopers {
                    targets: seq![id],
                    code: if paused {
                        LooperCommandType::EnablePlay.spec_code()
                    } else {
                        LooperCommandType::DisablePlay.spec_code()
                    },
                },
                CommandView::Global { code: GlobalCommandType::ResetTime.spec_code() },
            ]
        } else if bytes[1] == 64 {
            seq![CommandView::Global { code: GlobalCommandType::AddLooper.spec_code() }]
        } else {
            Seq::empty()
        }
    } else {
        Seq::empty()
    }
}

/// The commands a whole block of MIDI events produces, event by event in
/// arrival order.
pub open spec fn spec_midi_commands(
    id: u32,
    layers_empty: bool,
    paused: bool,
    events: Seq<Seq<u8>>,
) -> Seq<CommandView>
    decreases events.len(),
{
    if events.len() == 0 {
        Seq::empty()
    } else {
        spec_event_commands(id, layers_empty, paused, events[0]) + spec_midi_commands(
            id,
            layers_empty,
            paused,
            events.drop_first(),
        )
    }
}

/// Extending the event list by one event appends its commands.
pub proof fn lemma_midi_commands_push(
    id: u32,
    layers_empty: bool,
    paused: bool,
    events: Seq<Seq<u8>>,
    e: Seq<u8>,
)
    ensures
        spec_midi_commands(id, layers_empty, paused, events.push(e)) == spec_midi_commands(
            id,
            layers_empty,
            paused,
            events,
        ) + spec_event_commands(id, layers_empty, paused, e),
    decreases events.len(),
{
    let s = events.push(e);
    if events.len() == 0 {
        assert(s.drop_first() =~= Seq::<Seq<u8>>::empty());
        assert(s[0] == e);
        assert(spec_midi_commands(id, layers_empty, paused, s.drop_first()) == Seq::<
            CommandView,
        >::empty());
        assert(spec_midi_commands(id, layers_empty, paused, s) == spec_event_commands(
            id,
            layers_empty,
            paused,
            e,
        ) + spec_midi_commands(id, layers_empty, paused, s.drop_first()));
        assert(spec_midi_commands(id, layers_empty, paused, events) == Seq::<CommandView>::empty());
        assert(spec_event_commands(id, layers_empty, paused, e) + Seq::<CommandView>::empty()
            =~= Seq::<CommandView>::empty() + spec_event_commands(id, layers_empty, paused, e));
    } else {
        assert(s.drop_first() =~= events.drop_first().push(e));
        assert(s[0] == events[0]);
        lemma_midi_commands_push(id, layers_empty, paused, events.drop_first(), e);
        assert(spec_midi_commands(id, layers_empty, paused, s) == spec_event_commands(
            id,
            layers_empty,
            paused,
            events[0],
        ) + spec_midi_commands(id, layers_empty, paused, s.drop_first()));
        assert(spec_midi_commands(id, layers_empty, paused, events) == spec_event_commands(
            id,
            layers_empty,
            paused,
            events[0],
        ) + spec_midi_commands(id, layers_empty, paused, events.drop_first()));
        assert(spec_event_commands(id, layers_empty, paused, events[0]) + (spec_midi_commands(
            id,
            layers_empty,
            paused,
            events.drop_first(),
        ) + spec_event_commands(id, layers_empty, paused, e)) =~= (spec_event_commands(
            id,
            layers_empty,
            paused,
            events[0],
        ) + spec_midi_commands(id, layers_empty, paused, events.drop_first()))
            + spec_event_commands(id, layers_empty, paused, e));
    }
}

/// Translate a block of raw MIDI events into the commands they stand for.
pub fn midi_commands(
    active_id: u32,
    layers_empty: bool,
    paused: bool,
    events: &Vec<Vec<u8>>,
) -> (cmds: Vec<Command>)
    ensures
        cmds.deep_view() == spec_midi_commands(active_id, layers_empty, paused, events.deep_view()),
{
    let mut cmds: Vec<Command> = Vec::new();
    proof {
        assert(cmds.deep_view() =~= Seq::<CommandView>::empty());
        assert(events.deep_view().take(0) =~= Seq::<Seq<u8>>::empty());
    }
    let n = events.len();
    let mut k: usize = 0;
    while k < n
        invariant
            n == events@.len(),
            k <= n,
            cmds.deep_view() == spec_midi_commands(
                active_id,
                layers_empty,
                paused,
                events.deep_view().take(k as int),
            ),
        decreases n - k,
    {
        let ghost before = cmds.deep_view();
        let e = &events[k];
        proof {
            assert(events.deep_view()[k as int] == events@[k as int]@);
        }
        if e.len() == 3 && e[0] == 144 {
            if e[1] == 60 {
                if layers_empty || paused {
                    cmds.push(Command::looper_command(active_id, LooperCommandType::EnableReady));
                } else {
                    cmds.push(Command::looper_command(active_id, LooperCommandType::EnableOverdub));
                }
            } else if e[1] == 62 {
                cmds.push(Command::looper_command(active_id, LooperCommandType::DisableRecord));
                if paused {
                    cmds.push(Command::looper_command(active_id, LooperCommandType::EnablePlay));
                } else {
                    cmds.push(Command::looper_command(active_id, LooperCommandType::DisablePlay));
                }
                cmds.push(Command::global_command(GlobalCommandType::ResetTime));
            } else if e[1] == 64 {
                cmds.push(Command::global_command(GlobalCommandType::AddLooper));
            }
        }
        proof {
            assert(cmds.deep_view() =~= before + spec_event_commands(
                active_id,
                layers_empty,
                paused,
                events.deep_view()[k as int],
            ));
            assert(events.deep_view().take(k + 1 as int) =~= events.deep_view().take(
                k as int,
            ).push(events.deep_view()[k as int]));
            lemma_midi_commands_push(
                active_id,
                layers_empty,
                paused,
                events.deep_view().take(k as int),
                events.deep_view()[k as int],
            );
        }
        k = k + 1;
    }
    proof {
        assert(events.deep_view().take(n as int) =~= events.deep_view());
    }
    cmds
}

} // verus!
