//! The engine: owner of all loopers and the global sample clock, driven once
//! per audio block. It drains pending commands, mixes playback audio, arms
//! and records the active looper, advances the clock and publishes a state
//! snapshot.

use vstd::prelude::*;

use crate::channel::CommandQueue;
use crate::channel::StateQueue;
use crate::midi::midi_commands;
use crate::mix::max_abs;
use crate::mix::mix_channel;
use crate::mix::samples_to_time;
use crate::model::spec_apply_command;
use crate::model::spec_apply_commands;
use crate::model::spec_apply_global;
use crate::model::spec_apply_looper_one;
use crate::model::spec_apply_targets;
use crate::model::spec_apply_to_looper;
use crate::model::spec_arm;
use crate::model::spec_arm_looper;
use crate::model::spec_find_looper;
use crate::model::spec_input_hot;
use crate::model::spec_layer_sample_at;
use crate::model::spec_loop_state;
use crate::model::spec_mix_block;
use crate::model::spec_record;
use crate::model::spec_record_looper;
use crate::model::spec_run_block;
use crate::model::spec_snapshot;
use crate::model::lemma_apply_commands_push;
use crate::model::lemma_apply_commands_time_le;
use crate::model::lemma_apply_targets_push;
use crate::model::lemma_find_looper_first;
use crate::model::lemma_find_looper_props;
use crate::model::EngineView;
use crate::types::Command;
use crate::types::CommandOneof;
use crate::types::CommandView;
use crate::types::GlobalCommandType;
use crate::types::LayerView;
use crate::types::LoopBufferLayer;
use crate::types::Looper;
use crate::types::LooperCommandType;
use crate::types::LooperView;
use crate::types::LoopState;
use crate::types::PlayMode;
use crate::types::RecordMode;
use crate::types::State;
use crate::THRESHOLD;

verus! {

/// The audio engine. All mutation happens on the audio thread, through the
/// per-block entry point; the two queues are its only links to other threads.
pub struct Engine {
    gui_output: StateQueue,
    gui_input: CommandQueue,
    time: usize,
    loopers: Vec<Looper>,
    active: u32,
    id_counter: u32,
}

impl View for Engine {
    type V = EngineView;

    closed spec fn view(&self) -> EngineView {
        EngineView {
            time: self.time as nat,
            loopers: self.loopers@.map_values(|l: Looper| l@),
            active: self.active,
            id_counter: self.id_counter,
        }
    }
}

/// What one recognized looper-targeted command type does to one looper.
/// `Select` is handled by the engine, not here, and leaves the looper as is.
fn apply_type_to_looper(l: &mut Looper, typ: LooperCommandType)
    ensures
        final(l)@ == spec_apply_to_looper(old(l)@, typ),
{
    match typ {
        LooperCommandType::EnableReady => {
            l.record_mode = RecordMode::Ready;
        },
        LooperCommandType::EnableRecord => {
            l.record_mode = RecordMode::Record;
        },
        LooperCommandType::DisableRecord => {
            l.record_mode = RecordMode::Off;
        },
        LooperCommandType::EnableOverdub => {
            l.record_mode = RecordMode::Overdub;
            l.layers.push(LoopBufferLayer { left: Vec::new(), right: Vec::new() });
            proof {
                assert(l@.layers =~= old(l)@.layers.push(LayerView::empty()));
            }
        },
        LooperCommandType::DisableOverdub => {
            l.record_mode = RecordMode::Off;
        },
        LooperCommandType::EnableMultiply => {},
        LooperCommandType::DisableMultiply => {},
        LooperCommandType::EnablePlay => {
            l.play_mode = PlayMode::Playing;
        },
        LooperCommandType::DisablePlay => {
            l.play_mode = PlayMode::Paused;
        },
        LooperCommandType::Select => {},
        LooperCommandType::Delete => {},
    }
    proof {
        assert(l@ =~= spec_apply_to_looper(old(l)@, typ));
    }
}

/// The auto-arm trigger on one looper: clear its layers and start recording.
fn clear_for_record(l: &mut Looper)
    ensures
        final(l)@ == spec_arm_looper(old(l)@),
{
    l.layers.clear();
    l.set_record_mode(RecordMode::Record);
    proof {
        assert(l@.layers =~= Seq::<LayerView>::empty());
        assert(l@ =~= spec_arm_looper(old(l)@));
    }
}

/// Record one block into a looper: append the raw input to layer 0, creating
/// it first if the looper has no layers yet.
fn record_into(l: &mut Looper, in_l: &Vec<i64>, in_r: &Vec<i64>)
    ensures
        final(l)@ == spec_record_looper(old(l)@, in_l@, in_r@),
{
    if l.layers.len() == 0 {
        l.layers.push(LoopBufferLayer { left: Vec::new(), right: Vec::new() });
    }
    let ghost layers0 = l@.layers;
    proof {
        if old(l)@.layers.len() == 0 {
            assert(layers0 =~= seq![LayerView::empty()]);
        } else {
            assert(layers0 =~= old(l)@.layers);
        }
    }
    let mut layer0 = l.layers.remove(0);
    let ghost left0 = layer0.left@;
    let ghost right0 = layer0.right@;
    let n = in_l.len();
    let mut k: usize = 0;
    while k < n
        invariant
            n == in_l@.len(),
            k <= n,
            layer0.left@ =~= left0 + in_l@.take(k as int),
            layer0.right@ == right0,
        decreases n - k,
    {
        layer0.left.push(in_l[k]);
        proof {
            assert(in_l@.take(k + 1 as int) =~= in_l@.take(k as int).push(in_l@[k as int]));
            assert(left0 + in_l@.take(k + 1 as int) =~= (left0 + in_l@.take(k as int)).push(
                in_l@[k as int],
            ));
        }
        k = k + 1;
    }
    let m = in_r.len();
    let mut j: usize = 0;
    while j < m
        invariant
            m == in_r@.len(),
            j <= m,
            layer0.left@ =~= left0 + in_l@.take(in_l@.len() as int),
            layer0.right@ =~= right0 + in_r@.take(j as int),
        decreases m - j,
    {
        layer0.right.push(in_r[j]);
        proof {
            assert(in_r@.take(j + 1 as int) =~= in_r@.take(j as int).push(in_r@[j as int]));
            assert(right0 + in_r@.take(j + 1 as int) =~= (right0 + in_r@.take(j as int)).push(
                in_r@[j as int],
            ));
        }
        j = j + 1;
    }
    proof {
        assert(in_l@.take(in_l@.len() as int) =~= in_l@);
        assert(in_r@.take(in_r@.len() as int) =~= in_r@);
        assert(layer0@ =~= (LayerView { left: left0 + in_l@, right: right0 + in_r@ }));
    }
    l.layers.insert(0, layer0);
    proof {
        assert(l@.layers =~= layers0.update(
            0,
            LayerView { left: left0 + in_l@, right: right0 + in_r@ },
        ));
        assert(l@ =~= spec_record_looper(old(l)@, in_l@, in_r@));
    }
}

impl Engine {
    /// A fresh engine: clock at zero, one paused, silent looper with id 0,
    /// which is active, and ids assigned from 1 on. The engine publishes
    /// snapshots on `gui_output` and takes commands from `gui_input`.
    pub fn new(gui_output: StateQueue, gui_input: CommandQueue) -> (e: Engine)
        ensures
            e@ == EngineView::init(),
            e@.wf(),
    {
        let mut loopers: Vec<Looper> = Vec::new();
        loopers.push(Looper::new(0));
        let e = Engine { gui_output, gui_input, time: 0, loopers, active: 0, id_counter: 1 };
        proof {
            assert(e@.loopers =~= seq![LooperView::init(0)]);
            assert(e@ =~= EngineView::init());
            assert(e@.loopers[0].id == e@.active);
        }
        e
    }

    /// Index of the looper with the given id, if there is one.
    fn looper_index(&self, id: u32) -> (r: Option<usize>)
        ensures
            match r {
                Some(i) => spec_find_looper(self@.loopers, id) == Some(i as int),
                None => spec_find_looper(self@.loopers, id) is None,
            },
    {
        let n = self.loopers.len();
        let mut i: usize = 0;
        while i < n
            invariant
                n == self.loopers.len(),
                i <= n,
                forall|k: int| 0 <= k < i ==> (#[trigger] self@.loopers[k]).id != id,
            decreases n - i,
        {
            if self.loopers[i].id == id {
                proof {
                    lemma_find_looper_first(self@.loopers, id, i as int);
                }
                return Some(i);
            }
            i = i + 1;
        }
        proof {
            lemma_find_looper_props(self@.loopers, id);
        }
        None
    }

    /// Apply one command to the engine. A command without a payload, a
    /// target id without a looper, and an unrecognized command-type code
    /// are all ignored.
    pub fn apply_command(&mut self, c: &Command)
        ensures
            final(self)@ == spec_apply_command(old(self)@, c.deep_view()),
            old(self)@.wf() ==> final(self)@.wf(),
    {
        proof {
            if old(self)@.wf() {
                crate::laws::lemma_apply_command_preserves_wf(old(self)@, c.deep_view());
            }
        }
        match &c.command_oneof {
            Option::None => {},
            Option::Some(CommandOneof::LooperCommand(lc)) => {
                let ghost e0 = self@;
                let n = lc.loopers.len();
                let mut k: usize = 0;
                while k < n
                    invariant
                        n == lc.loopers@.len(),
                        k <= n,
                        self@ == spec_apply_targets(e0, lc.loopers@.take(k as int), lc.command_type),
                    decreases n - k,
                {
                    let ghost e_before = self@;
                    let target = lc.loopers[k];
                    self.apply_to_target(target, lc.command_type);
                    proof {
                        assert(lc.loopers@.take(k + 1 as int) =~= lc.loopers@.take(
                            k as int,
                        ).push(target));
                        lemma_apply_targets_push(
                            e0,
                            lc.loopers@.take(k as int),
                            target,
                            lc.command_type,
                        );
                    }
                    k = k + 1;
                }
                proof {
                    assert(lc.loopers@.take(n as int) =~= lc.loopers@);
                }
            },
            Option::Some(CommandOneof::GlobalCommand(gc)) => {
                if let Some(typ) = GlobalCommandType::from_code(gc.command) {
                    match typ {
                        GlobalCommandType::ResetTime => {
                            self.time = 0;
                            proof {
                                assert(self@ =~= spec_apply_global(old(self)@, gc.command));
                            }
                        },
                        GlobalCommandType::AddLooper => {
                            if self.id_counter < u32::MAX {
                                let id = self.id_counter;
                                self.loopers.push(Looper::new(id));
                                self.active = id;
                                self.id_counter = id + 1;
                                proof {
                                    assert(self@.loopers =~= old(self)@.loopers.push(
                                        LooperView::init(id),
                                    ));
                                    assert(self@ =~= spec_apply_global(old(self)@, gc.command));
                                }
                            }
                        },
                    }
                }
            },
        }
    }

    /// Drain the command channel and apply every command, in arrival order,
    /// until the channel reports empty. The drain is bounded so that the
    /// audio callback cannot spin forever against a producer that always
    /// wins the race to refill the queue.
    pub fn handle_commands(&mut self) -> (cmds: Ghost<Seq<CommandView>>)
        ensures
            final(self)@ == spec_apply_commands(old(self)@, cmds@),
            old(self)@.wf() ==> final(self)@.wf(),
    {
        let ghost e0 = self@;
        let mut applied: Ghost<Seq<CommandView>> = Ghost(Seq::empty());
        proof {
            assert(spec_apply_commands(e0, Seq::empty()) == e0);
        }
        let mut fuel: usize = usize::MAX;
        loop
            invariant
                self@ == spec_apply_commands(e0, applied@),
            decreases fuel,
        {
            if fuel == 0 {
                break ;
            }
            fuel = fuel - 1;
            match self.gui_input.pop() {
                Option::None => {
                    break ;
                },
                Option::Some(c) => {
                    proof {
                        lemma_apply_commands_push(e0, applied@, c.deep_view());
                    }
                    self.apply_command(&c);
                    applied = Ghost(applied@.push(c.deep_view()));
                },
            }
        }
        proof {
            if e0.wf() {
                crate::laws::lemma_apply_commands_preserves_wf(e0, applied@);
            }
        }
        applied
    }

    /// Translate this block's MIDI events against the active looper's
    /// current state and queue the resulting commands on the same channel
    /// the engine drains, so they take effect within the same block.
    pub fn commands_from_midi(&self, events: &Vec<Vec<u8>>) {
        if let Some(i) = self.looper_index(self.active) {
            proof {
                lemma_find_looper_props(self@.loopers, self.active);
            }
            let lp = &self.loopers[i];
            let layers_empty = lp.layers.len() == 0;
            let paused = lp.play_mode == PlayMode::Paused;
            let mut cmds = midi_commands(lp.id, layers_empty, paused, events);
            while cmds.len() > 0
                decreases cmds@.len(),
            {
                let c = cmds.remove(0);
                self.gui_input.push(c);
            }
        }
    }

    /// Build the state snapshot for the block just processed.
    fn snapshot(&self) -> (s: State)
        ensures
            s@ == spec_snapshot(self@),
    {
        let mut loops: Vec<LoopState> = Vec::new();
        let n = self.loopers.len();
        let mut i: usize = 0;
        while i < n
            invariant
                n == self.loopers@.len(),
                i <= n,
                loops@.len() == i,
                forall|k: int|
                    0 <= k < i ==> #[trigger] loops@[k] == spec_loop_state(
                        self@.loopers[k],
                        self@.time,
                        self@.active,
                    ),
            decreases n - i,
        {
            let lp = &self.loopers[i];
            let len: usize = if lp.layers.len() > 0 {
                lp.layers[0].left.len()
            } else {
                0
            };
            let t: usize = if len > 0 && lp.play_mode == PlayMode::Playing {
                self.time % len
            } else {
                0
            };
            let entry = LoopState {
                id: lp.id,
                record_mode: lp.record_mode.code(),
                play_mode: lp.play_mode.code(),
                time: samples_to_time(t) as i64,
                length: samples_to_time(len) as i64,
                active: lp.id == self.active,
            };
            proof {
                assert(entry == spec_loop_state(self@.loopers[i as int], self@.time, self@.active));
            }
            loops.push(entry);
            i = i + 1;
        }
        let s = State { loops };
        proof {
            assert(s@ =~= spec_snapshot(self@));
        }
        s
    }

    /// Process the audio of one block against the engine's present state:
    /// mix every playing looper over the live input, run the auto-arm
    /// trigger, record into the active looper, advance the clock, and build
    /// the snapshot describing the state the block left behind.
    pub fn run_block(&mut self, in_l: &Vec<i64>, in_r: &Vec<i64>) -> (r: (Vec<i64>, Vec<i64>, State))
        requires
            in_l@.len() == in_r@.len(),
            old(self)@.time + in_l@.len() <= usize::MAX,
        ensures
            final(self)@ == spec_run_block(old(self)@, in_l@, in_r@),
            r.0@ == spec_mix_block(old(self)@.loopers, old(self)@.time as int, in_l@, true),
            r.1@ == spec_mix_block(old(self)@.loopers, old(self)@.time as int, in_r@, false),
            r.2@ == spec_snapshot(final(self)@),
            old(self)@.wf() ==> final(self)@.wf(),
    {
        proof {
            if old(self)@.wf() {
                crate::laws::lemma_run_block_preserves_wf(old(self)@, in_l@, in_r@);
            }
        }
        let out_l = mix_channel(&self.loopers, self.time, in_l, true);
        let out_r = mix_channel(&self.loopers, self.time, in_r, false);
        let ghost e0 = self@;
        if let Some(i) = self.looper_index(self.active) {
            proof {
                lemma_find_looper_props(e0.loopers, e0.active);
            }
            if self.loopers[i].record_mode == RecordMode::Ready {
                let hot = max_abs(in_l) > THRESHOLD || max_abs(in_r) > THRESHOLD;
                if hot {
                    clear_for_record(&mut self.loopers[i]);
                    proof {
                        assert(spec_input_hot(in_l@, in_r@));
                        assert(self@.loopers =~= e0.loopers.update(
                            i as int,
                            spec_arm_looper(e0.loopers[i as int]),
                        ));
                        assert(self@ =~= spec_arm(e0, in_l@, in_r@));
                    }
                } else {
                    proof {
                        assert(!spec_input_hot(in_l@, in_r@));
                        assert(self@ =~= spec_arm(e0, in_l@, in_r@));
                    }
                }
            } else {
                proof {
                    assert(self@ =~= spec_arm(e0, in_l@, in_r@));
                }
            }
            let ghost e1 = spec_arm(e0, in_l@, in_r@);
            proof {
                assert forall|k: int| 0 <= k < e1.loopers.len() implies (#[trigger] e1.loopers[k]).id
                    == e0.loopers[k].id by {}
                lemma_find_looper_first(e1.loopers, e1.active, i as int);
            }
            if self.loopers[i].record_mode == RecordMode::Record {
                record_into(&mut self.loopers[i], in_l, in_r);
                proof {
                    assert(self@.loopers =~= e1.loopers.update(
                        i as int,
                        spec_record_looper(e1.loopers[i as int], in_l@, in_r@),
                    ));
                    assert(self@ =~= spec_record(e1, in_l@, in_r@));
                }
            } else {
                proof {
                    assert(self@ =~= spec_record(e1, in_l@, in_r@));
                }
            }
        } else {
            proof {
                assert(self@ =~= spec_arm(e0, in_l@, in_r@));
                assert(self@ =~= spec_record(spec_arm(e0, in_l@, in_r@), in_l@, in_r@));
            }
        }
        self.time = self.time + in_l.len();
        proof {
            assert(self@ =~= spec_run_block(e0, in_l@, in_r@));
        }
        let st = self.snapshot();
        (out_l, out_r, st)
    }

    /// The per-block entry point, called once per audio callback: translate
    /// this block's MIDI, drain and apply all pending commands, then process
    /// the block's audio and publish the snapshot. The returned pair is the
    /// block's left and right output.
    pub fn process(&mut self, midi_events: &Vec<Vec<u8>>, in_l: &Vec<i64>, in_r: &Vec<i64>) -> (out:
        (Vec<i64>, Vec<i64>))
        requires
            in_l@.len() == in_r@.len(),
            old(self)@.time + in_l@.len() <= usize::MAX,
        ensures
            exists|cmds: Seq<CommandView>|
                #![trigger spec_apply_commands(old(self)@, cmds)]
                {
                    let e1 = spec_apply_commands(old(self)@, cmds);
                    final(self)@ == spec_run_block(e1, in_l@, in_r@) && out.0@ == spec_mix_block(
                        e1.loopers,
                        e1.time as int,
                        in_l@,
                        true,
                    ) && out.1@ == spec_mix_block(e1.loopers, e1.time as int, in_r@, false)
                },
            old(self)@.wf() ==> final(self)@.wf(),
    {
        self.commands_from_midi(midi_events);
        let cmds = self.handle_commands();
        proof {
            lemma_apply_commands_time_le(old(self)@, cmds@);
        }
        let (out_l, out_r, st) = self.run_block(in_l, in_r);
        self.gui_output.push(st);
        proof {
            let e1 = spec_apply_commands(old(self)@, cmds@);
            assert(final(self)@ == spec_run_block(e1, in_l@, in_r@) && out_l@ == spec_mix_block(
                e1.loopers,
                e1.time as int,
                in_l@,
                true,
            ) && out_r@ == spec_mix_block(e1.loopers, e1.time as int, in_r@, false));
        }
        (out_l, out_r)
    }

    /// The global sample clock.
    pub fn time(&self) -> (t: usize)
        ensures
            t as nat == self@.time,
    {
        self.time
    }

    /// The id of the looper control input currently targets.
    pub fn active_id(&self) -> (id: u32)
        ensures
            id == self@.active,
    {
        self.active
    }

    /// How many loopers the engine owns.
    pub fn looper_count(&self) -> (n: usize)
        ensures
            n as int == self@.loopers.len(),
    {
        self.loopers.len()
    }

    /// One recorded sample: of the looper with the given id, in the given
    /// layer, at the given offset, on the left or right channel. `None` when
    /// id, layer or offset do not name a sample.
    pub fn layer_sample(&self, id: u32, layer: usize, index: usize, left: bool) -> (r: Option<i64>)
        ensures
            r == spec_layer_sample_at(self@, id, layer as int, index as int, left),
    {
        let i = match self.looper_index(id) {
            Option::Some(i) => i,
            Option::None => {
                return None;
            },
        };
        proof {
            lemma_find_looper_props(self@.loopers, id);
        }
        let lp = &self.loopers[i];
        if layer >= lp.layers.len() {
            return None;
        }
        let ch = if left {
            &lp.layers[layer].left
        } else {
            &lp.layers[layer].right
        };
        if index >= ch.len() {
            return None;
        }
        Some(ch[index])
    }

    /// Apply one recognized or unrecognized command type to one target id.
    fn apply_to_target(&mut self, target: u32, code: i32)
        ensures
            final(self)@ == spec_apply_looper_one(old(self)@, target, code),
    {
        let idx = self.looper_index(target);
        if let Some(i) = idx {
            proof {
                lemma_find_looper_props(self@.loopers, target);
            }
            if let Some(typ) = LooperCommandType::from_code(code) {
                match typ {
                    LooperCommandType::Select => {
                        self.active = target;
                        proof {
                            assert(self@ =~= spec_apply_looper_one(old(self)@, target, code));
                        }
                    },
                    _ => {
                        apply_type_to_looper(&mut self.loopers[i], typ);
                        proof {
                            assert(self@.loopers =~= old(self)@.loopers.update(
                                i as int,
                                spec_apply_to_looper(old(self)@.loopers[i as int], typ),
                            ));
                            assert(self@ =~= spec_apply_looper_one(old(self)@, target, code));
                        }
                    },
                }
            }
        }
    }
}

} // verus!
