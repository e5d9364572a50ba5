//! Mathematical model of the engine: how a block of commands transforms the
//! engine state, and what one processed audio block computes. Every public
//! contract of [`crate::engine::Engine`] is stated over these functions.

use vstd::prelude::*;

use crate::types::CommandView;
use crate::types::GlobalCommandType;
use crate::types::LayerView;
use crate::types::LoopState;
use crate::types::LooperCommandType;
use crate::types::LooperView;
use crate::types::PlayMode;
use crate::types::RecordMode;
use crate::THRESHOLD;
use crate::SAMPLE_RATE;

verus! {

/// Abstract state of the engine: the global sample clock, all loopers in
/// creation order, the id of the control-targeted looper, and the next id to
/// assign.
#[verifier::ext_equal]
pub ghost struct EngineView {
    pub time: nat,
    pub loopers: Seq<LooperView>,
    pub active: u32,
    pub id_counter: u32,
}

impl EngineView {
    /// A freshly constructed engine: time zero, the single looper with id 0,
    /// which is also the active one, and ids assigned from 1 on.
    pub open spec fn init() -> EngineView {
        EngineView { time: 0, loopers: seq![LooperView::init(0)], active: 0, id_counter: 1 }
    }

    /// Well-formedness: every layer holds equally long channels, looper ids
    /// are distinct and below the id counter, and the active id names an
    /// existing looper.
    pub open spec fn wf(self) -> bool {
        &&& forall|i: int| 0 <= i < self.loopers.len() ==> (#[trigger] self.loopers[i]).wf()
        &&& forall|i: int, j: int|
            0 <= i < self.loopers.len() && 0 <= j < self.loopers.len() && i != j
                ==> (#[trigger] self.loopers[i]).id != (#[trigger] self.loopers[j]).id
        &&& exists|i: int| 0 <= i < self.loopers.len() && (#[trigger] self.loopers[i]).id == self.active
        &&& forall|i: int| 0 <= i < self.loopers.len() ==> (#[trigger] self.loopers[i]).id < self.id_counter
    }
}

/// Index of the first looper with the given id, if any.
pub open spec fn spec_find_looper(loopers: Seq<LooperView>, id: u32) -> Option<int>
    decreases loopers.len(),
{
    if loopers.len() == 0 {
        None
    } else if loopers[0].id == id {
        Some(0)
    } else {
        match spec_find_looper(loopers.drop_first(), id) {
            None => None,
            Some(i) => Some(i + 1),
        }
    }
}

/// What one looper-targeted command type does to the looper it reaches.
/// `EnableMultiply`, `DisableMultiply` and `Delete` are declared extension
/// points and leave the looper unchanged.
pub open spec fn spec_apply_to_looper(l: LooperView, typ: LooperCommandType) -> LooperView {
    match typ {
        LooperCommandType::EnableReady => LooperView { record_mode: RecordMode::Ready, ..l },
        LooperCommandType::EnableRecord => LooperView { record_mode: RecordMode::Record, ..l },
        LooperCommandType::DisableRecord => LooperView { record_mode: RecordMode::Off, ..l },
        LooperCommandType::EnableOverdub => LooperView {
            record_mode: RecordMode::Overdub,
            layers: l.layers.push(LayerView::empty()),
            ..l
        },
        LooperCommandType::DisableOverdub => LooperView { record_mode: RecordMode::Off, ..l },
        LooperCommandType::EnableMultiply => l,
        LooperCommandType::DisableMultiply => l,
        LooperCommandType::EnablePlay => LooperView { play_mode: PlayMode::Playing, ..l },
        LooperCommandType::DisablePlay => LooperView { play_mode: PlayMode::Paused, ..l },
        LooperCommandType::Select => l,
        LooperCommandType::Delete => l,
    }
}

/// One target id of a looper command: an unknown id or an unrecognized code
/// leaves the engine unchanged; `Select` retargets `active`; every other
/// recognized type rewrites the targeted looper alone.
pub open spec fn spec_apply_looper_one(e: EngineView, target: u32, code: i32) -> EngineView {
    match spec_find_looper(e.loopers, target) {
        None => e,
        Some(i) => match LooperCommandType::spec_from_code(code) {
            None => e,
            Some(LooperCommandType::Select) => EngineView { active: target, ..e },
            Some(typ) => EngineView {
                loopers: e.loopers.update(i, spec_apply_to_looper(e.loopers[i], typ)),
                ..e
            },
        },
    }
}

/// A looper command applies to each listed target in order.
pub open spec fn spec_apply_targets(e: EngineView, targets: Seq<u32>, code: i32) -> EngineView
    decreases targets.len(),
{
    if targets.len() == 0 {
        e
    } else {
        spec_apply_targets(spec_apply_looper_one(e, targets[0], code), targets.drop_first(), code)
    }
}

/// A global command: `ResetTime` sets the clock to zero; `AddLooper` creates
/// a looper under the next id, makes it active and advances the id counter.
/// An unrecognized code leaves the engine unchanged, as does `AddLooper`
/// once the id space is exhausted.
pub open spec fn spec_apply_global(e: EngineView, code: i32) -> EngineView {
    match GlobalCommandType::spec_from_code(code) {
        None => e,
        Some(GlobalCommandType::ResetTime) => EngineView { time: 0, ..e },
        Some(GlobalCommandType::AddLooper) => {
            if e.id_counter < u32::MAX {
                EngineView {
                    loopers: e.loopers.push(LooperView::init(e.id_counter)),
                    active: e.id_counter,
                    id_counter: (e.id_counter + 1) as u32,
                    ..e
                }
            } else {
                e
            }
        },
    }
}

/// What one command does to the engine.
pub open spec fn spec_apply_command(e: EngineView, c: CommandView) -> EngineView {
    match c {
        CommandView::NoOp => e,
        CommandView::Loopers { targets, code } => spec_apply_targets(e, targets, code),
        CommandView::Global { code } => spec_apply_global(e, code),
    }
}

/// A sequence of commands applies front to back.
pub open spec fn spec_apply_commands(e: EngineView, cs: Seq<CommandView>) -> EngineView
    decreases cs.len(),
{
    if cs.len() == 0 {
        e
    } else {
        spec_apply_commands(spec_apply_command(e, cs[0]), cs.drop_first())
    }
}

/// Absolute value of a sample.
pub open spec fn spec_abs(v: i64) -> int {
    if v < 0 {
        -(v as int)
    } else {
        v as int
    }
}

/// Peak absolute amplitude over a block; zero for an empty block.
pub open spec fn spec_peak(s: Seq<i64>) -> int
    decreases s.len(),
{
    if s.len() == 0 {
        0
    } else {
        let rest = spec_peak(s.drop_first());
        if spec_abs(s[0]) > rest {
            spec_abs(s[0])
        } else {
            rest
        }
    }
}

/// Addition of two samples, saturating at the bounds of the sample type.
pub open spec fn spec_sat_add(a: int, b: int) -> int {
    if a + b > i64::MAX {
        i64::MAX as int
    } else if a + b < i64::MIN {
        i64::MIN as int
    } else {
        a + b
    }
}

/// The sample one channel of a layer contributes at global time `t`: the
/// loop is read modulo the channel's length, and an empty channel is silent.
pub open spec fn spec_layer_sample(l: LayerView, left: bool, t: int) -> int {
    let s = if left {
        l.left
    } else {
        l.right
    };
    if s.len() == 0 {
        0
    } else {
        s[t % (s.len() as int)] as int
    }
}

/// One layer folded into an accumulated sample. A layer whose canonical
/// (left) channel is empty contributes silence on both channels.
pub open spec fn spec_layer_step(acc: int, l: LayerView, left: bool, t: int) -> int {
    if l.left.len() == 0 {
        acc
    } else {
        spec_sat_add(acc, spec_layer_sample(l, left, t))
    }
}

/// All layers of one looper folded, in overdub order, into an accumulated
/// sample.
pub open spec fn spec_mix_layers(layers: Seq<LayerView>, left: bool, t: int, acc: int) -> int
    decreases layers.len(),
{
    if layers.len() == 0 {
        acc
    } else {
        spec_mix_layers(layers.drop_first(), left, t, spec_layer_step(acc, layers[0], left, t))
    }
}

/// One looper folded into an accumulated sample: only a playing looper with
/// at least one layer contributes.
pub open spec fn spec_looper_step(acc: int, l: LooperView, left: bool, t: int) -> int {
    if l.play_mode == PlayMode::Playing && l.layers.len() > 0 {
        spec_mix_layers(l.layers, left, t, acc)
    } else {
        acc
    }
}

/// All loopers folded, in creation order, into an accumulated sample.
pub open spec fn spec_mix_loopers(loopers: Seq<LooperView>, left: bool, t: int, acc: int) -> int
    decreases loopers.len(),
{
    if loopers.len() == 0 {
        acc
    } else {
        spec_mix_loopers(
            loopers.drop_first(),
            left,
            t,
            spec_looper_step(acc, loopers[0], left, t),
        )
    }
}

/// One output channel of a processed block: each sample starts from the live
/// input and folds in every playing looper at the then-current global time.
pub open spec fn spec_mix_block(
    loopers: Seq<LooperView>,
    time: int,
    input: Seq<i64>,
    left: bool,
) -> Seq<i64> {
    Seq::new(input.len(), |i: int| spec_mix_loopers(loopers, left, time + i, input[i] as int) as i64)
}

/// Whether a block of input arms recording: its peak absolute amplitude on
/// either channel exceeds the threshold.
pub open spec fn spec_input_hot(in_l: Seq<i64>, in_r: Seq<i64>) -> bool {
    spec_peak(in_l) > THRESHOLD || spec_peak(in_r) > THRESHOLD
}

/// The looper-level effect of the auto-arm trigger: already recorded layers
/// are cleared and recording starts.
pub open spec fn spec_arm_looper(l: LooperView) -> LooperView {
    LooperView { layers: Seq::empty(), record_mode: RecordMode::Record, ..l }
}

/// The auto-arm step: if the active looper is armed (`Ready`) and the input
/// is above the threshold, its layers are cleared and recording starts.
pub open spec fn spec_arm(e: EngineView, in_l: Seq<i64>, in_r: Seq<i64>) -> EngineView {
    match spec_find_looper(e.loopers, e.active) {
        None => e,
        Some(i) => {
            if e.loopers[i].record_mode == RecordMode::Ready && spec_input_hot(in_l, in_r) {
                EngineView { loopers: e.loopers.update(i, spec_arm_looper(e.loopers[i])), ..e }
            } else {
                e
            }
        },
    }
}

/// The looper-level effect of recording one block: the raw input is appended
/// to layer 0, which is created first if absent.
pub open spec fn spec_record_looper(l: LooperView, in_l: Seq<i64>, in_r: Seq<i64>) -> LooperView {
    let layers = if l.layers.len() == 0 {
        seq![LayerView::empty()]
    } else {
        l.layers
    };
    let layer0 = LayerView { left: layers[0].left + in_l, right: layers[0].right + in_r };
    LooperView { layers: layers.update(0, layer0), ..l }
}

/// The record step: if the active looper is recording, the raw input block
/// is appended to its layer 0.
pub open spec fn spec_record(e: EngineView, in_l: Seq<i64>, in_r: Seq<i64>) -> EngineView {
    match spec_find_looper(e.loopers, e.active) {
        None => e,
        Some(i) => {
            if e.loopers[i].record_mode == RecordMode::Record {
                EngineView {
                    loopers: e.loopers.update(i, spec_record_looper(e.loopers[i], in_l, in_r)),
                    ..e
                }
            } else {
                e
            }
        },
    }
}

/// Everything one processed block does to the engine state, after commands
/// have been applied: auto-arm, record, then advance the clock by the block
/// length.
pub open spec fn spec_run_block(e: EngineView, in_l: Seq<i64>, in_r: Seq<i64>) -> EngineView {
    let e1 = spec_arm(e, in_l, in_r);
    let e2 = spec_record(e1, in_l, in_r);
    EngineView { time: e2.time + in_l.len(), ..e2 }
}

/// Milliseconds, truncated, of a sample count at the engine sample rate.
pub open spec fn spec_ms(samples: int) -> int {
    samples * 1000 / (SAMPLE_RATE as int)
}

/// The snapshot entry for one looper. The loop period is the length of
/// layer 0; the playback offset is the clock modulo that period while the
/// looper is playing, and zero otherwise.
pub open spec fn spec_loop_state(l: LooperView, time: nat, active: u32) -> LoopState {
    let len: int = if l.layers.len() > 0 {
        l.layers[0].left.len() as int
    } else {
        0
    };
    let t: int = if len > 0 && l.play_mode == PlayMode::Playing {
        (time as int) % len
    } else {
        0
    };
    LoopState {
        id: l.id,
        record_mode: l.record_mode.spec_code(),
        play_mode: l.play_mode.spec_code(),
        time: spec_ms(t) as i64,
        length: spec_ms(len) as i64,
        active: l.id == active,
    }
}

/// The snapshot published after a block: one entry per looper, in order.
pub open spec fn spec_snapshot(e: EngineView) -> Seq<LoopState> {
    Seq::new(e.loopers.len(), |i: int| spec_loop_state(e.loopers[i], e.time, e.active))
}

/// One recorded sample, named by looper id, layer, offset and channel;
/// `None` when they do not name a sample.
pub open spec fn spec_layer_sample_at(
    e: EngineView,
    id: u32,
    layer: int,
    index: int,
    left: bool,
) -> Option<i64> {
    match spec_find_looper(e.loopers, id) {
        None => None,
        Some(i) => {
            let lp = e.loopers[i];
            if 0 <= layer < lp.layers.len() {
                let s = if left {
                    lp.layers[layer].left
                } else {
                    lp.layers[layer].right
                };
                if 0 <= index < s.len() {
                    Some(s[index])
                } else {
                    None
                }
            } else {
                None
            }
        },
    }
}

/// What a successful or failed looper lookup says about the sequence: a hit
/// is the first index bearing the id, a miss means no index bears it.
pub proof fn lemma_find_looper_props(loopers: Seq<LooperView>, id: u32)
    ensures
        match spec_find_looper(loopers, id) {
            Some(i) => 0 <= i < loopers.len() && loopers[i].id == id && (forall|k: int|
                0 <= k < i ==> (#[trigger] loopers[k]).id != id),
            None => forall|k: int| 0 <= k < loopers.len() ==> (#[trigger] loopers[k]).id != id,
        },
    decreases loopers.len(),
{
    if loopers.len() == 0 {
    } else if loopers[0].id == id {
    } else {
        let rest = loopers.drop_first();
        lemma_find_looper_props(rest, id);
        match spec_find_looper(rest, id) {
            Some(j) => {
                assert(spec_find_looper(loopers, id) == Some(j + 1));
                assert(loopers[j + 1] == rest[j]);
                assert forall|k: int| 0 <= k < j + 1 implies (#[trigger] loopers[k]).id != id by {
                    if k > 0 {
                        assert(rest[k - 1].id != id);
                    }
                }
            },
            None => {
                assert(spec_find_looper(loopers, id) is None);
                assert forall|k: int| 0 <= k < loopers.len() implies (#[trigger] loopers[k]).id
                    != id by {
                    if k > 0 {
                        assert(rest[k - 1].id != id);
                    }
                }
            },
        }
    }
}

/// Conversely, the first index bearing the id is what the lookup returns.
pub proof fn lemma_find_looper_first(loopers: Seq<LooperView>, id: u32, i: int)
    requires
        0 <= i < loopers.len(),
        loopers[i].id == id,
        forall|k: int| 0 <= k < i ==> (#[trigger] loopers[k]).id != id,
    ensures
        spec_find_looper(loopers, id) == Some(i),
    decreases i,
{
    if i == 0 {
    } else {
        let rest = loopers.drop_first();
        assert(loopers[0].id != id);
        assert forall|k: int| 0 <= k < i - 1 implies (#[trigger] rest[k]).id != id by {
            assert(loopers[k + 1].id != id);
        }
        lemma_find_looper_first(rest, id, i - 1);
        assert(spec_find_looper(loopers, id) == Some(i));
    }
}

/// Extending the target list by one id applies that id last.
pub proof fn lemma_apply_targets_push(e: EngineView, targets: Seq<u32>, x: u32, code: i32)
    ensures
        spec_apply_targets(e, targets.push(x), code) == spec_apply_looper_one(
            spec_apply_targets(e, targets, code),
            x,
            code,
        ),
    decreases targets.len(),
{
    let s = targets.push(x);
    if targets.len() == 0 {
        assert(s.drop_first() =~= Seq::<u32>::empty());
        assert(s[0] == x);
        let e1 = spec_apply_looper_one(e, x, code);
        assert(spec_apply_targets(e, s, code) == spec_apply_targets(e1, s.drop_first(), code));
        assert(spec_apply_targets(e1, s.drop_first(), code) == e1);
        assert(spec_apply_targets(e, targets, code) == e);
    } else {
        assert(s.drop_first() =~= targets.drop_first().push(x));
        assert(s[0] == targets[0]);
        let e1 = spec_apply_looper_one(e, targets[0], code);
        lemma_apply_targets_push(e1, targets.drop_first(), x, code);
        assert(spec_apply_targets(e, s, code) == spec_apply_targets(e1, s.drop_first(), code));
        assert(spec_apply_targets(e, targets, code) == spec_apply_targets(
            e1,
            targets.drop_first(),
            code,
        ));
    }
}

/// Extending the command sequence by one command applies it last.
pub proof fn lemma_apply_commands_push(e: EngineView, cs: Seq<CommandView>, c: CommandView)
    ensures
        spec_apply_commands(e, cs.push(c)) == spec_apply_command(spec_apply_commands(e, cs), c),
    decreases cs.len(),
{
    let s = cs.push(c);
    if cs.len() == 0 {
        assert(s.drop_first() =~= Seq::<CommandView>::empty());
        assert(s[0] == c);
        let e1 = spec_apply_command(e, c);
        assert(spec_apply_commands(e, s) == spec_apply_commands(e1, s.drop_first()));
        assert(spec_apply_commands(e1, s.drop_first()) == e1);
        assert(spec_apply_commands(e, cs) == e);
    } else {
        assert(s.drop_first() =~= cs.drop_first().push(c));
        assert(s[0] == cs[0]);
        let e1 = spec_apply_command(e, cs[0]);
        lemma_apply_commands_push(e1, cs.drop_first(), c);
        assert(spec_apply_commands(e, s) == spec_apply_commands(e1, s.drop_first()));
        assert(spec_apply_commands(e, cs) == spec_apply_commands(e1, cs.drop_first()));
    }
}

/// Extending a block by one sample folds it in last.
pub proof fn lemma_peak_push(s: Seq<i64>, x: i64)
    ensures
        spec_peak(s.push(x)) == if spec_abs(x) > spec_peak(s) {
            spec_abs(x)
        } else {
            spec_peak(s)
        },
    decreases s.len(),
{
    let p = s.push(x);
    if s.len() == 0 {
        assert(p.drop_first() =~= Seq::<i64>::empty());
        assert(p[0] == x);
        assert(spec_peak(p.drop_first()) == 0);
        assert(spec_peak(p) == if spec_abs(x) > 0 {
            spec_abs(x)
        } else {
            0int
        });
        assert(spec_peak(s) == 0);
    } else {
        assert(p.drop_first() =~= s.drop_first().push(x));
        assert(p[0] == s[0]);
        lemma_peak_push(s.drop_first(), x);
        assert(spec_peak(p) == if spec_abs(p[0]) > spec_peak(p.drop_first()) {
            spec_abs(p[0])
        } else {
            spec_peak(p.drop_first())
        });
        assert(spec_peak(s) == if spec_abs(s[0]) > spec_peak(s.drop_first()) {
            spec_abs(s[0])
        } else {
            spec_peak(s.drop_first())
        });
    }
}

/// Extending a layer list by one layer folds it in last.
pub proof fn lemma_mix_layers_push(layers: Seq<LayerView>, x: LayerView, left: bool, t: int, acc: int)
    ensures
        spec_mix_layers(layers.push(x), left, t, acc) == spec_layer_step(
            spec_mix_layers(layers, left, t, acc),
            x,
            left,
            t,
        ),
    decreases layers.len(),
{
    let s = layers.push(x);
    if layers.len() == 0 {
        assert(s.drop_first() =~= Seq::<LayerView>::empty());
        assert(s[0] == x);
        let a1 = spec_layer_step(acc, x, left, t);
        assert(spec_mix_layers(s, left, t, acc) == spec_mix_layers(s.drop_first(), left, t, a1));
        assert(spec_mix_layers(s.drop_first(), left, t, a1) == a1);
        assert(spec_mix_layers(layers, left, t, acc) == acc);
    } else {
        assert(s.drop_first() =~= layers.drop_first().push(x));
        assert(s[0] == layers[0]);
        let a1 = spec_layer_step(acc, layers[0], left, t);
        lemma_mix_layers_push(layers.drop_first(), x, left, t, a1);
        assert(spec_mix_layers(s, left, t, acc) == spec_mix_layers(s.drop_first(), left, t, a1));
        assert(spec_mix_layers(layers, left, t, acc) == spec_mix_layers(
            layers.drop_first(),
            left,
            t,
            a1,
        ));
    }
}

/// Extending a looper list by one looper folds it in last.
pub proof fn lemma_mix_loopers_push(
    loopers: Seq<LooperView>,
    x: LooperView,
    left: bool,
    t: int,
    acc: int,
)
    ensures
        spec_mix_loopers(loopers.push(x), left, t, acc) == spec_looper_step(
            spec_mix_loopers(loopers, left, t, acc),
            x,
            left,
            t,
        ),
    decreases loopers.len(),
{
    let s = loopers.push(x);
    if loopers.len() == 0 {
        assert(s.drop_first() =~= Seq::<LooperView>::empty());
        assert(s[0] == x);
        let a1 = spec_looper_step(acc, x, left, t);
        assert(spec_mix_loopers(s, left, t, acc) == spec_mix_loopers(s.drop_first(), left, t, a1));
        assert(spec_mix_loopers(s.drop_first(), left, t, a1) == a1);
        assert(spec_mix_loopers(loopers, left, t, acc) == acc);
    } else {
        assert(s.drop_first() =~= loopers.drop_first().push(x));
        assert(s[0] == loopers[0]);
        let a1 = spec_looper_step(acc, loopers[0], left, t);
        lemma_mix_loopers_push(loopers.drop_first(), x, left, t, a1);
        assert(spec_mix_loopers(s, left, t, acc) == spec_mix_loopers(s.drop_first(), left, t, a1));
        assert(spec_mix_loopers(loopers, left, t, acc) == spec_mix_loopers(
            loopers.drop_first(),
            left,
            t,
            a1,
        ));
    }
}

/// One target of a looper command never touches the clock, the id counter
/// or the number of loopers.
pub proof fn lemma_apply_looper_one_frame(e: EngineView, target: u32, code: i32)
    ensures
        spec_apply_looper_one(e, target, code).time == e.time,
        spec_apply_looper_one(e, target, code).id_counter == e.id_counter,
        spec_apply_looper_one(e, target, code).loopers.len() == e.loopers.len(),
{
    lemma_find_looper_props(e.loopers, target);
}

/// Applying a looper command, to however many targets, never touches the
/// clock, the id counter or the number of loopers.
pub proof fn lemma_apply_targets_frame(e: EngineView, targets: Seq<u32>, code: i32)
    ensures
        spec_apply_targets(e, targets, code).time == e.time,
        spec_apply_targets(e, targets, code).id_counter == e.id_counter,
        spec_apply_targets(e, targets, code).loopers.len() == e.loopers.len(),
    decreases targets.len(),
{
    if targets.len() > 0 {
        let e1 = spec_apply_looper_one(e, targets[0], code);
        lemma_apply_looper_one_frame(e, targets[0], code);
        lemma_apply_targets_frame(e1, targets.drop_first(), code);
        assert(spec_apply_targets(e, targets, code) == spec_apply_targets(
            e1,
            targets.drop_first(),
            code,
        ));
    }
}

/// No command ever advances the clock: it either leaves it alone or resets
/// it to zero.
pub proof fn lemma_apply_command_time_le(e: EngineView, c: CommandView)
    ensures
        spec_apply_command(e, c).time <= e.time,
{
    match c {
        CommandView::NoOp => {},
        CommandView::Loopers { targets, code } => {
            lemma_apply_targets_frame(e, targets, code);
        },
        CommandView::Global { code } => {},
    }
}

/// Hence a whole batch of commands never advances the clock.
pub proof fn lemma_apply_commands_time_le(e: EngineView, cs: Seq<CommandView>)
    ensures
        spec_apply_commands(e, cs).time <= e.time,
    decreases cs.len(),
{
    if cs.len() > 0 {
        lemma_apply_command_time_le(e, cs[0]);
        let e1 = spec_apply_command(e, cs[0]);
        lemma_apply_commands_time_le(e1, cs.drop_first());
        assert(spec_apply_commands(e, cs) == spec_apply_commands(e1, cs.drop_first()));
    }
}

} // verus!
