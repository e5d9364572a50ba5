//! The engine's general laws, stated once over the model and proved for all
//! inputs: periodic playback, silence of empty loopers, idempotence of the
//! auto-arm trigger, isolation of targeted commands, clock monotonicity, and
//! preservation of the engine's well-formedness invariant.

use vstd::arithmetic::div_mod::lemma_mod_multiples_vanish;
use vstd::prelude::*;

use crate::model::lemma_apply_looper_one_frame;
use crate::model::lemma_apply_targets_frame;
use crate::model::lemma_find_looper_props;
use crate::model::spec_apply_command;
use crate::model::spec_apply_commands;
use crate::model::spec_apply_global;
use crate::model::spec_apply_looper_one;
use crate::model::spec_apply_targets;
use crate::model::spec_apply_to_looper;
use crate::model::spec_arm;
use crate::model::spec_find_looper;
use crate::model::spec_layer_sample;
use crate::model::spec_layer_step;
use crate::model::spec_looper_step;
use crate::model::spec_mix_layers;
use crate::model::spec_record;
use crate::model::spec_record_looper;
use crate::model::spec_run_block;
use crate::model::EngineView;
use crate::types::CommandView;
use crate::types::GlobalCommandType;
use crate::types::LayerView;
use crate::types::LooperCommandType;
use crate::types::LooperView;
use crate::types::RecordMode;

verus! {

/// Loop playback is periodic: a layer whose channels hold `L > 0` samples
/// contributes the same sample at global time `t` and at `t + L`, whatever
/// sample it folds into.
pub proof fn lemma_layer_periodic(l: LayerView, left: bool, t: int)
    requires
        l.wf(),
        l.left.len() > 0,
        t >= 0,
    ensures
        spec_layer_sample(l, left, t + l.left.len()) == spec_layer_sample(l, left, t),
        forall|acc: int|
            #[trigger] spec_layer_step(acc, l, left, t + l.left.len()) == spec_layer_step(
                acc,
                l,
                left,
                t,
            ),
{
    let s = if left {
        l.left
    } else {
        l.right
    };
    let len = s.len() as int;
    lemma_mod_multiples_vanish(1, t, len);
    assert((len + t) % len == t % len);
}

/// All layers whose channels hold either no samples or exactly `period`
/// samples contribute the same fold at `t` and at `t + period`.
proof fn lemma_mix_layers_periodic(layers: Seq<LayerView>, left: bool, t: int, acc: int, period: int)
    requires
        forall|j: int| 0 <= j < layers.len() ==> (#[trigger] layers[j]).wf(),
        forall|j: int|
            0 <= j < layers.len() ==> (#[trigger] layers[j]).left.len() == 0 || layers[j].left.len()
                == period,
        period > 0,
        t >= 0,
    ensures
        spec_mix_layers(layers, left, t + period, acc) == spec_mix_layers(layers, left, t, acc),
    decreases layers.len(),
{
    if layers.len() > 0 {
        let l0 = layers[0];
        assert(l0.wf() && (l0.left.len() == 0 || l0.left.len() == period));
        if l0.left.len() > 0 {
            lemma_layer_periodic(l0, left, t);
            assert(spec_layer_step(acc, l0, left, t + period) == spec_layer_step(acc, l0, left, t));
        }
        let rest = layers.drop_first();
        assert forall|j: int| 0 <= j < rest.len() implies (#[trigger] rest[j]).wf() && (
        rest[j].left.len() == 0 || rest[j].left.len() == period) by {
            assert(layers[j + 1].wf());
            assert(layers[j + 1].left.len() == 0 || layers[j + 1].left.len() == period);
        }
        lemma_mix_layers_periodic(rest, left, t, spec_layer_step(acc, l0, left, t), period);
    }
}

/// Loop playback is periodic, looper-wide: when every layer of a looper
/// holds either no samples or exactly the loop period `L` of layer 0, the
/// looper's whole contribution at global time `t` equals its contribution
/// at `t + L`, whatever sample it folds into.
pub proof fn lemma_looper_periodic(l: LooperView, left: bool, t: int, acc: int, period: int)
    requires
        l.wf(),
        forall|j: int|
            0 <= j < l.layers.len() ==> (#[trigger] l.layers[j]).left.len() == 0
                || l.layers[j].left.len() == period,
        period > 0,
        t >= 0,
    ensures
        spec_looper_step(acc, l, left, t + period) == spec_looper_step(acc, l, left, t),
{
    lemma_mix_layers_periodic(l.layers, left, t, acc, period);
}

/// All layers of an all-empty layer list contribute nothing, whatever the
/// accumulated sample.
proof fn lemma_mix_layers_all_empty(layers: Seq<LayerView>, left: bool, t: int, acc: int)
    requires
        forall|j: int| 0 <= j < layers.len() ==> (#[trigger] layers[j]).left.len() == 0,
    ensures
        spec_mix_layers(layers, left, t, acc) == acc,
    decreases layers.len(),
{
    if layers.len() > 0 {
        assert(spec_layer_step(acc, layers[0], left, t) == acc);
        let rest = layers.drop_first();
        assert forall|j: int| 0 <= j < rest.len() implies (#[trigger] rest[j]).left.len() == 0 by {
            assert(layers[j + 1].left.len() == 0);
        }
        lemma_mix_layers_all_empty(rest, left, t, acc);
    }
}

/// Silence on empty: a looper with no layers, or only empty layers, leaves
/// every accumulated sample exactly as it was, whatever its play mode.
pub proof fn lemma_empty_looper_silent(l: LooperView, left: bool, t: int, acc: int)
    requires
        forall|j: int| 0 <= j < l.layers.len() ==> (#[trigger] l.layers[j]).left.len() == 0,
    ensures
        spec_looper_step(acc, l, left, t) == acc,
{
    lemma_mix_layers_all_empty(l.layers, left, t, acc);
}

/// Auto-arm idempotence: once the active looper records, a processed block
/// only ever appends the raw input to its layer 0 — already recorded
/// samples are kept, however loud the block. Clearing happens only on the
/// `Ready` to `Record` transition.
pub proof fn lemma_record_keeps_samples(e: EngineView, in_l: Seq<i64>, in_r: Seq<i64>, i: int)
    requires
        spec_find_looper(e.loopers, e.active) == Some(i),
        e.loopers[i].record_mode == RecordMode::Record,
    ensures
        ({
            let old_left = if e.loopers[i].layers.len() > 0 {
                e.loopers[i].layers[0].left
            } else {
                Seq::<i64>::empty()
            };
            let old_right = if e.loopers[i].layers.len() > 0 {
                e.loopers[i].layers[0].right
            } else {
                Seq::<i64>::empty()
            };
            let l2 = spec_run_block(e, in_l, in_r).loopers[i];
            l2.layers.len() > 0 && l2.layers[0].left == old_left + in_l && l2.layers[0].right
                == old_right + in_r && l2.record_mode == RecordMode::Record
        }),
{
    lemma_find_looper_props(e.loopers, e.active);
    assert(spec_arm(e, in_l, in_r) == e);
    let l2 = spec_record_looper(e.loopers[i], in_l, in_r);
    assert(spec_record(e, in_l, in_r).loopers == e.loopers.update(i, l2));
    if e.loopers[i].layers.len() == 0 {
        assert(l2.layers =~= seq![LayerView::empty()].update(
            0,
            LayerView { left: Seq::empty() + in_l, right: Seq::empty() + in_r },
        ));
    }
}

/// Command isolation: a looper command, whatever its targets and type, never
/// mutates a looper whose id is not among its targets.
pub proof fn lemma_command_isolation(e: EngineView, targets: Seq<u32>, code: i32, j: int)
    requires
        0 <= j < e.loopers.len(),
        !targets.contains(e.loopers[j].id),
    ensures
        spec_apply_targets(e, targets, code).loopers.len() == e.loopers.len(),
        spec_apply_targets(e, targets, code).loopers[j] == e.loopers[j],
    decreases targets.len(),
{
    if targets.len() > 0 {
        let e1 = spec_apply_looper_one(e, targets[0], code);
        assert(targets.contains(targets[0]));
        assert(targets[0] != e.loopers[j].id);
        lemma_find_looper_props(e.loopers, targets[0]);
        lemma_apply_looper_one_frame(e, targets[0], code);
        assert(e1.loopers[j] == e.loopers[j]);
        let rest = targets.drop_first();
        assert forall|x: u32| rest.contains(x) implies targets.contains(x) by {
            let k = choose|k: int| 0 <= k < rest.len() && rest[k] == x;
            assert(targets[k + 1] == x);
        }
        lemma_command_isolation(e1, rest, code, j);
        assert(spec_apply_targets(e, targets, code) == spec_apply_targets(e1, rest, code));
    }
}

/// Whether a command is a recognized global clock reset.
pub open spec fn spec_is_reset_time(c: CommandView) -> bool {
    match c {
        CommandView::Global { code } => GlobalCommandType::spec_from_code(code) == Some(
            GlobalCommandType::ResetTime,
        ),
        _ => false,
    }
}

/// A command that is not a clock reset leaves the clock exactly where it
/// was.
pub proof fn lemma_non_reset_keeps_time(e: EngineView, c: CommandView)
    requires
        !spec_is_reset_time(c),
    ensures
        spec_apply_command(e, c).time == e.time,
{
    match c {
        CommandView::NoOp => {},
        CommandView::Loopers { targets, code } => {
            lemma_apply_targets_frame(e, targets, code);
        },
        CommandView::Global { code } => {},
    }
}

/// A clock reset sets the clock to exactly zero.
pub proof fn lemma_reset_time_zeroes_clock(e: EngineView, c: CommandView)
    requires
        spec_is_reset_time(c),
    ensures
        spec_apply_command(e, c).time == 0,
{
}

/// Time monotonicity: every processed block advances the clock by exactly
/// the block length, provided none of the block's commands is an explicit
/// clock reset.
pub proof fn lemma_time_advances_by_block(
    e: EngineView,
    cmds: Seq<CommandView>,
    in_l: Seq<i64>,
    in_r: Seq<i64>,
)
    requires
        forall|k: int| 0 <= k < cmds.len() ==> !spec_is_reset_time(#[trigger] cmds[k]),
    ensures
        spec_run_block(spec_apply_commands(e, cmds), in_l, in_r).time == e.time + in_l.len(),
{
    lemma_non_reset_commands_keep_time(e, cmds);
    let e1 = spec_apply_commands(e, cmds);
    assert(spec_arm(e1, in_l, in_r).time == e1.time);
    assert(spec_record(spec_arm(e1, in_l, in_r), in_l, in_r).time == e1.time);
}

/// A whole batch of commands without a clock reset keeps the clock.
pub proof fn lemma_non_reset_commands_keep_time(e: EngineView, cmds: Seq<CommandView>)
    requires
        forall|k: int| 0 <= k < cmds.len() ==> !spec_is_reset_time(#[trigger] cmds[k]),
    ensures
        spec_apply_commands(e, cmds).time == e.time,
    decreases cmds.len(),
{
    if cmds.len() > 0 {
        lemma_non_reset_keeps_time(e, cmds[0]);
        let e1 = spec_apply_command(e, cmds[0]);
        let rest = cmds.drop_first();
        assert forall|k: int| 0 <= k < rest.len() implies !spec_is_reset_time(
            #[trigger] rest[k],
        ) by {
            assert(rest[k] == cmds[k + 1]);
        }
        lemma_non_reset_commands_keep_time(e1, rest);
        assert(spec_apply_commands(e, cmds) == spec_apply_commands(e1, rest));
    }
}

/// What a looper-targeted command type does to one looper keeps its id and
/// its well-formedness.
proof fn lemma_apply_to_looper_wf(l: LooperView, typ: LooperCommandType)
    requires
        l.wf(),
    ensures
        spec_apply_to_looper(l, typ).id == l.id,
        spec_apply_to_looper(l, typ).wf(),
{
    let l2 = spec_apply_to_looper(l, typ);
    match typ {
        LooperCommandType::EnableOverdub => {
            assert forall|j: int| 0 <= j < l2.layers.len() implies (#[trigger] l2.layers[j]).wf() by {
                if j < l.layers.len() {
                    assert(l.layers[j].wf());
                } else {
                    assert(l2.layers[j] == LayerView::empty());
                }
            }
        },
        _ => {},
    }
}

/// One target of a looper command preserves the engine's well-formedness.
proof fn lemma_apply_looper_one_wf(e: EngineView, target: u32, code: i32)
    requires
        e.wf(),
    ensures
        spec_apply_looper_one(e, target, code).wf(),
{
    let e2 = spec_apply_looper_one(e, target, code);
    lemma_find_looper_props(e.loopers, target);
    match spec_find_looper(e.loopers, target) {
        None => {},
        Some(i) => {
            match LooperCommandType::spec_from_code(code) {
                None => {},
                Some(LooperCommandType::Select) => {
                    assert(e.loopers[i].id == target);
                    assert(e2.wf());
                },
                Some(typ) => {
                    lemma_apply_to_looper_wf(e.loopers[i], typ);
                    assert forall|k: int| 0 <= k < e2.loopers.len() implies (
                    #[trigger] e2.loopers[k]).wf() && e2.loopers[k].id == e.loopers[k].id by {
                        if k != i {
                            assert(e2.loopers[k] == e.loopers[k]);
                        }
                    }
                    let w = choose|k: int|
                        0 <= k < e.loopers.len() && (#[trigger] e.loopers[k]).id == e.active;
                    assert(e2.loopers[w].id == e.active);
                },
            }
        },
    }
}

/// Every command preserves the engine's well-formedness.
pub proof fn lemma_apply_command_preserves_wf(e: EngineView, c: CommandView)
    requires
        e.wf(),
    ensures
        spec_apply_command(e, c).wf(),
{
    match c {
        CommandView::NoOp => {},
        CommandView::Loopers { targets, code } => {
            lemma_apply_targets_wf(e, targets, code);
        },
        CommandView::Global { code } => {
            match GlobalCommandType::spec_from_code(code) {
                None => {},
                Some(GlobalCommandType::ResetTime) => {
                    assert(spec_apply_global(e, code).wf());
                },
                Some(GlobalCommandType::AddLooper) => {
                    if e.id_counter < u32::MAX {
                        let e2 = spec_apply_global(e, code);
                        let n = e.loopers.len() as int;
                        assert(e2.loopers[n] == LooperView::init(e.id_counter));
                        assert forall|k: int| 0 <= k < e2.loopers.len() implies (
                        #[trigger] e2.loopers[k]).wf() by {
                            if k < n {
                                assert(e2.loopers[k] == e.loopers[k]);
                            }
                        }
                        assert(e2.loopers[n].id == e2.active);
                        assert(e2.wf());
                    }
                },
            }
        },
    }
}

/// Every target list of a looper command preserves well-formedness.
proof fn lemma_apply_targets_wf(e: EngineView, targets: Seq<u32>, code: i32)
    requires
        e.wf(),
    ensures
        spec_apply_targets(e, targets, code).wf(),
    decreases targets.len(),
{
    if targets.len() > 0 {
        let e1 = spec_apply_looper_one(e, targets[0], code);
        lemma_apply_looper_one_wf(e, targets[0], code);
        lemma_apply_targets_wf(e1, targets.drop_first(), code);
        assert(spec_apply_targets(e, targets, code) == spec_apply_targets(
            e1,
            targets.drop_first(),
            code,
        ));
    }
}

/// A whole batch of commands preserves well-formedness.
pub proof fn lemma_apply_commands_preserves_wf(e: EngineView, cmds: Seq<CommandView>)
    requires
        e.wf(),
    ensures
        spec_apply_commands(e, cmds).wf(),
    decreases cmds.len(),
{
    if cmds.len() > 0 {
        lemma_apply_command_preserves_wf(e, cmds[0]);
        let e1 = spec_apply_command(e, cmds[0]);
        lemma_apply_commands_preserves_wf(e1, cmds.drop_first());
        assert(spec_apply_commands(e, cmds) == spec_apply_commands(e1, cmds.drop_first()));
    }
}

/// A processed block preserves the engine's well-formedness.
pub proof fn lemma_run_block_preserves_wf(e: EngineView, in_l: Seq<i64>, in_r: Seq<i64>)
    requires
        e.wf(),
        in_l.len() == in_r.len(),
    ensures
        spec_run_block(e, in_l, in_r).wf(),
{
    lemma_find_looper_props(e.loopers, e.active);
    let e1 = spec_arm(e, in_l, in_r);
    match spec_find_looper(e.loopers, e.active) {
        None => {},
        Some(i) => {
            assert forall|k: int| 0 <= k < e1.loopers.len() implies (#[trigger] e1.loopers[k]).wf()
                && e1.loopers[k].id == e.loopers[k].id by {
                if k != i {
                    assert(e1.loopers[k] == e.loopers[k]);
                }
            }
            let w = choose|k: int|
                0 <= k < e.loopers.len() && (#[trigger] e.loopers[k]).id == e.active;
            assert(e1.loopers[w].id == e.active);
            assert(e1.wf());
            let e2 = spec_record(e1, in_l, in_r);
            lemma_find_looper_props(e1.loopers, e1.active);
            match spec_find_looper(e1.loopers, e1.active) {
                None => {},
                Some(i2) => {
                    let l1 = e1.loopers[i2];
                    let l2 = spec_record_looper(l1, in_l, in_r);
                    assert(l2.id == l1.id);
                    assert forall|j: int| 0 <= j < l2.layers.len() implies (
                    #[trigger] l2.layers[j]).wf() by {
                        if l1.layers.len() == 0 {
                            assert(l2.layers =~= seq![LayerView::empty()].update(
                                0,
                                LayerView {
                                    left: Seq::empty() + in_l,
                                    right: Seq::empty() + in_r,
                                },
                            ));
                        } else {
                            if j != 0 {
                                assert(l2.layers[j] == l1.layers[j]);
                                assert(l1.layers[j].wf());
                            } else {
                                assert(l1.layers[0].wf());
                            }
                        }
                    }
                    assert(l2.wf());
                    assert forall|k: int| 0 <= k < e2.loopers.len() implies (
                    #[trigger] e2.loopers[k]).wf() && e2.loopers[k].id == e1.loopers[k].id by {
                        if k != i2 {
                            assert(e2.loopers[k] == e1.loopers[k]);
                        }
                    }
                    let w2 = choose|k: int|
                        0 <= k < e1.loopers.len() && (#[trigger] e1.loopers[k]).id == e1.active;
                    assert(e2.loopers[w2].id == e1.active);
                    assert(e2.wf());
                },
            }
        },
    }
}

} // verus!
