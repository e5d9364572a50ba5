//! Sample arithmetic and the per-block mixing algorithm: saturating sample
//! addition, peak detection for the auto-arm trigger, mixing of all playing
//! loopers into one output channel, and the sample-to-millisecond clock
//! conversion.

use vstd::arithmetic::div_mod::lemma_div_is_ordered;
use vstd::arithmetic::div_mod::lemma_div_multiples_vanish;
use vstd::arithmetic::mul::lemma_mul_inequality;
use vstd::prelude::*;

use crate::model::lemma_mix_layers_push;
use crate::model::lemma_mix_loopers_push;
use crate::model::lemma_peak_push;
use crate::model::spec_abs;
use crate::model::spec_layer_step;
use crate::model::spec_mix_block;
use crate::model::spec_mix_layers;
use crate::model::spec_mix_loopers;
use crate::model::spec_ms;
use crate::model::spec_peak;
use crate::model::spec_sat_add;
use crate::model::spec_looper_step;
use crate::types::Looper;
use crate::types::LooperView;
use crate::types::PlayMode;
use crate::SAMPLE_RATE;

verus! {

/// Add two samples, saturating at the bounds of the sample type.
pub fn sat_add64(a: i64, b: i64) -> (r: i64)
    ensures
        r as int == spec_sat_add(a as int, b as int),
{
    match a.checked_add(b) {
        Some(s) => s,
        None => if a >= 0 {
            i64::MAX
        } else {
            i64::MIN
        },
    }
}

/// Peak absolute amplitude over a block; zero for an empty block.
pub fn max_abs(b: &Vec<i64>) -> (r: u64)
    ensures
        r as int == spec_peak(b@),
{
    let mut r: u64 = 0;
    proof {
        assert(b@.take(0) =~= Seq::<i64>::empty());
    }
    let n = b.len();
    let mut i: usize = 0;
    while i < n
        invariant
            n == b@.len(),
            i <= n,
            r as int == spec_peak(b@.take(i as int)),
        decreases n - i,
    {
        let v = b[i];
        let a: u64 = if v < 0 {
            (-(v as i128)) as u64
        } else {
            v as u64
        };
        proof {
            assert(a as int == spec_abs(v));
        }
        if a > r {
            r = a;
        }
        proof {
            assert(b@.take(i + 1 as int) =~= b@.take(i as int).push(b@[i as int]));
            lemma_peak_push(b@.take(i as int), b@[i as int]);
        }
        i = i + 1;
    }
    proof {
        assert(b@.take(n as int) =~= b@);
    }
    r
}

/// Milliseconds, truncated, of a sample count at the engine sample rate.
pub fn samples_to_time(time: usize) -> (r: u64)
    ensures
        r as int == spec_ms(time as int),
{
    let t: u128 = time as u128;
    let ms: u128 = t * 1000 / (SAMPLE_RATE as u128);
    proof {
        lemma_mul_inequality(1000, SAMPLE_RATE as int, time as int);
        lemma_div_is_ordered(
            time as int * 1000,
            time as int * (SAMPLE_RATE as int),
            SAMPLE_RATE as int,
        );
        lemma_div_multiples_vanish(time as int, SAMPLE_RATE as int);
        assert(spec_ms(time as int) <= time as int);
    }
    ms as u64
}

/// Mix one output channel: start from the live input and fold in, looper by
/// looper and layer by layer, every playing looper's recorded audio at the
/// global times the block spans.
pub fn mix_channel(loopers: &Vec<Looper>, time: usize, input: &Vec<i64>, left: bool) -> (out: Vec<
    i64,
>)
    requires
        time + input@.len() <= usize::MAX,
    ensures
        out@ == spec_mix_block(
            loopers@.map_values(|l: Looper| l@),
            time as int,
            input@,
            left,
        ),
{
    let ghost lv = loopers@.map_values(|l: Looper| l@);
    let n = input.len();
    let mut out: Vec<i64> = Vec::new();
    let mut i: usize = 0;
    while i < n
        invariant
            n == input@.len(),
            i <= n,
            out@ =~= input@.take(i as int),
        decreases n - i,
    {
        out.push(input[i]);
        proof {
            assert(input@.take(i + 1 as int) =~= input@.take(i as int).push(input@[i as int]));
        }
        i = i + 1;
    }
    proof {
        assert(input@.take(n as int) =~= input@);
        assert(lv.take(0) =~= Seq::<LooperView>::empty());
    }
    let m = loopers.len();
    let mut li: usize = 0;
    while li < m
        invariant
            m == loopers@.len(),
            li <= m,
            n == input@.len(),
            time + n <= usize::MAX,
            out@.len() == n,
            lv == loopers@.map_values(|l: Looper| l@),
            forall|x: int|
                0 <= x < n ==> #[trigger] out@[x] as int == spec_mix_loopers(
                    lv.take(li as int),
                    left,
                    time + x,
                    input@[x] as int,
                ),
        decreases m - li,
    {
        proof {
            assert(lv.take(li + 1 as int) =~= lv.take(li as int).push(lv[li as int]));
        }
        let playing = loopers[li].play_mode == PlayMode::Playing && loopers[li].layers.len() > 0;
        if playing {
            let mut s: usize = 0;
            while s < n
                invariant
                    m == loopers@.len(),
                    0 <= li < m,
                    n == input@.len(),
                    s <= n,
                    time + n <= usize::MAX,
                    out@.len() == n,
                    lv == loopers@.map_values(|l: Looper| l@),
                    lv[li as int].play_mode == PlayMode::Playing,
                    lv[li as int].layers.len() > 0,
                    forall|x: int|
                        0 <= x < s ==> #[trigger] out@[x] as int == spec_mix_loopers(
                            lv.take(li + 1 as int),
                            left,
                            time + x,
                            input@[x] as int,
                        ),
                    forall|x: int|
                        s <= x < n ==> #[trigger] out@[x] as int == spec_mix_loopers(
                            lv.take(li as int),
                            left,
                            time + x,
                            input@[x] as int,
                        ),
                decreases n - s,
            {
                let ghost acc0 = out@[s as int] as int;
                let ghost layers = lv[li as int].layers;
                let mut acc: i64 = out[s];
                let nb = loopers[li].layers.len();
                let mut bi: usize = 0;
                proof {
                    assert(layers.take(0) =~= Seq::<crate::types::LayerView>::empty());
                }
                while bi < nb
                    invariant
                        m == loopers@.len(),
                        0 <= li < m,
                        n == input@.len(),
                        0 <= s < n,
                        time + n <= usize::MAX,
                        lv == loopers@.map_values(|l: Looper| l@),
                        layers == lv[li as int].layers,
                        nb == layers.len(),
                        bi <= nb,
                        acc as int == spec_mix_layers(
                            layers.take(bi as int),
                            left,
                            (time + s) as int,
                            acc0,
                        ),
                    decreases nb - bi,
                {
                    let ghost t = (time + s) as int;
                    let layer = &loopers[li].layers[bi];
                    proof {
                        assert(layers[bi as int] == layer@);
                        assert(layers.take(bi + 1 as int) =~= layers.take(bi as int).push(
                            layers[bi as int],
                        ));
                        lemma_mix_layers_push(layers.take(bi as int), layers[bi as int], left, t, acc0);
                    }
                    if layer.left.len() > 0 {
                        let ch = if left {
                            &layer.left
                        } else {
                            &layer.right
                        };
                        let c: i64 = if ch.len() == 0 {
                            0
                        } else {
                            ch[(time + s) % ch.len()]
                        };
                        proof {
                            assert(c as int == crate::model::spec_layer_sample(
                                layers[bi as int],
                                left,
                                t,
                            ));
                        }
                        acc = sat_add64(acc, c);
                        proof {
                            assert(acc as int == spec_layer_step(
                                spec_mix_layers(layers.take(bi as int), left, t, acc0),
                                layers[bi as int],
                                left,
                                t,
                            ));
                        }
                    }
                    bi = bi + 1;
                }
                proof {
                    assert(layers.take(nb as int) =~= layers);
                    assert(acc as int == spec_mix_layers(layers, left, (time + s) as int, acc0));
                    assert(spec_looper_step(acc0, lv[li as int], left, (time + s) as int)
                        == spec_mix_layers(layers, left, (time + s) as int, acc0));
                    lemma_mix_loopers_push(
                        lv.take(li as int),
                        lv[li as int],
                        left,
                        (time + s) as int,
                        input@[s as int] as int,
                    );
                }
                out[s] = acc;
                proof {
                    assert(lv.take(li + 1 as int) =~= lv.take(li as int).push(lv[li as int]));
                    assert(out@[s as int] as int == spec_mix_loopers(
                        lv.take(li + 1 as int),
                        left,
                        (time + s) as int,
                        input@[s as int] as int,
                    ));
                }
                s = s + 1;
            }
        } else {
            proof {
                assert forall|x: int| 0 <= x < n implies #[trigger] out@[x] as int
                    == spec_mix_loopers(
                    lv.take(li + 1 as int),
                    left,
                    time + x,
                    input@[x] as int,
                ) by {
                    lemma_mix_loopers_push(
                        lv.take(li as int),
                        lv[li as int],
                        left,
                        time + x,
                        input@[x] as int,
                    );
                    assert(spec_looper_step(
                        spec_mix_loopers(lv.take(li as int), left, time + x, input@[x] as int),
                        lv[li as int],
                        left,
                        time + x,
                    ) == spec_mix_loopers(lv.take(li as int), left, time + x, input@[x] as int));
                }
            }
        }
        li = li + 1;
    }
    proof {
        assert(lv.take(m as int) =~= lv);
        assert(out@ =~= spec_mix_block(lv, time as int, input@, left));
    }
    out
}

} // verus!
