use vstd::prelude::*;
use vstd::arithmetic::div_mod::{lemma_div_multiples_vanish_fancy, lemma_fundamental_div_mod};

use crate::error::BlendError;
use crate::frame::Frame;
use crate::reduce::{is_uniform, lemma_mean_of_copies, mean_of_picks, mean_pixels, pick, uniform};
use crate::window::{after_pushes, latest, lemma_window_keeps_latest, BoundedWindow};

verus! {

/// The batch positions read by steps `0..m` over a batch of `n` frames:
/// step `t` reads position `t mod n`, so a short batch is cycled.
pub open spec fn cycle(n: nat, m: nat) -> Seq<usize> {
    Seq::new(m, |t: int| (t % n as int) as usize)
}

/// The positions in the window right after step `i`: the last `cadence`
/// positions read so far (all of them before the window fills).
pub open spec fn tick_window(n: nat, cadence: nat, i: nat) -> Seq<usize> {
    latest(cycle(n, i + 1), cadence)
}

/// How many of the steps `0..total` are ticks, that is multiples of
/// `cadence`: `total / cadence` rounded up.
pub open spec fn tick_count(total: nat, cadence: nat) -> nat {
    if total == 0 {
        0
    } else {
        ((total - 1) / cadence as int + 1) as nat
    }
}

/// The mean of the window at tick `j`, right after step `j * cadence`.
pub open spec fn tick_mean(batch: Seq<Frame>, cadence: nat, j: int) -> Seq<u8> {
    mean_pixels(pick(batch, tick_window(batch.len(), cadence, (j * cadence) as nat)))
}

proof fn lemma_tick_step(i: nat, c: nat)
    requires
        c > 0,
    ensures
        tick_count(i + 1, c) == tick_count(i, c) + (if i as int % c as int == 0 {
            1nat
        } else {
            0nat
        }),
        i as int % c as int == 0 ==> tick_count(i, c) * c == i,
{
    let q = i as int / c as int;
    let r = i as int % c as int;
    lemma_fundamental_div_mod(i as int, c as int);
    assert(i == c * q + r);
    lemma_div_multiples_vanish_fancy(q, r, c as int);
    if i > 0 {
        if r == 0 {
            assert(q >= 1) by (nonlinear_arith)
                requires
                    i == c * q,
                    i > 0,
                    c > 0,
            ;
            assert(i - 1 == c * (q - 1) + (c - 1)) by (nonlinear_arith)
                requires
                    i == c * q,
            ;
            lemma_div_multiples_vanish_fancy(q - 1, c - 1, c as int);
        } else {
            assert(i - 1 == c * q + (r - 1));
            lemma_div_multiples_vanish_fancy(q, r - 1, c as int);
        }
    }
    if r == 0 {
        assert(q * c == c * q) by (nonlinear_arith);
    }
}

/// Streams `batch` through a window of `cadence` frames for `total_steps`
/// steps and returns the mean of the window at every step that is a multiple
/// of `cadence`, oldest tick first.
///
/// Step `i` pushes batch position `i mod batch.len()`. The cadence is
/// checked before anything else: zero gives `InvalidCadence`. Then an empty
/// batch gives `EmptyInput` and a batch of frames of differing shapes gives
/// `ShapeMismatch`. Otherwise the result holds one frame per tick, and the
/// frame of tick `j` is the mean of the window right after step
/// `j * cadence`.
pub fn blend(batch: &[Frame], total_steps: usize, cadence: usize) -> (r: Result<
    Vec<Frame>,
    BlendError,
>)
    ensures
        cadence == 0 <==> r == Err::<Vec<Frame>, BlendError>(BlendError::InvalidCadence),
        cadence > 0 && batch@.len() == 0 ==> r == Err::<Vec<Frame>, BlendError>(
            BlendError::EmptyInput,
        ),
        cadence > 0 && batch@.len() > 0 && !uniform(batch@) ==> r == Err::<Vec<Frame>, BlendError>(
            BlendError::ShapeMismatch,
        ),
        cadence > 0 && batch@.len() > 0 && uniform(batch@) ==> r is Ok,
        r matches Ok(out) ==> out@.len() == tick_count(total_steps as nat, cadence as nat) && (
        forall|j: int|
            0 <= j < out@.len() ==> (#[trigger] out@[j]).shape() == batch@[0].shape() && out@[j].pixels()
                == tick_mean(batch@, cadence as nat, j)),
{
    if cadence == 0 {
        return Err(BlendError::InvalidCadence);
    }
    if batch.len() == 0 {
        return Err(BlendError::EmptyInput);
    }
    if !is_uniform(batch) {
        return Err(BlendError::ShapeMismatch);
    }
    let n = batch.len();
    let ghost c = cadence as nat;
    let mut window = match BoundedWindow::new(cadence) {
        Ok(w) => w,
        Err(e) => {
            return Err(e);
        },
    };
    let mut out: Vec<Frame> = Vec::new();
    let mut i: usize = 0;
    while i < total_steps
        invariant
            n == batch@.len(),
            n > 0,
            c == cadence,
            c > 0,
            uniform(batch@),
            i <= total_steps,
            window.wf(),
            window.bound() == c,
            window.contents() == after_pushes(c, cycle(n as nat, i as nat)),
            out@.len() == tick_count(i as nat, c),
            forall|j: int|
                0 <= j < out@.len() ==> (#[trigger] out@[j]).shape() == batch@[0].shape()
                    && out@[j].pixels() == tick_mean(batch@, cadence as nat, j),
        decreases total_steps - i,
    {
        window.push(i % n);
        proof {
            assert(cycle(n as nat, (i + 1) as nat).drop_last() =~= cycle(n as nat, i as nat));
            lemma_tick_step(i as nat, c);
        }
        if i % cadence == 0 {
            let picks = window.snapshot();
            proof {
                let steps = cycle(n as nat, (i + 1) as nat);
                lemma_window_keeps_latest(c, steps);
                assert(picks@ == tick_window(n as nat, c, i as nat));
                assert forall|j: int| 0 <= j < picks@.len() implies #[trigger] picks@[j] < batch@.len() by {
                    if steps.len() > c {
                        assert(picks@[j] == steps[steps.len() - c + j]);
                    } else {
                        assert(picks@[j] == steps[j]);
                    }
                }
                let fs = pick(batch@, picks@);
                assert forall|j: int| 0 <= j < fs.len() implies #[trigger] fs[j].shape()
                    == fs[0].shape() by {
                    assert(batch@[picks@[j] as int].shape() == batch@[0].shape());
                    assert(batch@[picks@[0] as int].shape() == batch@[0].shape());
                }
                assert(out@.len() * c == i);
            }
            let ghost k = out@.len();
            let ghost before = out@;
            let f = mean_of_picks(batch, &picks);
            out.push(f);
            proof {
                assert((k * c) as nat == i);
                assert forall|j: int| 0 <= j < out@.len() implies (#[trigger] out@[j]).shape()
                    == batch@[0].shape() && out@[j].pixels() == tick_mean(batch@, cadence as nat, j) by {
                    if j < k {
                        assert(out@[j] == before[j]);
                    }
                }
            }
        }
        i += 1;
    }
    Ok(out)
}

/// The first tick sees a window of one frame, the first of the batch, so
/// its mean is exactly that frame's samples.
pub proof fn lemma_first_tick_is_first_frame(batch: Seq<Frame>, cadence: nat)
    requires
        batch.len() > 0,
        batch[0].is_valid(),
        cadence > 0,
    ensures
        tick_mean(batch, cadence, 0) == batch[0].pixels(),
{
    let w = tick_window(batch.len(), cadence, 0);
    assert(w =~= seq![0usize]);
    let fs = pick(batch, w);
    assert(fs =~= seq![batch[0]]);
    lemma_mean_of_copies(fs);
}

} // verus!
