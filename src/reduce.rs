use vstd::prelude::*;
use vstd::arithmetic::div_mod::lemma_div_multiples_vanish;
use vstd::seq_lib::{commutative_foldl, lemma_fold_left_permutation};

use crate::error::BlendError;
use crate::frame::{shape_len, Frame};

verus! {

/// Sum of the samples at storage position `p` over all frames.
pub open spec fn sample_sum(frames: Seq<Frame>, p: int) -> int {
    frames.fold_left(0int, |acc: int, f: Frame| acc + f.pixels()[p] as int)
}

/// The per-sample mean of a batch: for each storage position, the sum over
/// the frames divided by the number of frames, truncated toward zero. The
/// result has as many samples as the first frame's shape calls for.
pub open spec fn mean_pixels(frames: Seq<Frame>) -> Seq<u8> {
    Seq::new(
        shape_len(frames[0].shape()),
        |p: int| (sample_sum(frames, p) / frames.len() as int) as u8,
    )
}

/// All frames share the first frame's shape.
pub open spec fn uniform(frames: Seq<Frame>) -> bool {
    forall|i: int| 0 <= i < frames.len() ==> #[trigger] frames[i].shape() == frames[0].shape()
}

/// The frames of `batch` at the positions listed in `picks`, in that order.
pub open spec fn pick(batch: Seq<Frame>, picks: Seq<usize>) -> Seq<Frame> {
    picks.map_values(|i: usize| batch[i as int])
}

/// Whether every frame of a non-empty batch has the first frame's shape.
pub fn is_uniform(frames: &[Frame]) -> (r: bool)
    requires
        frames@.len() > 0,
    ensures
        r == uniform(frames@),
{
    let first = &frames[0];
    let mut i: usize = 1;
    while i < frames.len()
        invariant
            1 <= i <= frames@.len(),
            first == frames@[0],
            forall|j: int| 0 <= j < i ==> #[trigger] frames@[j].shape() == frames@[0].shape(),
        decreases frames@.len() - i,
    {
        if !frames[i].same_shape(first) {
            return false;
        }
        i += 1;
    }
    true
}

/// Mean of the frames of `batch` that `picks` selects, read in place.
pub(crate) fn mean_of_picks(batch: &[Frame], picks: &Vec<usize>) -> (r: Frame)
    requires
        picks@.len() > 0,
        forall|j: int| 0 <= j < picks@.len() ==> #[trigger] picks@[j] < batch@.len(),
        uniform(pick(batch@, picks@)),
    ensures
        r.shape() == batch@[picks@[0] as int].shape(),
        r.pixels() == mean_pixels(pick(batch@, picks@)),
{
    let ghost fs = pick(batch@, picks@);
    let first = &batch[picks[0]];
    let size = first.samples().len();
    let k = picks.len();
    let mut out: Vec<u8> = Vec::with_capacity(size);
    let mut p: usize = 0;
    while p < size
        invariant
            fs == pick(batch@, picks@),
            k == fs.len(),
            k > 0,
            first == fs[0],
            size == shape_len(fs[0].shape()),
            p <= size,
            out@.len() == p,
            forall|j: int| 0 <= j < picks@.len() ==> #[trigger] picks@[j] < batch@.len(),
            uniform(fs),
            forall|q: int| 0 <= q < p ==> #[trigger] out@[q] == mean_pixels(fs)[q],
        decreases size - p,
    {
        let mut acc: u128 = 0;
        let mut j: usize = 0;
        while j < k
            invariant
                fs == pick(batch@, picks@),
                k == fs.len(),
                size == shape_len(fs[0].shape()),
                p < size,
                j <= k,
                forall|j: int| 0 <= j < picks@.len() ==> #[trigger] picks@[j] < batch@.len(),
                uniform(fs),
                acc == sample_sum(fs.take(j as int), p as int),
                acc <= 255 * j,
            decreases k - j,
        {
            let frame = &batch[picks[j]];
            let s = frame.samples();
            proof {
                assert(fs[j as int] == frame);
                assert(fs[j as int].shape() == fs[0].shape());
                assert(fs.take(j + 1).drop_last() =~= fs.take(j as int));
                assert(j < usize::MAX);
                assert(acc + 255 <= 255 * (j + 1));
                assert(255 * (j + 1) <= 255 * (usize::MAX as int));
            }
            acc = acc + s[p] as u128;
            j += 1;
        }
        proof {
            assert(fs.take(k as int) =~= fs);
            assert((acc as int) / (k as int) <= 255) by (nonlinear_arith)
                requires
                    acc <= 255 * k,
                    k > 0,
            ;
        }
        let v = (acc / k as u128) as u8;
        out.push(v);
        p += 1;
    }
    proof {
        assert(out@ =~= mean_pixels(fs));
    }
    Frame::from_parts(first.dims(), out)
}

/// The per-sample mean of a batch of frames.
///
/// Fails with `EmptyInput` on an empty batch and with `ShapeMismatch` when
/// the frames differ in shape; otherwise the result has the frames' shape and
/// each sample is the truncated mean of the samples at its position.
pub fn average(frames: &[Frame]) -> (r: Result<Frame, BlendError>)
    ensures
        frames@.len() == 0 ==> r == Err::<Frame, BlendError>(BlendError::EmptyInput),
        frames@.len() > 0 && !uniform(frames@) ==> r == Err::<Frame, BlendError>(
            BlendError::ShapeMismatch,
        ),
        frames@.len() > 0 && uniform(frames@) ==> r is Ok,
        r matches Ok(f) ==> f.shape() == frames@[0].shape() && f.pixels() == mean_pixels(frames@)
            && f.is_valid(),
{
    if frames.len() == 0 {
        return Err(BlendError::EmptyInput);
    }
    if !is_uniform(frames) {
        return Err(BlendError::ShapeMismatch);
    }
    let mut picks: Vec<usize> = Vec::with_capacity(frames.len());
    let mut i: usize = 0;
    while i < frames.len()
        invariant
            i <= frames@.len(),
            picks@.len() == i,
            forall|j: int| 0 <= j < i ==> #[trigger] picks@[j] == j,
        decreases frames@.len() - i,
    {
        picks.push(i);
        i += 1;
    }
    proof {
        assert(pick(frames@, picks@) =~= frames@);
    }
    let f = mean_of_picks(frames, &picks);
    Ok(f)
}

proof fn lemma_sum_of_copies(frames: Seq<Frame>, f: Frame, p: int)
    requires
        forall|i: int| 0 <= i < frames.len() ==> #[trigger] frames[i] == f,
    ensures
        sample_sum(frames, p) == frames.len() * (f.pixels()[p] as int),
    decreases frames.len(),
{
    if frames.len() > 0 {
        let rest = frames.drop_last();
        assert forall|i: int| 0 <= i < rest.len() implies #[trigger] rest[i] == f by {
            assert(rest[i] == frames[i]);
        }
        lemma_sum_of_copies(rest, f, p);
        assert(frames.last() == f);
        assert(frames.len() * (f.pixels()[p] as int) == rest.len() * (f.pixels()[p] as int) + (
        f.pixels()[p] as int)) by (nonlinear_arith)
            requires
                frames.len() == rest.len() + 1,
        ;
    }
}

/// Averaging any number of copies of one valid frame gives back exactly that
/// frame's samples: dividing by the true count leaves no drift.
pub proof fn lemma_mean_of_copies(frames: Seq<Frame>)
    requires
        frames.len() > 0,
        frames[0].is_valid(),
        forall|i: int| 0 <= i < frames.len() ==> #[trigger] frames[i] == frames[0],
    ensures
        mean_pixels(frames) == frames[0].pixels(),
{
    let f = frames[0];
    assert forall|p: int| 0 <= p < f.pixels().len() implies #[trigger] mean_pixels(frames)[p]
        == f.pixels()[p] by {
        lemma_sum_of_copies(frames, f, p);
        lemma_div_multiples_vanish(f.pixels()[p] as int, frames.len() as int);
    }
    assert(mean_pixels(frames) =~= f.pixels());
}

/// The mean does not depend on the order of the frames: any reordering of a
/// batch of one shape has the same mean.
pub proof fn lemma_mean_order_invariant(a: Seq<Frame>, b: Seq<Frame>)
    requires
        a.len() > 0,
        uniform(a),
        a.to_multiset() == b.to_multiset(),
    ensures
        b.len() == a.len(),
        uniform(b),
        b[0].shape() == a[0].shape(),
        mean_pixels(b) == mean_pixels(a),
{
    broadcast use vstd::seq_lib::group_to_multiset_ensures;

    assert(b.len() == a.len()) by {
        a.to_multiset_ensures();
        b.to_multiset_ensures();
    }
    assert forall|i: int| 0 <= i < b.len() implies #[trigger] b[i].shape() == a[0].shape() by {
        a.to_multiset_ensures();
        b.to_multiset_ensures();
        assert(b.contains(b[i]));
        assert(b.to_multiset().count(b[i]) > 0);
        assert(a.to_multiset().count(b[i]) > 0);
        assert(a.contains(b[i]));
        let j = choose|j: int| 0 <= j < a.len() && a[j] == b[i];
        assert(a[j].shape() == a[0].shape());
    }
    assert forall|p: int| 0 <= p < shape_len(a[0].shape()) implies #[trigger] mean_pixels(b)[p]
        == mean_pixels(a)[p] by {
        let f = |acc: int, fr: Frame| acc + fr.pixels()[p] as int;
        assert(commutative_foldl(f));
        lemma_fold_left_permutation(a, b, f, 0int);
        assert(sample_sum(a, p) == a.fold_left(0int, f));
        assert(sample_sum(b, p) == b.fold_left(0int, f));
    }
    assert(mean_pixels(b) =~= mean_pixels(a));
}

} // verus!
