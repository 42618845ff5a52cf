use vstd::prelude::*;

use bounded_vec_deque::BoundedVecDeque;

use crate::error::BlendError;

verus! {

#[verifier::external_type_specification]
#[verifier::external_body]
#[verifier::reject_recursive_types(T)]
pub struct ExBoundedVecDeque<T>(BoundedVecDeque<T>);

/// The elements of a bounded deque, front (oldest) to back (newest).
pub uninterp spec fn deque_items(d: BoundedVecDeque<usize>) -> Seq<usize>;

/// The length limit a bounded deque was made with.
pub uninterp spec fn deque_limit(d: BoundedVecDeque<usize>) -> nat;

/// Relies on `BoundedVecDeque::with_capacity`: the deque starts empty with
/// `max_len` as its length limit. No space is reserved up front, so a large
/// limit allocates nothing.
#[verifier::external_body]
fn deque_with_limit(max_len: usize) -> (d: BoundedVecDeque<usize>)
    ensures
        deque_items(d) == Seq::<usize>::empty(),
        deque_limit(d) == max_len,
{
    BoundedVecDeque::with_capacity(0, max_len)
}

/// Relies on `BoundedVecDeque::push_back`: with a limit of zero the value is
/// handed straight back; otherwise a deque at or over its limit first loses
/// its front element, which is returned, and the value goes to the back. The
/// limit is left as it was.
#[verifier::external_body]
fn deque_push_back(d: &mut BoundedVecDeque<usize>, v: usize) -> (r: Option<usize>)
    ensures
        deque_limit(*final(d)) == deque_limit(*old(d)),
        deque_limit(*old(d)) == 0 ==> deque_items(*final(d)) == deque_items(*old(d)) && r == Some(
            v,
        ),
        deque_limit(*old(d)) > 0 && deque_items(*old(d)).len() >= deque_limit(*old(d))
            ==> deque_items(*final(d)) == deque_items(*old(d)).drop_first().push(v) && r == Some(
            deque_items(*old(d))[0],
        ),
        deque_limit(*old(d)) > 0 && deque_items(*old(d)).len() < deque_limit(*old(d)) ==> deque_items(
            *final(d),
        ) == deque_items(*old(d)).push(v) && r == None::<usize>,
{
    d.push_back(v)
}

/// Relies on `VecDeque::len`, reached through `BoundedVecDeque`'s `Deref`:
/// the number of elements held.
#[verifier::external_body]
fn deque_len(d: &BoundedVecDeque<usize>) -> (r: usize)
    ensures
        r == deque_items(*d).len(),
{
    d.len()
}

/// Relies on `BoundedVecDeque::max_len`: the current length limit.
#[verifier::external_body]
fn deque_max_len(d: &BoundedVecDeque<usize>) -> (r: usize)
    ensures
        r == deque_limit(*d),
{
    d.max_len()
}

/// Relies on `BoundedVecDeque::iter`: the elements front to back, copied out.
#[verifier::external_body]
fn deque_to_vec(d: &BoundedVecDeque<usize>) -> (r: Vec<usize>)
    ensures
        r@ == deque_items(*d),
{
    d.iter().copied().collect()
}

/// The window `w` of capacity `cap` after `x` is pushed: when full, the
/// oldest element leaves first.
pub open spec fn fifo_push(w: Seq<usize>, cap: nat, x: usize) -> Seq<usize> {
    if w.len() < cap {
        w.push(x)
    } else {
        w.drop_first().push(x)
    }
}

/// The contents of a fresh window of capacity `cap` after the elements of
/// `pushed` are pushed in order.
pub open spec fn after_pushes(cap: nat, pushed: Seq<usize>) -> Seq<usize>
    decreases pushed.len(),
{
    if pushed.len() == 0 {
        Seq::empty()
    } else {
        fifo_push(after_pushes(cap, pushed.drop_last()), cap, pushed.last())
    }
}

/// The last `min(len, cap)` elements of `s`, oldest first.
pub open spec fn latest(s: Seq<usize>, cap: nat) -> Seq<usize> {
    if s.len() <= cap {
        s
    } else {
        s.subrange(s.len() - cap, s.len() as int)
    }
}

/// A window never holds more than its capacity, and after any sequence of
/// pushes it holds exactly the most recent `capacity` elements pushed (all
/// of them while fewer were pushed), oldest first.
pub proof fn lemma_window_keeps_latest(cap: nat, pushed: Seq<usize>)
    requires
        cap > 0,
    ensures
        after_pushes(cap, pushed).len() <= cap,
        after_pushes(cap, pushed) == latest(pushed, cap),
    decreases pushed.len(),
{
    if pushed.len() > 0 {
        let rest = pushed.drop_last();
        lemma_window_keeps_latest(cap, rest);
        assert(after_pushes(cap, pushed) =~= latest(pushed, cap));
    }
}

/// A first-in first-out window of fixed capacity over frame positions. It
/// refers to frames by their index in a batch that the caller owns.
pub struct BoundedWindow {
    deque: BoundedVecDeque<usize>,
}

impl BoundedWindow {
    /// The positions held, oldest first.
    pub closed spec fn contents(&self) -> Seq<usize> {
        deque_items(self.deque)
    }

    /// The capacity the window was made with.
    pub closed spec fn bound(&self) -> nat {
        deque_limit(self.deque)
    }

    /// The capacity is at least one and never exceeded.
    pub open spec fn wf(&self) -> bool {
        0 < self.bound() && self.contents().len() <= self.bound()
    }

    /// An empty window that holds at most `capacity` positions. Fails with
    /// `InvalidCapacity` when `capacity` is zero.
    pub fn new(capacity: usize) -> (r: Result<BoundedWindow, BlendError>)
        ensures
            capacity == 0 ==> r == Err::<BoundedWindow, BlendError>(BlendError::InvalidCapacity),
            capacity > 0 ==> r is Ok,
            r matches Ok(w) ==> w.wf() && w.bound() == capacity && w.contents() == Seq::<
                usize,
            >::empty(),
    {
        if capacity == 0 {
            return Err(BlendError::InvalidCapacity);
        }
        Ok(BoundedWindow { deque: deque_with_limit(capacity) })
    }

    /// Appends `frame`, first evicting the oldest position when the window
    /// is full.
    pub fn push(&mut self, frame: usize)
        requires
            old(self).wf(),
        ensures
            final(self).wf(),
            final(self).bound() == old(self).bound(),
            final(self).contents() == fifo_push(old(self).contents(), old(self).bound(), frame),
    {
        let _evicted = deque_push_back(&mut self.deque, frame);
    }

    /// The positions held, oldest first; the window is left unchanged.
    pub fn snapshot(&self) -> (r: Vec<usize>)
        ensures
            r@ == self.contents(),
    {
        deque_to_vec(&self.deque)
    }

    /// The number of positions held.
    pub fn len(&self) -> (r: usize)
        ensures
            r == self.contents().len(),
    {
        deque_len(&self.deque)
    }

    /// The most positions the window can hold.
    pub fn capacity(&self) -> (r: usize)
        ensures
            r == self.bound(),
    {
        deque_max_len(&self.deque)
    }
}

} // verus!
