use vstd::prelude::*;

verus! {

/// The producer half of a lock-free single-producer single-consumer queue of
/// fixed-point mono samples. The two halves are created together and cannot be
/// duplicated, so exactly one thread produces and exactly one consumes.
#[verifier::external_body]
pub struct SampleProducer {
    inner: ringbuf::HeapProducer<i32>,
}

/// The consumer half of the queue.
#[verifier::external_body]
pub struct SampleConsumer {
    inner: ringbuf::HeapConsumer<i32>,
}

/// Every sample this producer handle has ever accepted, oldest first.
pub uninterp spec fn produced(p: SampleProducer) -> Seq<i32>;

/// Every sample this consumer handle has ever handed out, oldest first.
pub uninterp spec fn consumed(c: SampleConsumer) -> Seq<i32>;

/// Relies on ringbuf::HeapRb::new and SharedRb::split: a bounded FIFO split
/// into one producer and one consumer handle, with no traffic yet on either.
#[verifier::external_body]
pub fn new_sample_queue(capacity: usize) -> (r: (SampleProducer, SampleConsumer))
    requires
        capacity >= 1,
    ensures
        produced(r.0) == Seq::<i32>::empty(),
        consumed(r.1) == Seq::<i32>::empty(),
{
    let (p, c) = ringbuf::HeapRb::<i32>::new(capacity).split();
    (SampleProducer { inner: p }, SampleConsumer { inner: c })
}

/// Relies on ringbuf::Producer::push: appends one sample if the queue has room
/// and reports whether it was accepted; it never blocks, and a full queue drops
/// the sample rather than waiting.
#[verifier::external_body]
pub fn push_sample(p: &mut SampleProducer, v: i32) -> (ok: bool)
    ensures
        ok ==> produced(*final(p)) == produced(*old(p)).push(v),
        !ok ==> produced(*final(p)) == produced(*old(p)),
{
    p.inner.push(v).is_ok()
}

/// Relies on ringbuf::Consumer::pop: removes and returns the oldest queued
/// sample without blocking; an empty queue yields None.
#[verifier::external_body]
pub fn pop_sample(c: &mut SampleConsumer) -> (r: Option<i32>)
    ensures
        match r {
            Some(v) => consumed(*final(c)) == consumed(*old(c)).push(v),
            None => consumed(*final(c)) == consumed(*old(c)),
        },
{
    c.inner.pop()
}

/// Relies on ringbuf::Consumer::pop_iter: removes every sample currently
/// available in the queue, oldest first, without blocking.
#[verifier::external_body]
pub fn drain_samples(c: &mut SampleConsumer) -> (r: Vec<i32>)
    ensures
        consumed(*final(c)) == consumed(*old(c)) + r@,
{
    c.inner.pop_iter().collect()
}

} // verus!
