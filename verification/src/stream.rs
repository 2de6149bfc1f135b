use vstd::prelude::*;
use crate::queue::{SampleConsumer, SampleProducer, consumed, produced, pop_sample, push_sample,
    drain_samples};
use crate::sliding::{SlidingWindow, fit_spec, pad_spec};

verus! {

/// The fixed output rate of the decoded network stream, in Hz.
pub const OUT_SAMPLE_RATE: u32 = 44_100;

/// `a` is an order-preserving subsequence of `b`: every element of `a` appears
/// in `b`, in the same order.
pub open spec fn subseq_of(a: Seq<i32>, b: Seq<i32>) -> bool
    decreases b.len(),
{
    if a.len() == 0 {
        true
    } else if b.len() == 0 {
        false
    } else {
        subseq_of(a, b.drop_last()) || (a.last() == b.last() && subseq_of(
            a.drop_last(),
            b.drop_last(),
        ))
    }
}

pub proof fn lemma_subseq_push_both(a: Seq<i32>, b: Seq<i32>, x: i32)
    requires
        subseq_of(a, b),
    ensures
        subseq_of(a.push(x), b.push(x)),
{
    assert(a.push(x).drop_last() =~= a);
    assert(b.push(x).drop_last() =~= b);
    assert(a.push(x).last() == x && b.push(x).last() == x);
}

pub proof fn lemma_subseq_push_right(a: Seq<i32>, b: Seq<i32>, x: i32)
    requires
        subseq_of(a, b),
    ensures
        subseq_of(a, b.push(x)),
{
    assert(b.push(x).drop_last() =~= b);
    if a.len() > 0 {
        assert(subseq_of(a, b.push(x).drop_last()));
    }
}

/// The playback-time tee of the network-stream source: each call pops the next
/// decoded sample for the output device (silence when the decoder is behind)
/// and forwards a best-effort copy into the visualization queue. The visualizer
/// therefore observes exactly what is audible, by construction rather than by
/// clock alignment: the forwarded history is always an order-preserving
/// subsequence of the output history.
pub struct StreamTee {
    audio: SampleConsumer,
    viz: SampleProducer,
    outputs: Ghost<Seq<i32>>,
}

impl StreamTee {
    /// Every sample handed to the output device so far, oldest first.
    pub closed spec fn sent(self) -> Seq<i32> {
        self.outputs@
    }

    /// Every sample forwarded into the visualization queue so far, oldest first.
    pub closed spec fn forwarded(self) -> Seq<i32> {
        produced(self.viz)
    }

    /// The sync invariant: what the visualizer receives is, in value and order,
    /// part of what was sent to the output device.
    pub closed spec fn wf(self) -> bool {
        subseq_of(produced(self.viz), self.outputs@)
    }

    pub fn new(audio: SampleConsumer, viz: SampleProducer) -> (t: StreamTee)
        requires
            produced(viz) == Seq::<i32>::empty(),
        ensures
            t.wf(),
            t.sent() == Seq::<i32>::empty(),
            t.forwarded() == Seq::<i32>::empty(),
    {
        let t = StreamTee { audio, viz, outputs: Ghost(Seq::empty()) };
        proof {
            assert(subseq_of(produced(t.viz), t.outputs@));
        }
        t
    }

    /// One playback step: the returned sample goes to the output device, and the
    /// same sample is forwarded to the visualization queue unless that queue is
    /// momentarily full (a drop there is preferred over blocking playback).
    pub fn next_sample(&mut self) -> (s: i32)
        requires
            old(self).wf(),
        ensures
            final(self).wf(),
            final(self).sent() == old(self).sent().push(s),
            subseq_of(final(self).forwarded(), final(self).sent()),
    {
        let s = match pop_sample(&mut self.audio) {
            Some(v) => v,
            None => 0,
        };
        let ok = push_sample(&mut self.viz, s);
        proof {
            if ok {
                lemma_subseq_push_both(produced(old(self).viz), old(self).outputs@, s);
            } else {
                lemma_subseq_push_right(produced(old(self).viz), old(self).outputs@, s);
            }
        }
        self.outputs = Ghost(self.outputs@.push(s));
        s
    }
}

/// The network-stream adapter's core: the analysis side of the visualization
/// queue that a `StreamTee` feeds at playback time. Reading a window drains the
/// queue into the same sliding-window logic every adapter shares.
pub struct UrlStream {
    consumer: SampleConsumer,
    window: SlidingWindow,
    pub sample_rate: u32,
}

impl UrlStream {
    /// The source's sample rate, as the contracts see it.
    pub closed spec fn rate_spec(self) -> u32 {
        self.sample_rate
    }

    /// Everything this adapter has drained from its queue so far, oldest first.
    pub closed spec fn taken(self) -> Seq<i32> {
        consumed(self.consumer)
    }

    /// The sliding window's current contents, oldest first.
    pub closed spec fn win(self) -> Seq<i32> {
        self.window@
    }

    pub fn new(consumer: SampleConsumer) -> (u: UrlStream)
        ensures
            u.taken() == consumed(consumer),
            u.win() == Seq::<i32>::empty(),
            u.rate_spec() == OUT_SAMPLE_RATE,
    {
        UrlStream { consumer, window: SlidingWindow::new(), sample_rate: OUT_SAMPLE_RATE }
    }

    /// Drains every newly played sample into the sliding window, then writes the
    /// latest `size` samples into `out`, oldest first, left-padded with silence
    /// while fewer than `size` samples have ever arrived. Non-blocking.
    pub fn read_window(&mut self, out: &mut Vec<i32>, size: usize)
        requires
            size >= 1,
        ensures
            final(self).rate_spec() == old(self).rate_spec(),
            old(self).taken().is_prefix_of(final(self).taken()),
            final(self).win() == fit_spec(
                size as int,
                old(self).win() + final(self).taken().skip(old(self).taken().len() as int),
            ),
            final(out)@.len() == size,
            final(out)@ == pad_spec(size as int, final(self).win()),
    {
        let drained = drain_samples(&mut self.consumer);
        proof {
            assert((consumed(old(self).consumer) + drained@).skip(consumed(old(self).consumer).len()
                as int) =~= drained@);
            assert(consumed(old(self).consumer).is_prefix_of(
                consumed(old(self).consumer) + drained@,
            ));
        }
        self.window.push_all(&drained, size);
        self.window.copy_out(out, size);
    }
}

} // verus!
