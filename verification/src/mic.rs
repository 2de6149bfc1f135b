use vstd::prelude::*;
use crate::queue::{SampleConsumer, consumed, drain_samples};
use crate::sliding::{SlidingWindow, fit_spec, pad_spec, lemma_fresh_window_is_silence};

verus! {

/// A freshly started adapter that has drained nothing yet reads out a full
/// window of pure silence, whatever the window size.
pub proof fn lemma_fresh_adapter_reads_silence(size: int, drained: Seq<i32>)
    requires
        size >= 1,
        drained.len() == 0,
    ensures
        fit_spec(size, Seq::<i32>::empty() + drained).len() == 0,
        pad_spec(size, fit_spec(size, Seq::<i32>::empty() + drained)).len() == size,
        forall|k: int|
            0 <= k < size ==> pad_spec(size, fit_spec(size, Seq::<i32>::empty() + drained))[k]
                == 0i32,
{
    assert(Seq::<i32>::empty() + drained =~= Seq::<i32>::empty());
    lemma_fresh_window_is_silence(size);
}

/// The capture adapter's core: consumes the samples a live input callback has
/// pushed into the shared queue, and keeps the sliding window of the most
/// recent ones. The platform stream that feeds the producer half lives with the
/// caller and must stay alive for capture to continue.
pub struct MicCapture {
    consumer: SampleConsumer,
    window: SlidingWindow,
    pub sample_rate: u32,
}

impl MicCapture {
    /// The source's sample rate, as the contracts see it.
    pub closed spec fn rate_spec(self) -> u32 {
        self.sample_rate
    }

    /// Everything this adapter has drained from its queue so far, oldest first.
    pub closed spec fn taken(self) -> Seq<i32> {
        consumed(self.consumer)
    }

    /// The sliding window's current contents, oldest first.
    pub closed spec fn win(self) -> Seq<i32> {
        self.window@
    }

    pub fn new(consumer: SampleConsumer, sample_rate: u32) -> (m: MicCapture)
        ensures
            m.taken() == consumed(consumer),
            m.win() == Seq::<i32>::empty(),
            m.rate_spec() == sample_rate,
    {
        MicCapture { consumer, window: SlidingWindow::new(), sample_rate }
    }

    /// Drains every newly captured sample into the sliding window, then writes
    /// the latest `size` samples into `out`, oldest first, left-padded with
    /// silence while fewer than `size` samples have ever arrived. Non-blocking:
    /// it never waits for the producer.
    pub fn read_window(&mut self, out: &mut Vec<i32>, size: usize)
        requires
            size >= 1,
        ensures
            final(self).rate_spec() == old(self).rate_spec(),
            old(self).taken().is_prefix_of(final(self).taken()),
            final(self).win() == fit_spec(
                size as int,
                old(self).win() + final(self).taken().skip(old(self).taken().len() as int),
            ),
            final(out)@.len() == size,
            final(out)@ == pad_spec(size as int, final(self).win()),
    {
        let drained = drain_samples(&mut self.consumer);
        proof {
            assert((consumed(old(self).consumer) + drained@).skip(consumed(old(self).consumer).len()
                as int) =~= drained@);
            assert(consumed(old(self).consumer).is_prefix_of(
                consumed(old(self).consumer) + drained@,
            ));
        }
        self.window.push_all(&drained, size);
        self.window.copy_out(out, size);
    }
}

} // verus!
