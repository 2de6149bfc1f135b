use vstd::prelude::*;

verus! {

/// What remains of a sample history in a window of capacity `cap`: the most
/// recent `cap` elements, oldest first.
pub open spec fn fit_spec(cap: int, s: Seq<i32>) -> Seq<i32> {
    if s.len() <= cap {
        s
    } else {
        s.skip(s.len() - cap)
    }
}

/// A window's read-out at a given size: the last `size` elements, left-padded
/// with zeros (silence) when fewer samples have ever arrived.
pub open spec fn pad_spec(size: int, s: Seq<i32>) -> Seq<i32> {
    if s.len() >= size {
        s.skip(s.len() - size)
    } else {
        Seq::new((size - s.len()) as nat, |i: int| 0i32) + s
    }
}

pub proof fn lemma_fit_push(cap: int, s: Seq<i32>, x: i32)
    requires
        cap >= 1,
    ensures
        fit_spec(cap, fit_spec(cap, s).push(x)) == fit_spec(cap, s.push(x)),
{
    if s.len() < cap {
        assert(fit_spec(cap, s) == s);
    } else {
        let t = s.skip(s.len() - cap);
        assert(fit_spec(cap, t.push(x)) =~= fit_spec(cap, s.push(x)));
    }
}

/// A window that has never received a sample reads out as pure silence.
pub proof fn lemma_fresh_window_is_silence(size: int)
    requires
        size >= 0,
    ensures
        pad_spec(size, Seq::<i32>::empty()).len() == size,
        forall|k: int| 0 <= k < size ==> pad_spec(size, Seq::<i32>::empty())[k] == 0i32,
{
}

/// A fixed-capacity, time-ordered buffer of the most recent audio samples:
/// pushing past the cap evicts the oldest element, and reading out always
/// yields a full-size window, silence-padded while the history is short.
pub struct SlidingWindow {
    buf: Vec<i32>,
}

impl View for SlidingWindow {
    type V = Seq<i32>;

    closed spec fn view(&self) -> Seq<i32> {
        self.buf@
    }
}

impl SlidingWindow {
    pub fn new() -> (w: SlidingWindow)
        ensures
            w@ == Seq::<i32>::empty(),
    {
        SlidingWindow { buf: Vec::new() }
    }

    pub fn len(&self) -> (n: usize)
        ensures
            n == self@.len(),
    {
        self.buf.len()
    }

    /// Drops the oldest samples until at most `cap` are held.
    fn trim(&mut self, cap: usize)
        requires
            cap >= 1,
        ensures
            final(self)@ == fit_spec(cap as int, old(self)@),
    {
        let ghost target = old(self)@;
        while self.buf.len() > cap
            invariant
                cap >= 1,
                fit_spec(cap as int, self.buf@) == fit_spec(cap as int, target),
            decreases self.buf@.len(),
        {
            proof {
                let s = self.buf@;
                assert(fit_spec(cap as int, s.remove(0)) =~= fit_spec(cap as int, s));
            }
            self.buf.remove(0);
        }
        proof {
            assert(fit_spec(cap as int, self.buf@) == self.buf@);
        }
    }

    /// Appends one sample; once more than `cap` samples are held, the oldest go.
    pub fn push(&mut self, v: i32, cap: usize)
        requires
            cap >= 1,
        ensures
            final(self)@ == fit_spec(cap as int, old(self)@.push(v)),
    {
        self.buf.push(v);
        self.trim(cap);
    }

    /// Appends a batch of drained samples, oldest first, evicting as it goes.
    pub fn push_all(&mut self, xs: &Vec<i32>, cap: usize)
        requires
            cap >= 1,
        ensures
            final(self)@ == fit_spec(cap as int, old(self)@ + xs@),
    {
        self.trim(cap);
        proof {
            assert(old(self)@ + xs@.take(0) =~= old(self)@);
        }
        let mut i: usize = 0;
        while i < xs.len()
            invariant
                cap >= 1,
                i <= xs@.len(),
                self@ == fit_spec(cap as int, old(self)@ + xs@.take(i as int)),
            decreases xs@.len() - i,
        {
            proof {
                lemma_fit_push(cap as int, old(self)@ + xs@.take(i as int), xs@[i as int]);
                assert((old(self)@ + xs@.take(i as int)).push(xs@[i as int]) =~= old(self)@
                    + xs@.take(i as int + 1));
            }
            self.push(xs[i], cap);
            i = i + 1;
        }
        proof {
            assert(old(self)@ + xs@.take(xs@.len() as int) =~= old(self)@ + xs@);
        }
    }

    /// Writes the window's current contents, oldest first, into `out`: exactly
    /// `size` samples, left-padded with silence when the history is shorter.
    pub fn copy_out(&self, out: &mut Vec<i32>, size: usize)
        ensures
            final(out)@.len() == size,
            final(out)@ == pad_spec(size as int, self@),
    {
        out.clear();
        let len = self.buf.len();
        let start: usize = if len > size {
            len - size
        } else {
            0
        };
        let pad: usize = size - (len - start);
        let mut i: usize = 0;
        while i < pad
            invariant
                i <= pad,
                out@.len() == i,
                forall|k: int| 0 <= k < i ==> out@[k] == 0i32,
            decreases pad - i,
        {
            out.push(0);
            i = i + 1;
        }
        let mut j: usize = start;
        while j < len
            invariant
                start <= j <= len,
                len == self.buf@.len(),
                out@.len() == pad + (j - start),
                forall|k: int| 0 <= k < pad ==> out@[k] == 0i32,
                forall|k: int|
                    pad <= k < pad + (j - start) ==> #[trigger] out@[k] == self.buf@[start + k
                        - pad],
            decreases len - j,
        {
            out.push(self.buf[j]);
            j = j + 1;
        }
        proof {
            assert(out@ =~= pad_spec(size as int, self@));
        }
    }
}

} // verus!
