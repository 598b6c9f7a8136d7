//! Bounded history of the most recently commanded duty values: a
//! fixed-capacity ring buffer that evicts the oldest entry once full.
//! It serves both as the smoother's lookback and as the anomaly
//! detector's sliding window.

use vstd::prelude::*;

verus! {

/// How many commanded duties the history retains.
pub const HISTORY_CAPACITY: u8 = 5;

/// Ring buffer of the last five commanded duty values. Abstractly it
/// is the sequence of retained duties, oldest first.
pub struct RateHistory {
    rates: [u8; 5],
    start: u8,
    len: u8,
}

impl View for RateHistory {
    type V = Seq<u8>;

    closed spec fn view(&self) -> Seq<u8> {
        Seq::new(self.len as nat, |i: int| self.rates@[(self.start + i) % 5])
    }
}

/// What one push does to the retained sequence: append, evicting the
/// oldest entry first when the buffer is at capacity.
pub open spec fn push_model(h: Seq<u8>, v: u8) -> Seq<u8> {
    if h.len() < HISTORY_CAPACITY {
        h.push(v)
    } else {
        h.drop_first().push(v)
    }
}

/// The retained window after pushing each element of `vs`, in order,
/// into an empty history.
pub open spec fn pushed_all(vs: Seq<u8>) -> Seq<u8>
    decreases vs.len(),
{
    if vs.len() == 0 {
        Seq::empty()
    } else {
        push_model(pushed_all(vs.drop_last()), vs.last())
    }
}

impl RateHistory {
    /// Internal consistency: indices in range, and the buffer only
    /// wraps once it has filled.
    pub closed spec fn wf(&self) -> bool {
        &&& self.start < 5
        &&& self.len <= 5
        &&& (self.len < 5 ==> self.start == 0)
    }

    /// An empty history.
    pub fn new() -> (h: RateHistory)
        ensures
            h.wf(),
            h@ == Seq::<u8>::empty(),
    {
        let h = RateHistory { rates: [0; 5], start: 0, len: 0 };
        proof {
            assert(h@ =~= Seq::<u8>::empty());
        }
        h
    }

    /// Append a commanded duty. Below capacity this extends the
    /// sequence; at capacity it overwrites the oldest entry, which is
    /// the intended policy, never an error.
    pub fn push(&mut self, rate: u8)
        requires
            old(self).wf(),
        ensures
            final(self).wf(),
            final(self)@ == push_model(old(self)@, rate),
    {
        if self.len == 5 {
            self.rates[self.start as usize] = rate;
            self.start = (self.start + 1) % 5;
        } else {
            self.rates[self.len as usize] = rate;
            self.len = self.len + 1;
        }
        proof {
            assert(self@ =~= push_model(old(self)@, rate));
        }
    }

    /// The retained duties, oldest to newest; the length is the
    /// current occupancy.
    pub fn rates(&self) -> (r: Vec<u8>)
        requires
            self.wf(),
        ensures
            r@ == self@,
    {
        let mut r: Vec<u8> = Vec::new();
        let mut i: u8 = 0;
        while i < self.len
            invariant
                self.wf(),
                i <= self.len,
                r@ == self@.take(i as int),
            decreases self.len - i,
        {
            let idx: u8 = (self.start + i) % 5;
            r.push(self.rates[idx as usize]);
            i = i + 1;
            proof {
                assert(r@ =~= self@.take(i as int));
            }
        }
        proof {
            assert(self@.take(self.len as int) =~= self@);
        }
        r
    }

    /// The most recently pushed duty, if any.
    pub fn last(&self) -> (r: Option<u8>)
        requires
            self.wf(),
        ensures
            match r {
                Option::Some(v) => self@.len() > 0 && v == self@.last(),
                Option::None => self@.len() == 0,
            },
    {
        if self.len == 0 {
            Option::None
        } else {
            let idx: u8 = (self.start + (self.len - 1)) % 5;
            Option::Some(self.rates[idx as usize])
        }
    }

    /// True exactly when the history holds its full five entries.
    pub fn full(&self) -> (b: bool)
        requires
            self.wf(),
        ensures
            b == (self@.len() == HISTORY_CAPACITY),
    {
        self.len == 5
    }
}

impl Default for RateHistory {
    /// An empty history.
    fn default() -> (h: RateHistory)
        ensures
            h.wf(),
            h@ == Seq::<u8>::empty(),
    {
        RateHistory::new()
    }
}

/// Pushing a run of values into an empty history retains exactly the
/// last five of them (all of them, if there are five or fewer), in
/// order of arrival.
pub proof fn lemma_history_window(vs: Seq<u8>)
    ensures
        vs.len() <= HISTORY_CAPACITY ==> pushed_all(vs) == vs,
        vs.len() > HISTORY_CAPACITY ==> pushed_all(vs) == vs.skip(
            vs.len() - HISTORY_CAPACITY,
        ),
        pushed_all(vs).len() == vstd::math::min(vs.len() as int, HISTORY_CAPACITY as int),
    decreases vs.len(),
{
    if vs.len() == 0 {
        assert(pushed_all(vs) =~= vs);
    } else {
        lemma_history_window(vs.drop_last());
        if vs.len() <= HISTORY_CAPACITY {
            assert(pushed_all(vs) =~= vs);
        } else {
            assert(pushed_all(vs) =~= vs.skip(vs.len() - HISTORY_CAPACITY));
        }
    }
}

} // verus!
