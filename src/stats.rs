//! Bounded rolling statistics: a moving average and a short history.
use std::collections::VecDeque;
use vstd::prelude::*;

verus! {

/// Sum of a sequence of samples.
pub open spec fn seq_sum(s: Seq<u64>) -> int
    decreases s.len(),
{
    if s.len() == 0 {
        0
    } else {
        s[0] + seq_sum(s.drop_first())
    }
}

/// The last `k` elements of `s` (all of `s` when it is shorter).
pub open spec fn keep_last(s: Seq<u64>, k: nat) -> Seq<u64> {
    if s.len() <= k {
        s
    } else {
        s.subrange(s.len() - k, s.len() as int)
    }
}

/// Mean of the samples, rounded down; 0 for none.
pub open spec fn mean(s: Seq<u64>) -> int {
    if s.len() == 0 {
        0
    } else {
        seq_sum(s) / s.len() as int
    }
}

pub proof fn lemma_sum_push(s: Seq<u64>, x: u64)
    ensures
        seq_sum(s.push(x)) == seq_sum(s) + x,
    decreases s.len(),
{
    let t = s.push(x);
    if s.len() == 0 {
        assert(t.drop_first() =~= Seq::<u64>::empty());
        assert(seq_sum(t.drop_first()) == 0);
        assert(t[0] == x);
    } else {
        assert(t.drop_first() =~= s.drop_first().push(x));
        assert(t[0] == s[0]);
        lemma_sum_push(s.drop_first(), x);
    }
}

pub proof fn lemma_sum_bound(s: Seq<u64>)
    ensures
        0 <= seq_sum(s) <= s.len() * u64::MAX,
    decreases s.len(),
{
    if s.len() > 0 {
        lemma_sum_bound(s.drop_first());
    }
}

/// Fixed-capacity FIFO of the most recent samples, oldest first.
#[derive(Debug)]
pub struct History {
    data: VecDeque<u64>,
    max_len: usize,
}

impl View for History {
    type V = Seq<u64>;

    closed spec fn view(&self) -> Seq<u64> {
        self.data@
    }
}

impl History {
    /// The number of samples kept.
    pub closed spec fn capacity(&self) -> nat {
        self.max_len as nat
    }

    #[verifier::type_invariant]
    spec fn within_capacity(self) -> bool {
        self.data@.len() <= self.max_len
    }

    pub fn new(max_len: usize) -> (h: Self)
        ensures
            h@ == Seq::<u64>::empty(),
            h.capacity() == max_len,
    {
        History { data: VecDeque::new(), max_len }
    }

    /// Appends a sample, evicting the oldest ones beyond the capacity.
    pub fn push(&mut self, value: u64)
        ensures
            final(self).capacity() == old(self).capacity(),
            final(self)@ == keep_last(old(self)@.push(value), old(self).capacity()),
    {
        proof {
            use_type_invariant(&*self);
        }
        if self.max_len == 0 {
            assert(old(self)@.push(value).subrange(1, 1) =~= Seq::<u64>::empty());
            return;
        }
        let ghost before = self.data@;
        let mut data = VecDeque::new();
        std::mem::swap(&mut data, &mut self.data);
        if data.len() == self.max_len {
            data.pop_front();
        }
        data.push_back(value);
        self.data = data;
        proof {
            let s = before.push(value);
            if before.len() == self.max_len {
                assert(self.data@ =~= s.subrange(s.len() - self.max_len, s.len() as int));
            }
        }
    }

    /// The samples, oldest first.
    pub fn values(&self) -> (v: Vec<u64>)
        ensures
            v@ == self@,
    {
        let mut v: Vec<u64> = Vec::new();
        let mut i: usize = 0;
        while i < self.data.len()
            invariant
                i <= self.data@.len(),
                v@ == self.data@.subrange(0, i as int),
            decreases self.data@.len() - i,
        {
            v.push(self.data[i]);
            assert(v@ =~= self.data@.subrange(0, i + 1));
            i += 1;
        }
        assert(v@ =~= self.data@);
        v
    }
}

/// Moving average over a window of the most recent samples; the running sum is
/// kept exact.
#[derive(Debug)]
pub struct RollingAverage {
    data: VecDeque<u64>,
    max_len: usize,
    sum: u128,
}

impl View for RollingAverage {
    type V = Seq<u64>;

    closed spec fn view(&self) -> Seq<u64> {
        self.data@
    }
}

impl RollingAverage {
    /// The window length.
    pub closed spec fn window(&self) -> nat {
        self.max_len as nat
    }

    #[verifier::type_invariant]
    spec fn sum_matches(self) -> bool {
        &&& self.data@.len() <= self.max_len
        &&& self.sum == seq_sum(self.data@)
    }

    pub fn new(max_len: usize) -> (r: Self)
        ensures
            r@ == Seq::<u64>::empty(),
            r.window() == max_len,
    {
        RollingAverage { data: VecDeque::new(), max_len, sum: 0 }
    }

    /// Adds a sample, evicting the oldest one when the window is full. A window
    /// of length 0 keeps nothing.
    pub fn push(&mut self, value: u64)
        ensures
            final(self).window() == old(self).window(),
            final(self)@ == keep_last(old(self)@.push(value), old(self).window()),
    {
        proof {
            use_type_invariant(&*self);
        }
        if self.max_len == 0 {
            assert(old(self)@.push(value).subrange(1, 1) =~= Seq::<u64>::empty());
            return;
        }
        let ghost before = self.data@;
        let mut taken = RollingAverage::new(self.max_len);
        std::mem::swap(&mut taken, self);
        proof {
            use_type_invariant(&taken);
        }
        let RollingAverage { mut data, max_len, mut sum } = taken;
        if data.len() == max_len {
            proof {
                lemma_sum_bound(data@.drop_first());
            }
            let front = data.pop_front();
            if let Some(f) = front {
                assert(data@ =~= before.drop_first());
                sum = sum - f as u128;
            }
        }
        proof {
            lemma_sum_push(data@, value);
            lemma_sum_bound(data@.push(value));
            assert((data@.len() + 1) * u64::MAX <= u128::MAX) by (nonlinear_arith)
                requires
                    data@.len() + 1 <= usize::MAX,
                    usize::MAX <= u64::MAX,
            ;
        }
        data.push_back(value);
        sum = sum + value as u128;
        proof {
            let s = before.push(value);
            if before.len() == max_len {
                assert(data@ =~= s.subrange(s.len() - max_len, s.len() as int));
            }
        }
        *self = RollingAverage { data, max_len, sum };
    }

    /// Mean of the samples in the window, rounded down; 0 when it is empty.
    pub fn average(&self) -> (avg: u64)
        ensures
            avg == mean(self@),
    {
        proof {
            use_type_invariant(self);
            lemma_sum_bound(self.data@);
        }
        let n = self.data.len();
        if n == 0 {
            0
        } else {
            proof {
                assert((self.sum as int) / (n as int) <= u64::MAX) by (nonlinear_arith)
                    requires
                        n > 0,
                        self.sum <= n * u64::MAX,
                ;
            }
            (self.sum / n as u128) as u64
        }
    }
}

} // verus!
