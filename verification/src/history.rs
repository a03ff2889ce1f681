use vstd::prelude::*;

verus! {

/// How many samples a history keeps: 150 samples, about 75 seconds at two
/// samples a second.
pub const HISTORY_CAPACITY: usize = 150;

/// The most recent `HISTORY_CAPACITY` entries of `s`.
pub open spec fn keep_recent<T>(s: Seq<T>) -> Seq<T> {
    if s.len() > HISTORY_CAPACITY {
        s.skip(s.len() - HISTORY_CAPACITY)
    } else {
        s
    }
}

/// The history that results from pushing every value of `xs`, in order,
/// onto an empty history.
pub open spec fn pushed_all<T>(xs: Seq<T>) -> Seq<T>
    decreases xs.len(),
{
    if xs.len() == 0 {
        Seq::empty()
    } else {
        keep_recent(pushed_all(xs.drop_last()).push(xs.last()))
    }
}

/// A bounded series of samples: pushing beyond the capacity drops the
/// oldest sample.
pub struct History<T> {
    samples: Vec<T>,
}

impl<T> View for History<T> {
    type V = Seq<T>;

    closed spec fn view(&self) -> Seq<T> {
        self.samples@
    }
}

impl<T> History<T> {
    #[verifier::type_invariant]
    spec fn within_capacity(self) -> bool {
        self.samples.len() <= HISTORY_CAPACITY
    }

    /// An empty history.
    pub fn new() -> (h: Self)
        ensures
            h@ == Seq::<T>::empty(),
    {
        History { samples: Vec::new() }
    }

    /// Appends a sample, dropping the oldest one when the history is full.
    pub fn push(&mut self, x: T)
        ensures
            final(self)@ == keep_recent(old(self)@.push(x)),
            final(self)@.len() <= HISTORY_CAPACITY,
            final(self)@.last() == x,
    {
        proof {
            use_type_invariant(&*self);
        }
        let mut samples: Vec<T> = Vec::new();
        std::mem::swap(&mut samples, &mut self.samples);
        samples.push(x);
        if samples.len() > HISTORY_CAPACITY {
            samples.remove(0);
        }
        let ghost pushed = old(self)@.push(x);
        assert(samples@ =~= keep_recent(pushed));
        self.samples = samples;
    }

    /// Number of samples held; never more than `HISTORY_CAPACITY`.
    pub fn len(&self) -> (n: usize)
        ensures
            n == self@.len(),
            n <= HISTORY_CAPACITY,
    {
        proof {
            use_type_invariant(self);
        }
        self.samples.len()
    }

    /// The samples, oldest first.
    pub fn values(&self) -> (s: &[T])
        ensures
            s@ == self@,
    {
        self.samples.as_slice()
    }
}

impl History<u64> {
    /// The most recent sample, or 0 while the history is empty.
    pub fn latest(&self) -> (v: u64)
        ensures
            v == (if self@.len() == 0 {
                0
            } else {
                self@.last()
            }),
    {
        let n: usize = self.samples.len();
        if n == 0 {
            0
        } else {
            self.samples[n - 1]
        }
    }
}

/// Pushing onto a history gives what pushing onto the full, untrimmed series
/// and then keeping the most recent samples gives.
pub proof fn lemma_push_keeps_recent<T>(s: Seq<T>, x: T)
    ensures
        keep_recent(keep_recent(s).push(x)) == keep_recent(s.push(x)),
{
    assert(keep_recent(keep_recent(s).push(x)) =~= keep_recent(s.push(x)));
}

/// A history fed with the values `xs` holds exactly the last
/// `HISTORY_CAPACITY` of them (all of them while there are fewer), oldest
/// first.
pub proof fn lemma_history_is_recent_window<T>(xs: Seq<T>)
    ensures
        pushed_all(xs) == keep_recent(xs),
    decreases xs.len(),
{
    if xs.len() > 0 {
        lemma_history_is_recent_window(xs.drop_last());
        lemma_push_keeps_recent(xs.drop_last(), xs.last());
        assert(xs.drop_last().push(xs.last()) =~= xs);
    }
}

} // verus!
