use std::time::{Duration, Instant};
use vstd::prelude::*;
use vstd::string::*;

verus! {

/// `std::time::Instant`, a reading of the monotonic clock; nothing inside it is seen.
#[verifier::external_type_specification]
#[verifier::external_body]
pub struct ExInstant(std::time::Instant);

/// What `Instant::duration_since` returns: the time that passed from `earlier`
/// to `later`.
pub uninterp spec fn duration_between(later: Instant, earlier: Instant) -> Duration;

/// Calls `Instant::now`. Nothing is known of the instant that comes back.
#[verifier::external_body]
fn now() -> Instant {
    Instant::now()
}

/// Calls `Instant::duration_since` on `later`, which returns the time elapsed
/// from `earlier` to it.
#[verifier::external_body]
fn duration_since(later: &Instant, earlier: &Instant) -> (d: Duration)
    ensures
        d == duration_between(*later, *earlier),
{
    later.duration_since(*earlier)
}

/// A stopwatch with named checkpoints.
pub struct Benchmark {
    start_time: Instant,
    checkpoints: Vec<(String, Instant)>,
}

impl Benchmark {
    /// The instant at which the benchmark was started.
    pub closed spec fn start(&self) -> Instant {
        self.start_time
    }

    /// The checkpoints taken so far, oldest first: each a name and its instant.
    pub closed spec fn marks(&self) -> Seq<(Seq<char>, Instant)> {
        self.checkpoints@.map_values(|p: (String, Instant)| (p.0@, p.1))
    }

    /// The instant that checkpoint `i` is measured from: the start for the
    /// first one, else the checkpoint before it.
    pub open spec fn lap_origin(&self, i: int) -> Instant {
        if i == 0 {
            self.start()
        } else {
            self.marks()[i - 1].1
        }
    }

    /// Starts a benchmark now, with no checkpoint.
    pub fn new() -> (b: Self)
        ensures
            b.marks() == Seq::<(Seq<char>, Instant)>::empty(),
    {
        let b = Self { start_time: now(), checkpoints: Vec::new() };
        assert(b.marks() =~= Seq::<(Seq<char>, Instant)>::empty());
        b
    }

    /// Takes a checkpoint now under `name`, after those taken before.
    pub fn checkpoint(&mut self, name: &str)
        ensures
            final(self).start() == old(self).start(),
            final(self).marks().len() == old(self).marks().len() + 1,
            final(self).marks().drop_last() == old(self).marks(),
            final(self).marks().last().0 == name@,
    {
        self.checkpoints.push((name.to_owned(), now()));
        assert(self.marks().drop_last() =~= old(self).marks());
    }

    /// The time from the start to the last checkpoint; with no checkpoint, the
    /// time from the start to an instant read now.
    pub fn get_total_duration(&self) -> (d: Duration)
        ensures
            self.marks().len() > 0 ==> d == duration_between(self.marks().last().1, self.start()),
            self.marks().len() == 0 ==> exists|t: Instant|
                d == #[trigger] duration_between(t, self.start()),
    {
        let n = self.checkpoints.len();
        if n > 0 {
            duration_since(&self.checkpoints[n - 1].1, &self.start_time)
        } else {
            let t = now();
            let d = duration_since(&t, &self.start_time);
            assert(d == duration_between(t, self.start()));
            d
        }
    }

    /// The checkpoints in order, each with the time that passed since the one
    /// before it (since the start, for the first).
    pub fn checkpoint_durations(&self) -> (laps: Vec<(String, Duration)>)
        ensures
            laps@.len() == self.marks().len(),
            forall|i: int|
                0 <= i < laps@.len() ==> {
                    &&& (#[trigger] laps@[i]).0@ == self.marks()[i].0
                    &&& laps@[i].1 == duration_between(self.marks()[i].1, self.lap_origin(i))
                },
    {
        let mut laps: Vec<(String, Duration)> = Vec::new();
        let mut last = self.start_time;
        let mut i: usize = 0;
        while i < self.checkpoints.len()
            invariant
                0 <= i <= self.checkpoints.len(),
                laps@.len() == i,
                last == self.lap_origin(i as int),
                forall|j: int|
                    0 <= j < i ==> {
                        &&& (#[trigger] laps@[j]).0@ == self.marks()[j].0
                        &&& laps@[j].1 == duration_between(self.marks()[j].1, self.lap_origin(j))
                    },
            decreases self.checkpoints.len() - i,
        {
            let at = self.checkpoints[i].1;
            laps.push((self.checkpoints[i].0.clone(), duration_since(&at, &last)));
            last = at;
            i = i + 1;
        }
        laps
    }
}

} // verus!
