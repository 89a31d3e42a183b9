//! What the library takes from the clock and from per-thread storage, and nothing of which is
//! proved: the contracts of the items that name an outside function are believed.

use std::time::{Duration, Instant};
use thread_local::ThreadLocal;
use vstd::prelude::*;

verus! {

/// [`std::time::Instant`], a reading of the monotonic clock. Nothing is said of what it holds.
#[verifier::external_type_specification]
#[verifier::external_body]
pub struct ExInstant(Instant);

/// [`Instant::now`] reads the monotonic clock. Nothing is claimed of the reading.
pub assume_specification[ Instant::now ]() -> (instant: Instant);

/// [`Instant::elapsed`] returns the time since the reading was taken. Nothing is claimed of it, as
/// it depends on when the call is made.
pub assume_specification[ Instant::elapsed ](instant: &Instant) -> (elapsed: Duration);

/// [`Duration::as_micros`] returns the number of whole microseconds. Nothing is claimed of it, as
/// nothing is known of the durations that it is asked about.
pub assume_specification[ Duration::as_micros ](duration: &Duration) -> (micros: u128);

/// The time that a clock shows `elapsed` microseconds after it was started: it starts at ten, so
/// that it does not show zero, and is kept in sixty-four bits.
pub open spec fn shown_time(elapsed: u128) -> int {
    (elapsed + 10) % 0x1_0000_0000_0000_0000
}

/// `micros` is the number of whole microseconds in a time that [`Instant::elapsed`] returned for the
/// reading.
pub open spec fn elapsed_since(reading: Instant, micros: u128) -> bool {
    exists|elapsed: Duration|
        {
            &&& #[trigger] call_ensures(Instant::elapsed, (&reading,), elapsed)
            &&& call_ensures(Duration::as_micros, (&elapsed,), micros)
        }
}

/// A clock that counts microseconds.
pub struct Clock {
    baseline: Instant,
}

impl Clock {
    /// The reading from which on the clock counts.
    pub closed spec fn spec_baseline(&self) -> Instant {
        self.baseline
    }

    /// The clock may show the time `now`: it is what it shows after a time that has elapsed since
    /// its baseline.
    pub open spec fn may_show(&self, now: u64) -> bool {
        exists|elapsed: u128| #[trigger]
            elapsed_since(self.spec_baseline(), elapsed) && now == shown_time(elapsed)
    }

    /// A clock that is started now: it counts from a reading that [`Instant::now`] returned. Which
    /// that is depends on when the call is made.
    pub fn start() -> (clock: Self)
        ensures
            call_ensures(Instant::now, (), clock.spec_baseline()),
    {
        Clock { baseline: Instant::now() }
    }

    /// The time that a clock shows `elapsed` microseconds after it was started.
    pub fn show(elapsed: u128) -> (now: u64)
        ensures
            now == shown_time(elapsed),
    {
        let wrapped: u64 = (elapsed % 0x1_0000_0000_0000_0000) as u64;
        wrapped.wrapping_add(10)
    }

    /// The current time: what the clock shows when the time since its baseline has elapsed. How much
    /// that is depends on when the call is made.
    pub fn now(&self) -> (now: u64)
        ensures
            self.may_show(now),
    {
        let elapsed: u128 = self.baseline.elapsed().as_micros();
        assert(elapsed_since(self.spec_baseline(), elapsed));
        Self::show(elapsed)
    }

    /// The current time once more, after the clock has shown `earlier`: what [`Clock::now`] returns,
    /// but nothing before `earlier`, should the clock have started over in between.
    pub fn now_after(&self, earlier: u64) -> (now: u64)
        requires
            self.may_show(earlier),
        ensures
            self.may_show(now),
            now >= earlier,
            exists|reading: u64| #[trigger]
                call_ensures(Clock::now, (self,), reading) && now == (if reading >= earlier {
                    reading
                } else {
                    earlier
                }),
    {
        let reading: u64 = self.now();
        if reading >= earlier {
            reading
        } else {
            earlier
        }
    }
}

/// [`thread_local::ThreadLocal`], which keeps one value for each thread that asked for one.
#[verifier::external_type_specification]
#[verifier::external_body]
#[verifier::reject_recursive_types(T)]
pub struct ExThreadLocal<T: Send>(ThreadLocal<T>);

/// The values that a [`ThreadLocal`] keeps, over all threads.
pub uninterp spec fn kept_values(local: ThreadLocal<usize>) -> Set<usize>;

/// [`ThreadLocal::new`] makes a storage that keeps no value for any thread.
#[verifier::external_body]
fn new_thread_local() -> (local: ThreadLocal<usize>)
    ensures
        kept_values(local) == Set::<usize>::empty(),
{
    ThreadLocal::new()
}

/// [`ThreadLocal::get_or`] returns the value that is kept for the calling thread. If there is none,
/// it keeps `fresh` for the thread and returns that. Which of the two happens, and which of the
/// kept values is returned, depends on the calling thread and is not claimed.
#[verifier::external_body]
fn get_or(local: &mut ThreadLocal<usize>, fresh: usize) -> (value: usize)
    ensures
        ({
            ||| kept_values(*old(local)).contains(value) && kept_values(*final(local))
                == kept_values(*old(local))
            ||| value == fresh && kept_values(*final(local)) == kept_values(*old(local)).insert(
                fresh,
            )
        }),
{
    *local.get_or(|| fresh)
}

/// The numbers by which threads are told apart.
pub struct ThreadNumbers {
    numbers: ThreadLocal<usize>,
}

impl View for ThreadNumbers {
    type V = Set<usize>;

    closed spec fn view(&self) -> Set<usize> {
        kept_values(self.numbers)
    }
}

impl ThreadNumbers {
    /// [`get_or`] may return the number when it is asked for that of the calling thread, with `fresh`
    /// for a thread that has none.
    pub closed spec fn may_tell(self, fresh: usize, number: usize) -> bool {
        exists|local: &mut ThreadLocal<usize>|
            {
                &&& *local == self.numbers
                &&& #[trigger] call_ensures(get_or, (local, fresh), number)
            }
    }

    /// No thread has a number.
    pub fn new() -> (numbers: Self)
        ensures
            numbers@ == Set::<usize>::empty(),
    {
        ThreadNumbers { numbers: new_thread_local() }
    }

    /// The number of the calling thread, which becomes `fresh` if it had none. Which number that is
    /// depends on the calling thread.
    pub fn current(&mut self, fresh: usize) -> (number: usize)
        ensures
            ({
                ||| old(self)@.contains(number) && final(self)@ == old(self)@
                ||| number == fresh && final(self)@ == old(self)@.insert(fresh)
            }),
            old(self).may_tell(fresh, number),
    {
        get_or(&mut self.numbers, fresh)
    }
}

} // verus!
