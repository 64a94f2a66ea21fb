//! The one-minute stress test: how much it loads the machine and how long it runs.
use vstd::prelude::*;
use std::time::{Duration, Instant};

verus! {

/// Declares `std::time::Instant`, carried opaquely as the moment a test began.
#[verifier::external_type_specification]
#[verifier::external_body]
pub struct ExInstant(Instant);

/// Calls `Instant::now`; the result depends on the clock, so nothing is claimed of it.
#[verifier::external_body]
fn instant_now() -> Instant {
    Instant::now()
}

/// Calls `Instant::elapsed`; the result depends on the clock, so nothing is claimed of it.
#[verifier::external_body]
fn instant_elapsed(start: &Instant) -> Duration {
    start.elapsed()
}

/// Calls `Duration::as_secs`; a `Duration` is opaque here, so nothing is claimed of the result.
#[verifier::external_body]
fn duration_as_secs(d: &Duration) -> u64 {
    d.as_secs()
}

/// How long a stress test runs, in seconds.
pub const STRESS_MAX_SECS: u64 = 60;

/// Least memory a stress test touches: 256 MiB.
pub const STRESS_MIN_BYTES: usize = 268435456;

/// Most memory a stress test touches: 1 GiB.
pub const STRESS_MAX_BYTES: usize = 1073741824;

/// Bytes of memory a stress test touches, for a machine with `total_memory` bytes
/// of RAM: a quarter of it, no less than 256 MiB and no more than 1 GiB.
pub open spec fn stress_memory(total_memory: u64) -> usize {
    let quarter = (total_memory / 4) as usize;
    if quarter < STRESS_MIN_BYTES {
        STRESS_MIN_BYTES
    } else if quarter > STRESS_MAX_BYTES {
        STRESS_MAX_BYTES
    } else {
        quarter
    }
}

/// Number of spinning threads a stress test starts on a machine with `cpu_count` CPUs.
pub open spec fn stress_threads(cpu_count: usize) -> usize {
    if cpu_count < 1 { 1 } else { cpu_count }
}

/// The load of a stress test on a machine with `total_memory` bytes of RAM and
/// `cpu_count` CPUs: (spinning threads, bytes of memory touched).
pub fn stress_plan(total_memory: u64, cpu_count: usize) -> (plan: (usize, usize))
    ensures
        plan.0 == stress_threads(cpu_count),
        plan.1 == stress_memory(total_memory),
{
    let quarter = (total_memory / 4) as usize;
    let mem = if quarter < STRESS_MIN_BYTES {
        STRESS_MIN_BYTES
    } else if quarter > STRESS_MAX_BYTES {
        STRESS_MAX_BYTES
    } else {
        quarter
    };
    let threads = if cpu_count < 1 { 1 } else { cpu_count };
    (threads, mem)
}

/// The memory a stress test touches stays between 256 MiB and 1 GiB, and it
/// always starts at least one thread.
pub proof fn lemma_stress_plan_bounds(total_memory: u64, cpu_count: usize)
    ensures
        STRESS_MIN_BYTES <= stress_memory(total_memory) <= STRESS_MAX_BYTES,
        stress_threads(cpu_count) >= 1,
        stress_threads(cpu_count) >= cpu_count,
{
}

/// Seconds left of a test that may run `max_secs` and has run `elapsed`.
pub fn remaining_from_elapsed(max_secs: u64, elapsed: u64) -> (left: u64)
    ensures
        left == (if elapsed >= max_secs { 0 } else { max_secs - elapsed }),
{
    if elapsed >= max_secs {
        0
    } else {
        max_secs - elapsed
    }
}

/// What a press of the stress-test key does.
#[derive(Clone, Copy, Debug, PartialEq, Eq, Structural)]
pub enum StressToggle {
    Start,
    Stop,
}

/// State of the stress test: whether it runs, the load it put on, and when it began.
pub struct StressTest {
    pub running: bool,
    pub cpu_threads: usize,
    pub mem_bytes: usize,
    pub started_at: Option<Instant>,
    pub max_secs: u64,
}

impl StressTest {
    /// No test running, with the one-minute limit.
    pub fn new() -> (st: Self)
        ensures
            !st.running,
            st.cpu_threads == 0,
            st.mem_bytes == 0,
            st.started_at is None,
            st.max_secs == STRESS_MAX_SECS,
    {
        StressTest { running: false, cpu_threads: 0, mem_bytes: 0, started_at: None, max_secs: STRESS_MAX_SECS }
    }

    /// Whether the key starts or stops a test.
    pub fn toggle_action(&self) -> (act: StressToggle)
        ensures
            act == (if self.running { StressToggle::Stop } else { StressToggle::Start }),
    {
        if self.running {
            StressToggle::Stop
        } else {
            StressToggle::Start
        }
    }

    /// Records that a test with this load began now; a test already running is left as it is.
    pub fn begin(&mut self, cpu_threads: usize, mem_bytes: usize)
        ensures
            old(self).running ==> *final(self) == *old(self),
            !old(self).running ==> {
                &&& final(self).running
                &&& final(self).cpu_threads == cpu_threads
                &&& final(self).mem_bytes == mem_bytes
                &&& final(self).started_at is Some
                &&& final(self).max_secs == old(self).max_secs
            },
    {
        if self.running {
            return;
        }
        let now = instant_now();
        self.running = true;
        self.cpu_threads = cpu_threads;
        self.mem_bytes = mem_bytes;
        self.started_at = Some(now);
    }

    /// Records that the test stopped: nothing runs and no load is held.
    pub fn end(&mut self)
        ensures
            !final(self).running,
            final(self).cpu_threads == 0,
            final(self).mem_bytes == 0,
            final(self).started_at is None,
            final(self).max_secs == old(self).max_secs,
    {
        self.running = false;
        self.cpu_threads = 0;
        self.mem_bytes = 0;
        self.started_at = None;
    }

    /// Seconds the running test has left; `None` when no test runs.
    pub fn stress_remaining_secs(&self) -> (left: Option<u64>)
        ensures
            !self.running ==> left is None,
            self.started_at is None ==> left is None,
            self.running && self.started_at is Some ==> left is Some,
            left matches Some(s) ==> s <= self.max_secs,
    {
        if !self.running {
            return None;
        }
        match &self.started_at {
            None => None,
            Some(start) => {
                let d = instant_elapsed(start);
                let elapsed = duration_as_secs(&d);
                Some(remaining_from_elapsed(self.max_secs, elapsed))
            },
        }
    }

    /// The test is over once `elapsed` seconds have passed: it runs, has begun, and
    /// has used up its `max_secs`.
    pub open spec fn expired_after(&self, elapsed: u64) -> bool {
        self.running && self.started_at is Some && elapsed >= self.max_secs
    }

    /// Whether the test is due to be stopped when `elapsed` seconds have passed since it began.
    pub fn time_is_up_after(&self, elapsed: u64) -> (up: bool)
        ensures
            up == self.expired_after(elapsed),
    {
        if self.running && self.started_at.is_some() {
            remaining_from_elapsed(self.max_secs, elapsed) == 0
        } else {
            false
        }
    }

    /// Whether the running test has used up its time and is due to be stopped: the
    /// verdict of `time_is_up_after` on the seconds the clock reports since the test began.
    pub fn time_is_up(&self) -> (up: bool)
        ensures
            exists|elapsed: u64| up == #[trigger] self.expired_after(elapsed),
            up ==> self.running && self.started_at is Some,
            self.running && self.started_at is Some && self.max_secs == 0 ==> up,
    {
        match &self.started_at {
            Some(start) => {
                let d = instant_elapsed(start);
                let elapsed = duration_as_secs(&d);
                let up = self.time_is_up_after(elapsed);
                assert(up == self.expired_after(elapsed));
                up
            },
            None => {
                let up = self.time_is_up_after(0);
                assert(up == self.expired_after(0));
                up
            },
        }
    }
}

/// A started test is over exactly when no seconds remain: once the elapsed seconds
/// reach its limit, and not a second before.
pub proof fn lemma_over_when_nothing_remains(st: StressTest, elapsed: u64)
    ensures
        st.expired_after(elapsed) <==> st.running && st.started_at is Some
            && (if elapsed >= st.max_secs { 0 } else { st.max_secs - elapsed }) == 0,
        st.running && st.started_at is Some ==> (st.expired_after(elapsed) <==> elapsed >= st.max_secs),
        !st.running ==> !st.expired_after(elapsed),
{
}

} // verus!
