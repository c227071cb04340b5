//! How much of a core a thread uses.
//!
//! Elapsed time counts waiting too: a thread that waits 15 ms for the GPU has
//! used the processor for a fraction of that. Only the thread's own clock tells.

use vstd::prelude::*;

verus! {

/// How long a measurement lasts at least, in nanoseconds.
pub const PERIOD: u64 = 5_000_000_000;

/// A count of 100-nanosecond ticks, in two halves.
#[derive(Debug, Clone, Copy, PartialEq, Eq, Structural)]
pub struct FileTime {
    pub high: u32,
    pub low: u32,
}

/// Processor time, in ticks of 100 nanoseconds.
#[derive(Debug, Clone, Copy, PartialEq, Eq, Structural)]
pub struct CpuTime {
    pub ticks: u128,
}

/// A measurement.
#[derive(Debug, Clone, Copy, PartialEq, Eq, Structural)]
pub struct CpuReport {
    /// Processor time that was used, in ticks of 100 nanoseconds.
    pub used: i128,
    /// Time that went by, in nanoseconds.
    pub wall: u64,
}

/// A probe that measures again and again.
pub struct CpuProbe {
    /// What the thread is called.
    pub label: String,
    /// The thread's clock when the measurement began.
    pub last_cpu: CpuTime,
}

impl FileTime {
    /// The ticks.
    pub open spec fn ticks(self) -> int {
        self.high * 0x1_0000_0000 + self.low
    }

    /// The ticks.
    pub fn to_ticks(self) -> (r: u64)
        ensures
            r == self.ticks(),
    {
        self.high as u64 * 0x1_0000_0000 + self.low as u64
    }
}

/// The processor time of a thread, in the kernel and outside, from the two
/// clocks that the system keeps for it; zero where the system does not tell.
pub fn thread_cpu_secs(times: Option<(FileTime, FileTime)>) -> (r: CpuTime)
    ensures
        r.ticks == (match times {
            Some(t) => t.0.ticks() + t.1.ticks(),
            None => 0,
        }),
        r.plausible(),
{
    match times {
        Some(t) => CpuTime { ticks: t.0.to_ticks() as u128 + t.1.to_ticks() as u128 },
        None => CpuTime { ticks: 0 },
    }
}

impl CpuTime {
    /// Two clocks can have counted so much.
    pub open spec fn plausible(self) -> bool {
        self.ticks <= 0x2_0000_0000_0000_0000
    }
}

/// What a measurement that began at `last` says at `cpu`, after `elapsed`
/// nanoseconds: nothing before it has lasted long enough.
pub open spec fn measured(last: CpuTime, cpu: CpuTime, elapsed: u64) -> Option<CpuReport> {
    if elapsed >= PERIOD {
        Some(CpuReport { used: (cpu.ticks - last.ticks) as i128, wall: elapsed })
    } else {
        None
    }
}

impl CpuProbe {
    /// A probe whose first measurement begins now.
    pub fn new(label: String, cpu: CpuTime) -> (r: CpuProbe)
        ensures
            r.label == label,
            r.last_cpu == cpu,
    {
        CpuProbe { label, last_cpu: cpu }
    }

    /// Whether a measurement has lasted long enough after `elapsed`
    /// nanoseconds: only then is the thread's clock read.
    pub fn due(elapsed: u64) -> (r: bool)
        ensures
            r == (elapsed >= PERIOD),
    {
        elapsed >= PERIOD
    }

    /// Ends a measurement after `elapsed` nanoseconds, and begins the next. Before
    /// the measurement has lasted long enough nothing happens.
    pub fn tick(&mut self, elapsed: u64, cpu: CpuTime) -> (r: Option<CpuReport>)
        requires
            old(self).last_cpu.plausible(),
            cpu.plausible(),
        ensures
            final(self).label == old(self).label,
            r == measured(old(self).last_cpu, cpu, elapsed),
            final(self).last_cpu == (if r is Some {
                cpu
            } else {
                old(self).last_cpu
            }),
    {
        if !Self::due(elapsed) {
            return None;
        }
        let used: i128 = cpu.ticks as i128 - self.last_cpu.ticks as i128;
        self.last_cpu = cpu;
        Some(CpuReport { used, wall: elapsed })
    }
}

impl CpuReport {
    /// The share of a core in percent, as a fraction.
    pub fn percent(&self) -> (r: (i128, u64))
        requires
            -0x2_0000_0000_0000_0000 <= self.used <= 0x2_0000_0000_0000_0000,
        ensures
            r.0 == self.used * 100 * 100,
            r.1 == self.wall,
    {
        (self.used * 100 * 100, self.wall)
    }
}

/// Measurements leave no gap: what two in a row count is what one over both
/// would have counted.
pub proof fn law_measurements_join(
    start: CpuTime,
    middle: CpuTime,
    end: CpuTime,
    first: u64,
    second: u64,
)
    requires
        start.plausible() && middle.plausible() && end.plausible(),
        first >= PERIOD,
        second >= PERIOD,
        first + second <= u64::MAX,
    ensures
        measured(start, middle, first) is Some,
        measured(middle, end, second) is Some,
        measured(start, middle, first)->0.used + measured(middle, end, second)->0.used
            == measured(start, end, (first + second) as u64)->0.used,
{
}

/// The two halves of a count can be read back from it.
pub proof fn law_ticks_have_two_halves(t: FileTime)
    ensures
        t.ticks() / 0x1_0000_0000 == t.high,
        t.ticks() % 0x1_0000_0000 == t.low,
{
}

/// A measurement is told exactly when it has lasted five seconds, and tells how
/// far the thread's clock has gone in the time that went by.
pub proof fn law_measurements_last_five_seconds(last: CpuTime, cpu: CpuTime, elapsed: u64)
    requires
        last.plausible() && cpu.plausible(),
    ensures
        measured(last, cpu, elapsed) is Some <==> elapsed >= 5_000_000_000,
        measured(last, cpu, elapsed) matches Some(r) ==> last.ticks + r.used == cpu.ticks && r.wall
            == elapsed,
{
}

/// Every pair of clocks that the system can tell is plausible, and nothing above
/// what the two can hold.
pub proof fn law_all_clocks_are_plausible(kernel: FileTime, user: FileTime, cpu: CpuTime)
    ensures
        cpu.plausible() ==> cpu.ticks <= 2 * 0x1_0000_0000_0000_0000,
        (CpuTime { ticks: (kernel.ticks() + user.ticks()) as u128 }).plausible(),
        (CpuTime { ticks: 0 }).plausible(),
{
}

} // verus!
