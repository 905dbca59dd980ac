//! Host CPU and memory readings for admission control and `/pressure`.

use crate::config::PressureConfig;
use crate::scalar::Scalar;
use vstd::prelude::*;

verus! {

/// Milliseconds between two samples.
pub const SAMPLE_INTERVAL_MS: u64 = 2_000;

/// The highest reading, in hundredths of a percent.
pub const CENTI_LIMIT: u32 = 10_000;

/// Latest host load readings in hundredths of a percent, updated by a
/// background sampler.
#[derive(Debug, Clone, Copy, PartialEq, Eq, Structural)]
pub struct PressureGauge {
    /// CPU usage.
    pub cpu_centi: u32,
    /// Memory usage.
    pub memory_centi: u32,
}

impl Default for PressureGauge {
    fn default() -> (r: PressureGauge)
        ensures
            r == (PressureGauge { cpu_centi: 0, memory_centi: 0 }),
    {
        PressureGauge { cpu_centi: 0, memory_centi: 0 }
    }
}

/// `n`, at most the highest reading.
pub open spec fn limited(n: u32) -> u32 {
    if n > CENTI_LIMIT {
        CENTI_LIMIT
    } else {
        n
    }
}

impl PressureGauge {
    /// Takes a sample; no reading is above one hundred percent.
    pub fn sample(&mut self, cpu_centi: u32, memory_centi: u32)
        ensures
            *final(self) == (PressureGauge {
                cpu_centi: limited(cpu_centi),
                memory_centi: limited(memory_centi),
            }),
    {
        self.cpu_centi = if cpu_centi > CENTI_LIMIT {
            CENTI_LIMIT
        } else {
            cpu_centi
        };
        self.memory_centi = if memory_centi > CENTI_LIMIT {
            CENTI_LIMIT
        } else {
            memory_centi
        };
    }

    /// The readings, CPU first, in hundredths of a percent.
    pub fn snapshot(&self) -> (r: (u32, u32))
        ensures
            r == (self.cpu_centi, self.memory_centi),
    {
        (self.cpu_centi, self.memory_centi)
    }
}

/// CPU and memory usage in percent.
#[derive(Debug, Clone, Copy, PartialEq, Eq, Structural)]
pub struct Load {
    /// CPU usage.
    pub cpu: Scalar,
    /// Memory usage.
    pub memory: Scalar,
}

/// What the load exceeds, if anything: CPU is looked at first.
#[derive(Debug, Clone, Copy, PartialEq, Eq, Structural)]
pub enum Excess {
    /// The CPU threshold.
    Cpu,
    /// The memory threshold.
    Memory,
    /// Nothing.
    Nothing,
}

/// What the load exceeds.
pub open spec fn excess_of(load: Load, limits: PressureConfig) -> Excess {
    if limits.max_cpu_percent.less(load.cpu) {
        Excess::Cpu
    } else if limits.max_memory_percent.less(load.memory) {
        Excess::Memory
    } else {
        Excess::Nothing
    }
}

/// What the load exceeds.
pub fn excess(load: Load, limits: PressureConfig) -> (r: Excess)
    ensures
        r == excess_of(load, limits),
{
    if limits.max_cpu_percent.lt(load.cpu) {
        Excess::Cpu
    } else if limits.max_memory_percent.lt(load.memory) {
        Excess::Memory
    } else {
        Excess::Nothing
    }
}

} // verus!
