//! The records that runners report and the interrupt requests they carry.
//!
//! Durations and timestamps are counted in nanoseconds (microseconds on the
//! bare-metal side, where the system timer counts them).
use vstd::prelude::*;

verus! {

/// A request to freeze or to thaw the control group with the given id.
#[derive(Clone, Copy, Debug, PartialEq, Eq, Structural)]
pub enum Irq {
    Freeze(usize),
    Unfreeze(usize),
}

/// A message that may carry an interrupt request for the supervisor.
pub trait Ipc {
    /// The request carried by this message, if any.
    fn irq(&self) -> Option<Irq>;
}

/// Performance counter readings taken over one run; a counter that overflowed
/// reads `None`.
#[derive(Clone, Copy, Debug, PartialEq, Eq, Structural)]
pub struct PMUInfo {
    pub cycles: Option<u64>,
    pub instr: Option<u64>,
    pub l1d_access: Option<u32>,
    pub l1d_wb: Option<u32>,
    pub l1d_refill: Option<u32>,
    pub l2d_access: Option<u32>,
    pub l2d_wb: Option<u32>,
    pub l2d_refill: Option<u32>,
}

/// What a bare-metal runner reports after each slice of a run: times in
/// microseconds, fuel in interpreter fuel units.
#[derive(Clone, Copy, Debug, PartialEq, Eq, Structural)]
pub struct RefuelUpdate {
    pub timestamp: u64,
    pub fuel: Option<u32>,
    pub run_idx: usize,
    pub refuel_idx: usize,
    pub intruder_state: usize,
    pub dt: u64,
    pub df: Option<u32>,
    pub acc_t: u64,
    pub acc_f: Option<u32>,
    pub pmu_info: Option<PMUInfo>,
}

/// The counters the performance monitor reads over one run: cycles,
/// instructions retired, L1 and L2 data cache accesses, bus cycles and bus
/// accesses; a counter that overflowed reads `None`.
#[derive(Clone, Copy, Debug, PartialEq, Eq, Structural)]
pub struct PerfInfo {
    pub cycles: Option<u64>,
    pub instr: Option<u64>,
    pub l1d_access: Option<u32>,
    pub l2d_access: Option<u32>,
    pub bus_cycles: Option<u32>,
    pub bus_access: Option<u32>,
}

/// What the bare-metal runners send after each slice: times in microseconds,
/// fuel in interpreter fuel units, whether the intruder was halted and the
/// set mask it used, and the performance counters of the slice.
#[derive(Clone, Copy, Debug, PartialEq, Eq, Structural)]
pub struct SliceUpdate {
    pub timestamp: u64,
    pub fuel: Option<u64>,
    pub run_idx: usize,
    pub refuel_idx: usize,
    pub intruder_break: bool,
    pub intruder_set_mask: usize,
    pub dt: u64,
    pub df: Option<u64>,
    pub acc_t: u64,
    pub acc_f: Option<u64>,
    pub perf_info: Option<PerfInfo>,
}

/// What the hosted runner reports after each fuel cycle: times in
/// nanoseconds; `i`, `j`, `k` index the fuel setting, the threshold setting
/// and the repetition, `l` the fuel cycle.
#[derive(Clone, Copy, Debug, PartialEq, Eq, Structural)]
pub struct WasmRunnerIpc {
    pub timestamp: u64,
    pub fuel: Option<u32>,
    pub wctpf: Option<u64>,
    pub i: usize,
    pub j: usize,
    pub k: usize,
    pub l: usize,
    pub dt: u64,
    pub df: Option<u32>,
    pub acc_t: u64,
    pub acc_f: Option<u32>,
    pub irq: Option<Irq>,
}

impl Ipc for WasmRunnerIpc {
    fn irq(&self) -> (irq: Option<Irq>)
        ensures
            irq == self.irq,
    {
        self.irq
    }
}

/// One measurement of the stand-alone runner: wall-clock time and slice
/// length in nanoseconds, run `i`, slice `j`, and the fuel the slice used.
#[derive(Clone, Copy, Debug, PartialEq, Eq, Structural)]
pub struct WasmMeasurement {
    pub timestamp_unix: u64,
    pub i: usize,
    pub j: usize,
    pub dt: u64,
    pub df: Option<usize>,
}

impl WasmMeasurement {
    /// The measurement of slice `j` of run `i`: the fuel used is the fuel the
    /// slice was given minus what remained, when both are known.
    pub fn new(
        timestamp_unix: u64,
        i: usize,
        j: usize,
        dt: u64,
        remaining: Option<usize>,
        fuel: Option<usize>,
    ) -> (m: Self)
        requires
            match (remaining, fuel) {
                (Some(r), Some(f)) => r <= f,
                _ => true,
            },
        ensures
            m.timestamp_unix == timestamp_unix,
            m.i == i,
            m.j == j,
            m.dt == dt,
            m.df == (match (remaining, fuel) {
                (Some(r), Some(f)) => Some((f - r) as usize),
                _ => None,
            }),
    {
        let df = match (remaining, fuel) {
            (Some(r), Some(f)) => Some(f - r),
            _ => None,
        };
        WasmMeasurement { timestamp_unix, i, j, dt, df }
    }
}

} // verus!
