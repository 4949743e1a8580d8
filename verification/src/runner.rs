//! The bookkeeping of runners that execute a program in fuel slices.
//!
//! The runners themselves drive an interpreter, read clocks and send reports;
//! what they decide and count after each slice is here, as functions from the
//! runner's state and the slice's outcome to the next state, the report and
//! what to do next.
use vstd::prelude::*;
use crate::fuel::{
    add_fuel, fuel_used, initial_irq, mitigation, mitigation_defined, remaining_within,
    spec_add_fuel, spec_fuel_used, spec_initial_irq, total_within, can_mitigate, Mitigator,
    INTERFERER_GROUP,
};
use crate::records::{Irq, PerfInfo, SliceUpdate, WasmMeasurement, WasmRunnerIpc};

verus! {

/// How a slice of the program ended.
#[derive(Clone, Copy, Debug, PartialEq, Eq, Structural)]
pub enum SliceEnd {
    /// The fuel ran out; the program can be resumed with `remaining_fuel`
    /// left over (known when the interpreter counts fuel).
    Paused { remaining_fuel: Option<u32> },
    /// The program returned, with `remaining_fuel` left over.
    Finished { remaining_fuel: Option<u32> },
}

impl SliceEnd {
    /// The fuel left when the slice ended.
    pub open spec fn remaining(self) -> Option<u32> {
        match self {
            SliceEnd::Paused { remaining_fuel } => remaining_fuel,
            SliceEnd::Finished { remaining_fuel } => remaining_fuel,
        }
    }
}

/// What the runner does after a slice.
#[derive(Clone, Copy, Debug, PartialEq, Eq, Structural)]
pub enum NextStep {
    /// Give the program `fuel` again and resume it.
    Resume { fuel: Option<u32> },
    /// The program has finished.
    Stop,
}

/// What is logged for one fuel cycle: the cycle's number, its time (ns) and
/// fuel, the totals so far, and the mitigation request.
#[derive(Clone, Copy, Debug, PartialEq, Eq, Structural)]
pub struct FuelLog {
    pub fuel_cycle: usize,
    pub dt: u64,
    pub df: Option<u32>,
    pub acc_t: u64,
    pub acc_f: Option<u32>,
    pub irq: Option<Irq>,
}

/// The state of one mitigated run: the fuel each slice gets, the mitigator,
/// the number of the next fuel cycle and the running totals.
pub struct FuelRun {
    pub fuel: Option<u32>,
    pub mitigator: Mitigator,
    pub fuel_cycle: usize,
    pub acc_t: u64,
    pub acc_f: Option<u32>,
}

/// The hysteresis used with threshold `wctpf`: a tenth of it.
pub open spec fn spec_hysteresis(wctpf: Option<u64>) -> u64 {
    match wctpf {
        Some(w) => (w / 10) as u64,
        None => 0,
    }
}

impl FuelRun {
    /// The slice can be accounted without an arithmetic fault: no more fuel
    /// remains than was given, the totals fit, the mitigation decision is
    /// defined on the new totals, and a resumed run can number its next cycle.
    pub open spec fn step_defined(&self, dt: u64, end: SliceEnd) -> bool {
        let df = spec_fuel_used(end.remaining(), self.fuel);
        let acc_f = spec_add_fuel(self.acc_f, df);
        &&& remaining_within(end.remaining(), self.fuel)
        &&& total_within(self.acc_f, df)
        &&& self.acc_t + dt <= u64::MAX
        &&& mitigation_defined(
            self.mitigator.spec_wctpf(),
            self.mitigator.spec_hyst(),
            (self.acc_t + dt) as u64,
            acc_f,
        )
        &&& (end is Paused) ==> self.fuel_cycle < usize::MAX
    }

    /// Starts a run with `fuel` per slice and threshold `wctpf`; the log entry
    /// for cycle zero carries the initial request.
    pub fn start(fuel: Option<u32>, wctpf: Option<u64>) -> (res: (FuelRun, FuelLog))
        ensures
            res.0.fuel == fuel,
            res.0.mitigator.spec_wctpf() == wctpf,
            res.0.mitigator.spec_hyst() == spec_hysteresis(wctpf),
            res.0.mitigator.spec_last_irq() == Some(Irq::Unfreeze(INTERFERER_GROUP)),
            res.0.fuel_cycle == 1,
            res.0.acc_t == 0,
            res.0.acc_f == Some(0u32),
            res.1.fuel_cycle == 0,
            res.1.dt == 0,
            res.1.df == Some(0u32),
            res.1.acc_t == 0,
            res.1.acc_f == Some(0u32),
            res.1.irq == spec_initial_irq(wctpf),
    {
        let hyst = match wctpf {
            Some(w) => w / 10,
            None => 0,
        };
        let mitigator = Mitigator::new(wctpf, hyst);
        let log = FuelLog {
            fuel_cycle: 0,
            dt: 0,
            df: Some(0),
            acc_t: 0,
            acc_f: Some(0),
            irq: initial_irq(wctpf),
        };
        (FuelRun { fuel, mitigator, fuel_cycle: 1, acc_t: 0, acc_f: Some(0) }, log)
    }

    /// Whether `step(dt, end)` may be called.
    pub fn can_step(&self, dt: u64, end: SliceEnd) -> (ok: bool)
        ensures
            ok == self.step_defined(dt, end),
    {
        let remaining = match end {
            SliceEnd::Paused { remaining_fuel } => remaining_fuel,
            SliceEnd::Finished { remaining_fuel } => remaining_fuel,
        };
        if let (Some(r), Some(f)) = (remaining, self.fuel) {
            if r > f {
                return false;
            }
        }
        let df = fuel_used(remaining, self.fuel);
        if let (Some(a), Some(d)) = (self.acc_f, df) {
            if a > u32::MAX - d {
                return false;
            }
        }
        if self.acc_t > u64::MAX - dt {
            return false;
        }
        let acc_f = add_fuel(self.acc_f, df);
        if !can_mitigate(&self.mitigator, self.acc_t + dt, acc_f) {
            return false;
        }
        match end {
            SliceEnd::Paused { .. } => self.fuel_cycle < usize::MAX,
            SliceEnd::Finished { .. } => true,
        }
    }

    /// Accounts a slice that took `dt` nanoseconds and ended as `end`: adds
    /// its time and fuel to the totals, asks the mitigator, and logs the
    /// cycle.  A paused program is refuelled with the same fuel and resumed
    /// as the next cycle; a finished one stops.
    pub fn step(&mut self, dt: u64, end: SliceEnd) -> (res: (FuelLog, NextStep))
        requires
            old(self).step_defined(dt, end),
        ensures
            final(self).fuel == old(self).fuel,
            final(self).mitigator == old(self).mitigator,
            final(self).acc_t == old(self).acc_t + dt,
            final(self).acc_f == spec_add_fuel(
                old(self).acc_f,
                spec_fuel_used(end.remaining(), old(self).fuel),
            ),
            res.0.fuel_cycle == old(self).fuel_cycle,
            res.0.dt == dt,
            res.0.df == spec_fuel_used(end.remaining(), old(self).fuel),
            res.0.acc_t == final(self).acc_t,
            res.0.acc_f == final(self).acc_f,
            res.0.irq == mitigation(
                old(self).mitigator.spec_wctpf(),
                old(self).mitigator.spec_hyst(),
                old(self).mitigator.spec_last_irq(),
                final(self).acc_t,
                final(self).acc_f,
            ),
            (end is Paused) ==> final(self).fuel_cycle == old(self).fuel_cycle + 1 && res.1
                == (NextStep::Resume { fuel: old(self).fuel }),
            (end is Finished) ==> final(self).fuel_cycle == old(self).fuel_cycle && res.1
                == NextStep::Stop,
    {
        let remaining = match end {
            SliceEnd::Paused { remaining_fuel } => remaining_fuel,
            SliceEnd::Finished { remaining_fuel } => remaining_fuel,
        };
        let df = fuel_used(remaining, self.fuel);
        self.acc_t = self.acc_t + dt;
        self.acc_f = add_fuel(self.acc_f, df);
        let irq = self.mitigator.mitigate(self.acc_t, self.acc_f);
        let log = FuelLog {
            fuel_cycle: self.fuel_cycle,
            dt,
            df,
            acc_t: self.acc_t,
            acc_f: self.acc_f,
            irq,
        };
        match end {
            SliceEnd::Paused { .. } => {
                self.fuel_cycle = self.fuel_cycle + 1;
                (log, NextStep::Resume { fuel: self.fuel })
            },
            SliceEnd::Finished { .. } => (log, NextStep::Stop),
        }
    }
}

/// The fixed fields of the hosted runner's log: the fuel and threshold of
/// this run and its indices among all runs.
#[derive(Clone, Copy, Debug, PartialEq, Eq, Structural)]
pub struct WasmRunLogger {
    pub fuel: Option<u32>,
    pub wctpf: Option<u64>,
    pub fuel_index: usize,
    pub wctpf_index: usize,
    pub run_index: usize,
}

impl WasmRunLogger {
    /// The logger of run `run_index` with fuel setting `fuel_index` and
    /// threshold setting `wctpf_index`.
    pub fn new(
        fuel: Option<u32>,
        wctpf: Option<u64>,
        fuel_index: usize,
        wctpf_index: usize,
        run_index: usize,
    ) -> (logger: Self)
        ensures
            logger.fuel == fuel,
            logger.wctpf == wctpf,
            logger.fuel_index == fuel_index,
            logger.wctpf_index == wctpf_index,
            logger.run_index == run_index,
    {
        WasmRunLogger { fuel, wctpf, fuel_index, wctpf_index, run_index }
    }

    /// The report of one fuel cycle, `timestamp` nanoseconds after the run
    /// started.
    pub fn entry(&self, timestamp: u64, log: FuelLog) -> (msg: WasmRunnerIpc)
        ensures
            msg.timestamp == timestamp,
            msg.fuel == self.fuel,
            msg.wctpf == self.wctpf,
            msg.i == self.fuel_index,
            msg.j == self.wctpf_index,
            msg.k == self.run_index,
            msg.l == log.fuel_cycle,
            msg.dt == log.dt,
            msg.df == log.df,
            msg.acc_t == log.acc_t,
            msg.acc_f == log.acc_f,
            msg.irq == log.irq,
    {
        WasmRunnerIpc {
            timestamp,
            fuel: self.fuel,
            wctpf: self.wctpf,
            i: self.fuel_index,
            j: self.wctpf_index,
            k: self.run_index,
            l: log.fuel_cycle,
            dt: log.dt,
            df: log.df,
            acc_t: log.acc_t,
            acc_f: log.acc_f,
            irq: log.irq,
        }
    }
}

/// The fuel a slice of the bare-metal runner used: the fuel it was given
/// minus the fuel left, when both are known.
pub open spec fn spec_fuel_used64(remaining: Option<u64>, fuel: Option<u64>) -> Option<u64> {
    match (remaining, fuel) {
        (Some(r), Some(f)) => Some((f - r) as u64),
        _ => None,
    }
}

/// The counts and totals of the bare-metal runner, as unbounded numbers: runs
/// finished, slices of the current run, its time and its fuel.
pub struct RunnerBook {
    pub run_idx: int,
    pub refuel_idx: int,
    pub acc_t: int,
    pub acc_f: Option<int>,
}

/// The totals a run starts from: no time, and no fuel when fuel is counted.
pub open spec fn fresh_book_fuel(fuel: Option<u64>) -> Option<int> {
    match fuel {
        Some(_) => Some(0int),
        None => None,
    }
}

/// The book of a runner that gives each slice `fuel`, before its first run.
pub open spec fn book_init(fuel: Option<u64>) -> RunnerBook {
    RunnerBook { run_idx: 0, refuel_idx: 0, acc_t: 0, acc_f: fresh_book_fuel(fuel) }
}

/// The book after a slice that took `dt`, left `remaining` fuel and either
/// finished the program or paused it: a paused slice adds its time and fuel
/// to the current run; a finished one closes the run and the next one starts
/// afresh.
pub open spec fn book_step(
    b: RunnerBook,
    fuel: Option<u64>,
    dt: u64,
    remaining: Option<u64>,
    finished: bool,
) -> RunnerBook {
    if finished {
        RunnerBook {
            run_idx: b.run_idx + 1,
            refuel_idx: 0,
            acc_t: 0,
            acc_f: fresh_book_fuel(fuel),
        }
    } else {
        RunnerBook {
            run_idx: b.run_idx,
            refuel_idx: b.refuel_idx + 1,
            acc_t: b.acc_t + dt,
            acc_f: match (b.acc_f, spec_fuel_used64(remaining, fuel)) {
                (Some(a), Some(d)) => Some(a + d),
                _ => None,
            },
        }
    }
}

/// One slice of the bare-metal runner: its time, the fuel left, and whether
/// the program finished in it.
pub struct Slice {
    pub dt: u64,
    pub remaining: Option<u64>,
    pub finished: bool,
}

/// The book after the slices `s`, starting from a fresh runner.
pub open spec fn book_replay(fuel: Option<u64>, s: Seq<Slice>) -> RunnerBook
    decreases s.len(),
{
    if s.len() == 0 {
        book_init(fuel)
    } else {
        let l = s.last();
        book_step(book_replay(fuel, s.drop_last()), fuel, l.dt, l.remaining, l.finished)
    }
}

/// The number of slices in `s` that finished the program.
pub open spec fn count_finished(s: Seq<Slice>) -> int
    decreases s.len(),
{
    if s.len() == 0 {
        0
    } else {
        count_finished(s.drop_last()) + if s.last().finished { 1int } else { 0 }
    }
}

/// The slices of `s` after the last one that finished the program.
pub open spec fn since_finish(s: Seq<Slice>) -> Seq<Slice>
    decreases s.len(),
{
    if s.len() == 0 || s.last().finished {
        seq![]
    } else {
        since_finish(s.drop_last()).push(s.last())
    }
}

/// The total time of the slices `s`.
pub open spec fn sum_dt(s: Seq<Slice>) -> int
    decreases s.len(),
{
    if s.len() == 0 {
        0
    } else {
        sum_dt(s.drop_last()) + s.last().dt
    }
}

/// The total fuel that the slices `s` used, each given `f`.
pub open spec fn sum_used(f: u64, s: Seq<Slice>) -> int
    decreases s.len(),
{
    if s.len() == 0 {
        0
    } else {
        sum_used(f, s.drop_last()) + (f - s.last().remaining.unwrap())
    }
}

/// Over any sequence of slices of a fresh bare-metal runner: its run count is
/// the number of slices that finished the program; its slice count, time and
/// fuel are those of the slices since the last finish (the time is 0 right
/// after one); a fuel total exists only when fuel is counted; the runner is
/// paused exactly when slices have been counted since the last finish.
pub proof fn law_runner_book(fuel: Option<u64>, s: Seq<Slice>)
    ensures
        book_replay(fuel, s).run_idx == count_finished(s),
        book_replay(fuel, s).refuel_idx == since_finish(s).len(),
        book_replay(fuel, s).acc_t == sum_dt(since_finish(s)),
        book_replay(fuel, s).acc_f is Some ==> fuel is Some,
        (book_replay(fuel, s).refuel_idx > 0) == (s.len() > 0 && !s.last().finished),
        (fuel matches Some(f) && forall|i: int|
            0 <= i < since_finish(s).len() ==> (#[trigger] since_finish(s)[i]).remaining is Some
                && since_finish(s)[i].remaining.unwrap() <= f) ==> book_replay(fuel, s).acc_f == Some(sum_used(fuel.unwrap(), since_finish(s))),
    decreases s.len(),
{
    if s.len() > 0 {
        let p = s.drop_last();
        law_runner_book(fuel, p);
        if !s.last().finished {
            let sf = since_finish(s);
            assert(sf.drop_last() =~= since_finish(p));
            assert(sf.last() == s.last());
            if fuel is Some && forall|i: int|
                0 <= i < sf.len() ==> (#[trigger] sf[i]).remaining is Some
                    && sf[i].remaining.unwrap() <= fuel.unwrap() {
                assert forall|i: int| 0 <= i < since_finish(p).len() implies (
                #[trigger] since_finish(p)[i]).remaining is Some
                    && since_finish(p)[i].remaining.unwrap() <= fuel.unwrap() by {
                    assert(since_finish(p)[i] == sf[i]);
                }
                assert(sf[sf.len() - 1].remaining is Some);
                assert(sf[sf.len() - 1].remaining.unwrap() <= fuel.unwrap());
            }
        }
    }
}

/// The bookkeeping of the bare-metal interpreter runner: the fuel per slice,
/// the number of the current run and of the current slice within it, and the
/// totals of the current run (time in microseconds).
pub struct WasmRunner {
    pub fuel_amount: Option<u64>,
    run_idx: usize,
    refuel_idx: usize,
    acc_t: u64,
    acc_f: Option<u64>,
}

impl WasmRunner {
    /// The fuel each slice gets.
    pub closed spec fn spec_fuel_amount(&self) -> Option<u64> {
        self.fuel_amount
    }

    /// The runner's counts and totals.
    pub closed spec fn book(&self) -> RunnerBook {
        RunnerBook {
            run_idx: self.run_idx as int,
            refuel_idx: self.refuel_idx as int,
            acc_t: self.acc_t as int,
            acc_f: match self.acc_f {
                Some(a) => Some(a as int),
                None => None,
            },
        }
    }

    /// A runner that gives each slice `fuel_amount`, before its first run.
    pub fn new(fuel_amount: Option<u64>) -> (r: Self)
        ensures
            r.spec_fuel_amount() == fuel_amount,
            r.book() == book_init(fuel_amount),
    {
        let acc_f = match fuel_amount {
            Some(_) => Some(0),
            None => None,
        };
        WasmRunner { fuel_amount, run_idx: 0, refuel_idx: 0, acc_t: 0, acc_f }
    }

    /// Whether a run is paused between two slices, so that the next slice
    /// resumes it rather than starting a new one.
    pub fn is_paused(&self) -> (paused: bool)
        ensures
            paused == (self.book().refuel_idx > 0),
    {
        self.refuel_idx > 0
    }

    /// The slice can be accounted without an arithmetic fault: no more fuel
    /// remains than was given, the totals and counts fit.
    pub open spec fn account_defined(&self, dt: u64, remaining: Option<u64>, finished: bool) -> bool {
        let b = self.book();
        &&& match (remaining, self.spec_fuel_amount()) {
            (Some(r), Some(f)) => r <= f,
            _ => true,
        }
        &&& match (b.acc_f, spec_fuel_used64(remaining, self.spec_fuel_amount())) {
            (Some(a), Some(d)) => a + d <= u64::MAX,
            _ => true,
        }
        &&& b.acc_t + dt <= u64::MAX
        &&& !finished ==> b.refuel_idx < usize::MAX
        &&& finished ==> b.run_idx < usize::MAX
    }

    /// Whether `account` may be called for this slice.
    pub fn can_account(&self, dt: u64, remaining: Option<u64>, finished: bool) -> (ok: bool)
        ensures
            ok == self.account_defined(dt, remaining, finished),
    {
        if let (Some(r), Some(f)) = (remaining, self.fuel_amount) {
            if r > f {
                return false;
            }
            if let Some(a) = self.acc_f {
                if a > u64::MAX - (f - r) {
                    return false;
                }
            }
        }
        if self.acc_t > u64::MAX - dt {
            return false;
        }
        if finished {
            self.run_idx < usize::MAX
        } else {
            self.refuel_idx < usize::MAX
        }
    }

    /// Accounts a slice that ended at `timestamp`, took `dt`, left
    /// `remaining` fuel and either finished the program or paused it, and
    /// returns its report with the totals including the slice.  After a
    /// paused slice the next slice belongs to the same run; after the last one
    /// the next run starts with fresh totals.
    pub fn account(
        &mut self,
        timestamp: u64,
        dt: u64,
        remaining: Option<u64>,
        finished: bool,
        intruder_break: bool,
        intruder_set_mask: usize,
        perf_info: Option<PerfInfo>,
    ) -> (update: SliceUpdate)
        requires
            old(self).account_defined(dt, remaining, finished),
        ensures
            update.timestamp == timestamp,
            update.fuel == old(self).spec_fuel_amount(),
            update.run_idx == old(self).book().run_idx,
            update.refuel_idx == old(self).book().refuel_idx,
            update.intruder_break == intruder_break,
            update.intruder_set_mask == intruder_set_mask,
            update.dt == dt,
            update.df == spec_fuel_used64(remaining, old(self).spec_fuel_amount()),
            update.acc_t == old(self).book().acc_t + dt,
            update.acc_f == (match (old(self).book().acc_f, update.df) {
                (Some(a), Some(d)) => Some((a + d) as u64),
                _ => None,
            }),
            update.perf_info == perf_info,
            final(self).spec_fuel_amount() == old(self).spec_fuel_amount(),
            final(self).book() == book_step(
                old(self).book(),
                old(self).spec_fuel_amount(),
                dt,
                remaining,
                finished,
            ),
    {
        let df = match (remaining, self.fuel_amount) {
            (Some(r), Some(f)) => Some(f - r),
            _ => None,
        };
        self.acc_t = self.acc_t + dt;
        self.acc_f = match (self.acc_f, df) {
            (Some(a), Some(d)) => Some(a + d),
            _ => None,
        };
        let update = SliceUpdate {
            timestamp,
            fuel: self.fuel_amount,
            run_idx: self.run_idx,
            refuel_idx: self.refuel_idx,
            intruder_break,
            intruder_set_mask,
            dt,
            df,
            acc_t: self.acc_t,
            acc_f: self.acc_f,
            perf_info,
        };
        if finished {
            self.refuel_idx = 0;
            self.run_idx = self.run_idx + 1;
            self.acc_t = 0;
            self.acc_f = match self.fuel_amount {
                Some(_) => Some(0),
                None => None,
            };
        } else {
            self.refuel_idx = self.refuel_idx + 1;
        }
        update
    }
}

/// How the measuring runner goes on after a slice.
#[derive(Clone, Copy, Debug, PartialEq, Eq, Structural)]
pub enum MeasuredNext {
    /// Resume the program with `fuel` for the next slice.
    Resume { fuel: Option<usize> },
    /// The program has finished.
    Stop,
}

/// The fuel a slice of the measuring runner used, measured against the fuel
/// the runner was configured with.
pub open spec fn spec_measured_used(remaining: Option<usize>, fuel: Option<usize>) -> Option<usize> {
    match (remaining, fuel) {
        (Some(r), Some(f)) => Some((f - r) as usize),
        _ => None,
    }
}

/// The state of one run of the stand-alone measuring runner: the run's
/// number, the number of the current slice, and the fuel it was configured
/// with.
pub struct MeasuredRun {
    pub i: usize,
    pub j: usize,
    pub fuel: Option<usize>,
}

impl MeasuredRun {
    /// Run `i`, before its first slice, configured with `fuel`.
    pub fn new(i: usize, fuel: Option<usize>) -> (r: Self)
        ensures
            r.i == i,
            r.j == 0,
            r.fuel == fuel,
    {
        MeasuredRun { i, j: 0, fuel }
    }

    /// Measures a slice that ended at `timestamp_unix` after `dt` with
    /// `remaining` fuel left, the fuel used counted against the configured
    /// fuel; a slice that ran out of fuel is followed by the next one, which
    /// gets as much fuel as this one used; a finished program stops.
    pub fn step(&mut self, timestamp_unix: u64, dt: u64, remaining: Option<usize>, finished: bool) -> (res: (
        WasmMeasurement,
        MeasuredNext,
    ))
        requires
            match (remaining, old(self).fuel) {
                (Some(r), Some(f)) => r <= f,
                _ => true,
            },
            !finished ==> old(self).j < usize::MAX,
        ensures
            res.0.timestamp_unix == timestamp_unix,
            res.0.i == old(self).i,
            res.0.j == old(self).j,
            res.0.dt == dt,
            res.0.df == spec_measured_used(remaining, old(self).fuel),
            finished ==> res.1 == MeasuredNext::Stop,
            !finished ==> res.1 == (MeasuredNext::Resume {
                fuel: spec_measured_used(remaining, old(self).fuel),
            }),
            final(self).i == old(self).i,
            final(self).fuel == old(self).fuel,
            final(self).j == (if finished { old(self).j as int } else { old(self).j + 1 }),
    {
        let m = WasmMeasurement::new(timestamp_unix, self.i, self.j, dt, remaining, self.fuel);
        if finished {
            (m, MeasuredNext::Stop)
        } else {
            self.j = self.j + 1;
            (m, MeasuredNext::Resume { fuel: m.df })
        }
    }
}

/// The state of the traced bare-metal run: the fuel each slice gets and the
/// number of the current fuel cycle.
pub struct TracedRun {
    pub fuel: Option<u32>,
    pub fuel_cycle: usize,
}

/// The fuel of each slice of the traced run.
pub const TRACED_FUEL: u32 = 10000;

impl TracedRun {
    /// A traced run before its first slice.
    pub fn new() -> (r: Self)
        ensures
            r.fuel == Some(TRACED_FUEL),
            r.fuel_cycle == 0,
    {
        TracedRun { fuel: Some(TRACED_FUEL), fuel_cycle: 0 }
    }

    /// Traces a slice that ended as `end`: its cycle number and the fuel it
    /// used; a paused program is refuelled with the same fuel as the next
    /// cycle, a finished one stops.
    pub fn step(&mut self, end: SliceEnd) -> (res: (usize, Option<u32>, NextStep))
        requires
            remaining_within(end.remaining(), old(self).fuel),
            (end is Paused) ==> old(self).fuel_cycle < usize::MAX,
        ensures
            res.0 == old(self).fuel_cycle,
            res.1 == spec_fuel_used(end.remaining(), old(self).fuel),
            final(self).fuel == old(self).fuel,
            (end is Paused) ==> final(self).fuel_cycle == old(self).fuel_cycle + 1 && res.2
                == (NextStep::Resume { fuel: old(self).fuel }),
            (end is Finished) ==> final(self).fuel_cycle == old(self).fuel_cycle && res.2
                == NextStep::Stop,
    {
        let remaining = match end {
            SliceEnd::Paused { remaining_fuel } => remaining_fuel,
            SliceEnd::Finished { remaining_fuel } => remaining_fuel,
        };
        let df = fuel_used(remaining, self.fuel);
        let cycle = self.fuel_cycle;
        match end {
            SliceEnd::Paused { .. } => {
                self.fuel_cycle = self.fuel_cycle + 1;
                (cycle, df, NextStep::Resume { fuel: self.fuel })
            },
            SliceEnd::Finished { .. } => (cycle, df, NextStep::Stop),
        }
    }
}

/// The run count of the native runner after one more run.
pub open spec fn native_step(run_idx: int) -> int {
    run_idx + 1
}

/// The run count of a fresh native runner after `n` runs.
pub open spec fn native_replay(n: nat) -> int
    decreases n,
{
    if n == 0 {
        0
    } else {
        native_step(native_replay((n - 1) as nat))
    }
}

/// A fresh native runner counts its runs: after `n` runs its count is `n`, so
/// the report of run `i` (counted from zero) carries the number `i`.
pub proof fn law_native_runs(n: nat)
    ensures
        native_replay(n) == n,
        forall|i: nat| i < n ==> #[trigger] native_replay(i) == i,
    decreases n,
{
    if n > 0 {
        law_native_runs((n - 1) as nat);
    }
}

/// The bookkeeping of the runner that calls the kernel natively: the number
/// of runs so far.
pub struct NativeRunner {
    run_idx: usize,
}

impl NativeRunner {
    /// The number of runs so far.
    pub closed spec fn spec_run_idx(&self) -> usize {
        self.run_idx
    }

    /// A runner before its first run.
    pub fn new() -> (r: Self)
        ensures
            r.spec_run_idx() == native_replay(0),
    {
        NativeRunner { run_idx: 0 }
    }

    /// The number of runs so far.
    pub fn run_idx(&self) -> (n: usize)
        ensures
            n == self.spec_run_idx(),
    {
        self.run_idx
    }

    /// Accounts one native run that ended at `timestamp` and took `dt`: no
    /// fuel is counted, every run is a single slice.
    pub fn account(
        &mut self,
        timestamp: u64,
        dt: u64,
        intruder_break: bool,
        intruder_set_mask: usize,
        perf_info: Option<PerfInfo>,
    ) -> (update: SliceUpdate)
        requires
            old(self).spec_run_idx() < usize::MAX,
        ensures
            update == (SliceUpdate {
                timestamp,
                fuel: None,
                run_idx: old(self).spec_run_idx(),
                refuel_idx: 0,
                intruder_break,
                intruder_set_mask,
                dt,
                df: None,
                acc_t: dt,
                acc_f: None,
                perf_info,
            }),
            final(self).spec_run_idx() == native_step(old(self).spec_run_idx() as int),
    {
        let update = SliceUpdate {
            timestamp,
            fuel: None,
            run_idx: self.run_idx,
            refuel_idx: 0,
            intruder_break,
            intruder_set_mask,
            dt,
            df: None,
            acc_t: dt,
            acc_f: None,
            perf_info,
        };
        self.run_idx = self.run_idx + 1;
        update
    }
}

} // verus!
