use interference_mitigation::runner::MeasuredRun;
use interference_mitigation::records::WasmMeasurement;
use interference_mitigation::records::Ipc;
use interference_mitigation::fuel::Mitigator;
use interference_mitigation::records::{Irq, PerfInfo, SliceUpdate};
use interference_mitigation::runner::{
    FuelRun, MeasuredNext, NativeRunner, NextStep, SliceEnd, TracedRun, WasmRunLogger, WasmRunner,
};

#[test]
fn fuel_run_starts_with_initial_request() {
    let (run, log) = FuelRun::start(Some(100), Some(50));
    assert_eq!(run.fuel_cycle, 1);
    assert_eq!(run.acc_t, 0);
    assert_eq!(run.acc_f, Some(0));
    assert_eq!(log.fuel_cycle, 0);
    assert_eq!(log.df, Some(0));
    assert_eq!(log.irq, Some(Irq::Unfreeze(1)));
    let (_, log0) = FuelRun::start(None, Some(0));
    assert_eq!(log0.irq, Some(Irq::Freeze(1)));
}

#[test]
fn fuel_run_accumulates_and_refuels() {
    let (mut run, _) = FuelRun::start(Some(100), Some(1000));
    let end = SliceEnd::Paused { remaining_fuel: Some(0) };
    assert!(run.can_step(200, end));
    // 200 ns over 100 fuel: 2000 > 1000
    let (log, next) = run.step(200, end);
    assert_eq!(log.fuel_cycle, 1);
    assert_eq!(log.df, Some(100));
    assert_eq!(log.acc_t, 200);
    assert_eq!(log.acc_f, Some(100));
    assert_eq!(log.irq, Some(Irq::Freeze(1)));
    assert_eq!(next, NextStep::Resume { fuel: Some(100) });
    assert_eq!(run.fuel_cycle, 2);
    let end = SliceEnd::Finished { remaining_fuel: Some(60) };
    // 200 + 10 ns over 140 fuel: 1500 > 1000
    let (log, next) = run.step(10, end);
    assert_eq!(log.fuel_cycle, 2);
    assert_eq!(log.df, Some(40));
    assert_eq!(log.acc_t, 210);
    assert_eq!(log.acc_f, Some(140));
    assert_eq!(log.irq, Some(Irq::Freeze(1)));
    assert_eq!(next, NextStep::Stop);
    assert_eq!(run.fuel_cycle, 2);
}

#[test]
fn fuel_run_without_fuel_counts_no_fuel() {
    let (mut run, _) = FuelRun::start(None, Some(1000));
    let end = SliceEnd::Finished { remaining_fuel: None };
    assert!(run.can_step(5, end));
    let (log, next) = run.step(5, end);
    assert_eq!(log.df, None);
    assert_eq!(log.acc_f, None);
    assert_eq!(log.irq, None);
    assert_eq!(next, NextStep::Stop);
}

#[test]
fn fuel_run_refuses_impossible_slices() {
    let (run, _) = FuelRun::start(Some(100), Some(1000));
    // more fuel left than given
    assert!(!run.can_step(1, SliceEnd::Paused { remaining_fuel: Some(101) }));
    // no fuel used at all leaves a zero total to divide by
    assert!(!run.can_step(1, SliceEnd::Paused { remaining_fuel: Some(100) }));
    let _ = Mitigator::new(None, 0);
}

#[test]
fn logger_entry_copies_fields() {
    let logger = WasmRunLogger::new(Some(7), Some(8), 1, 2, 3);
    let (_, log) = FuelRun::start(Some(7), Some(8));
    let msg = logger.entry(99, log);
    assert_eq!(msg.timestamp, 99);
    assert_eq!((msg.i, msg.j, msg.k, msg.l), (1, 2, 3, 0));
    assert_eq!(msg.fuel, Some(7));
    assert_eq!(msg.wctpf, Some(8));
    assert_eq!(msg.irq, Some(Irq::Unfreeze(1)));
}

#[test]
fn wasm_runner_counts_slices_and_runs() {
    let mut r = WasmRunner::new(Some(10));
    assert!(!r.is_paused());
    assert!(r.can_account(5, Some(0), false));
    let u = r.account(100, 5, Some(0), false, true, 0x3FF, None);
    assert_eq!(
        u,
        SliceUpdate {
            timestamp: 100,
            fuel: Some(10),
            run_idx: 0,
            refuel_idx: 0,
            intruder_break: true,
            intruder_set_mask: 0x3FF,
            dt: 5,
            df: Some(10),
            acc_t: 5,
            acc_f: Some(10),
            perf_info: None,
        }
    );
    assert!(r.is_paused());
    let u = r.account(110, 7, Some(4), true, false, 0x3FE, None);
    assert_eq!((u.run_idx, u.refuel_idx, u.df, u.acc_t, u.acc_f), (0, 1, Some(6), 12, Some(16)));
    assert!(!r.is_paused());
    let u = r.account(120, 3, Some(9), true, false, 0, None);
    assert_eq!((u.run_idx, u.refuel_idx, u.df, u.acc_t, u.acc_f), (1, 0, Some(1), 3, Some(1)));
}

#[test]
fn wasm_runner_totals_exceed_32_bits() {
    let mut r = WasmRunner::new(Some(u32::MAX as u64));
    r.account(0, 1, Some(0), false, false, 0, None);
    assert!(r.can_account(1, Some(0), false));
    let u = r.account(0, 1, Some(0), false, false, 0, None);
    assert_eq!(u.acc_f, Some(2 * u32::MAX as u64));
}

#[test]
fn wasm_runner_run_sequence() {
    // two runs: paused, paused, finished; then paused, finished
    let mut r = WasmRunner::new(Some(100));
    let slices = [(3, 10, false), (4, 20, false), (5, 90, true), (6, 0, false), (7, 50, true)];
    let mut finished = 0;
    let mut since = 0;
    let mut acc_t = 0;
    for (dt, rem, fin) in slices {
        let u = r.account(0, dt, Some(rem), fin, false, 0, None);
        assert_eq!(u.run_idx, finished);
        assert_eq!(u.refuel_idx, since);
        acc_t += dt;
        assert_eq!(u.acc_t, acc_t);
        if fin {
            finished += 1;
            since = 0;
            acc_t = 0;
        } else {
            since += 1;
        }
        assert_eq!(r.is_paused(), !fin);
    }
}

#[test]
fn wasm_runner_refuses_overfull_slices() {
    let r = WasmRunner::new(Some(10));
    assert!(!r.can_account(1, Some(11), false));
    let unlimited = WasmRunner::new(None);
    assert!(unlimited.can_account(1, Some(11), false));
}

#[test]
fn native_runner_counts_runs() {
    let mut r = NativeRunner::new();
    let info = PerfInfo {
        cycles: Some(1),
        instr: None,
        l1d_access: Some(2),
        l2d_access: Some(3),
        bus_cycles: Some(4),
        bus_access: None,
    };
    let u = r.account(50, 20, false, 0x3FF, Some(info));
    assert_eq!(u.run_idx, 0);
    assert_eq!(u.acc_t, 20);
    assert_eq!(u.fuel, None);
    assert_eq!(u.perf_info, Some(info));
    for i in 1..5 {
        assert_eq!(r.run_idx(), i);
        let u = r.account(80, 30, true, 0x3F0, None);
        assert_eq!(u.run_idx, i);
        assert_eq!(u.refuel_idx, 0);
        assert!(u.intruder_break);
    }
    assert_eq!(r.run_idx(), 5);
}

#[test]
fn traced_run_refuels_until_finished() {
    let mut t = TracedRun::new();
    assert_eq!(t.fuel, Some(10000));
    let (cycle, df, next) = t.step(SliceEnd::Paused { remaining_fuel: Some(0) });
    assert_eq!((cycle, df, next), (0, Some(10000), NextStep::Resume { fuel: Some(10000) }));
    let (cycle, df, next) = t.step(SliceEnd::Finished { remaining_fuel: Some(9000) });
    assert_eq!((cycle, df, next), (1, Some(1000), NextStep::Stop));
    assert_eq!(t.fuel_cycle, 1);
}

#[test]
fn measured_run_counts_slices() {
    let mut r = MeasuredRun::new(4, Some(50));
    let (m, next) = r.step(1000, 10, Some(20), false);
    assert_eq!((m.i, m.j, m.dt, m.df, m.timestamp_unix), (4, 0, 10, Some(30), 1000));
    // the next slice gets as much fuel as this one used
    assert_eq!(next, MeasuredNext::Resume { fuel: Some(30) });
    // fuel used is still counted against the configured fuel
    let (m, next) = r.step(2000, 11, Some(25), false);
    assert_eq!((m.j, m.df), (1, Some(25)));
    assert_eq!(next, MeasuredNext::Resume { fuel: Some(25) });
    let (m, next) = r.step(3000, 12, Some(45), true);
    assert_eq!((m.j, m.df), (2, Some(5)));
    assert_eq!(next, MeasuredNext::Stop);
    assert_eq!(r.j, 2);
    let mut unlimited = MeasuredRun::new(0, None);
    let (m, next) = unlimited.step(0, 1, Some(3), false);
    assert_eq!(m.df, None);
    assert_eq!(next, MeasuredNext::Resume { fuel: None });
}

#[test]
fn measurement_fuel_used() {
    let m = WasmMeasurement::new(1, 2, 3, 4, Some(6), Some(10));
    assert_eq!(m.df, Some(4));
    assert_eq!(WasmMeasurement::new(1, 2, 3, 4, None, Some(10)).df, None);
}

#[test]
fn ipc_message_carries_request() {
    let logger = WasmRunLogger::new(None, Some(0), 0, 0, 0);
    let (_, log) = FuelRun::start(None, Some(0));
    let msg = logger.entry(0, log);
    assert_eq!(msg.irq(), Some(Irq::Freeze(1)));
}
