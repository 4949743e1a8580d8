use interference_mitigation::intruder::step_target;
use interference_mitigation::counter::{CounterValue, PerfMon};
use interference_mitigation::intruder::{next_index, next_set_mask, target_address, BUFFER_LEN};
use interference_mitigation::stm::{stm_address, stm_write_str, StmType, StmWrite, StmWriter};
use interference_mitigation::systick::SysTick;

#[test]
fn counter_ok_only_without_overflow() {
    assert_eq!(CounterValue::Counted(5u32).ok(), Some(5));
    assert_eq!(CounterValue::Overflowed(5u32).ok(), None);
}

#[test]
fn chained_counter_joins_halves() {
    let joined = CounterValue::Counted(7u32).chain(CounterValue::Counted(2u32));
    assert_eq!(joined, CounterValue::Counted(2 * (1u64 << 32) + 7));
    let lower_overflowed = CounterValue::Overflowed(7u32).chain(CounterValue::Counted(1u32));
    assert_eq!(lower_overflowed, CounterValue::Counted((1u64 << 32) + 7));
    let upper_overflowed = CounterValue::Counted(7u32).chain(CounterValue::Overflowed(3u32));
    assert_eq!(upper_overflowed, CounterValue::Overflowed(3u64));
}

#[test]
fn perfmon_report() {
    let info = PerfMon::info(
        CounterValue::Counted(1000u64),
        [
            CounterValue::Counted(1u32),
            CounterValue::Counted(1u32),
            CounterValue::Overflowed(9u32),
            CounterValue::Counted(4u32),
            CounterValue::Counted(5u32),
            CounterValue::Counted(6u32),
        ],
    );
    assert_eq!(info.cycles, Some(1000));
    assert_eq!(info.instr, Some((1u64 << 32) + 1));
    assert_eq!(info.l1d_access, None);
    assert_eq!(info.l2d_access, Some(4));
    assert_eq!(info.bus_cycles, Some(5));
    assert_eq!(info.bus_access, Some(6));
}

#[test]
fn systick_microseconds() {
    assert_eq!(SysTick::get_time_us(100_000_000, 100_000_000), 1_000_000);
    // 62.5 MHz counts 62 ticks per microsecond once rounded down
    assert_eq!(SysTick::get_time_us(620, 62_500_000), 10);
    assert!(!SysTick::wait_expired(10, 5, 15));
    assert!(SysTick::wait_expired(10, 5, 16));
}

#[test]
fn set_masks_cycle() {
    let mut m = 0x3FF;
    let mut seen = vec![];
    for _ in 0..5 {
        seen.push(m);
        m = next_set_mask(m);
    }
    assert_eq!(seen, vec![0x3FF, 0x3FE, 0x3FC, 0x3F8, 0x3F0]);
    assert_eq!(m, 0x3FF);
    assert_eq!(next_set_mask(0x123), 0x3FF);
}

#[test]
fn walk_stays_in_buffer() {
    assert_eq!(next_index(0), 1000003 % BUFFER_LEN);
    let mut i = 0;
    for _ in 0..1000 {
        i = next_index(i);
        assert!(i < BUFFER_LEN);
    }
}

#[test]
fn target_clears_unmasked_sets_and_offset() {
    let addr: usize = 0xABCD_0000 | (0x2A5 << 6) | 0x17;
    let t = target_address(addr, 0x3F0);
    assert_eq!(t >> 16, addr >> 16);
    assert_eq!((t >> 6) & 0x3FF, 0x2A5 & 0x3F0);
    assert_eq!(t & 0x3F, 0);
    assert_eq!(target_address(addr, 0x3FF), addr & !0x3F);
}

#[test]
fn stm_frame_of_message() {
    let w = StmWriter::new(3);
    let (writes, n) = w.write(&[1, 2, 3]);
    assert_eq!(n, 3);
    assert_eq!(
        writes,
        vec![
            StmWrite { port: 3, typ: StmType::G_DTS, data: 1 },
            StmWrite { port: 3, typ: StmType::G_D, data: 2 },
            StmWrite { port: 3, typ: StmType::G_D, data: 3 },
            StmWrite { port: 3, typ: StmType::G_FLAG, data: 0 },
        ]
    );
    let (none, zero) = w.write(&[]);
    assert!(none.is_empty());
    assert_eq!(zero, 0);
}

#[test]
fn stm_string_writes() {
    assert_eq!(stm_address(1, 2, 0x10), 0xF800_0000 + 0x1000 + 0x200 + 0x10);
    let writes = stm_write_str(0, 1, "ab");
    assert_eq!(
        writes,
        vec![
            (0xF800_0110, b'a'),
            (0xF800_0118, b'b'),
            (0xF800_0168, 123),
        ]
    );
}

#[test]
fn set_masks_keep_fewer_sets() {
    let mut m = 0x3FF;
    for _ in 0..4 {
        let next = next_set_mask(m);
        assert_eq!(next & m, next);
        assert_ne!(next, m);
        m = next;
    }
}

#[test]
fn chained_value_splits_back() {
    for (lo, hi) in [(0u32, 0u32), (7, 2), (u32::MAX, u32::MAX), (1, 0)] {
        let CounterValue::Counted(v) = CounterValue::Counted(lo).chain(CounterValue::Counted(hi)) else {
            panic!("upper half did not overflow");
        };
        assert_eq!(v >> 32, hi as u64);
        assert_eq!(v & 0xFFFF_FFFF, lo as u64);
    }
}

#[test]
fn intruder_writes_stay_in_its_buffer() {
    let base: usize = 0x4010_0000;
    let mut i = 0;
    for mask in [0x3FF, 0x3FE, 0x3FC, 0x3F8, 0x3F0] {
        for _ in 0..200 {
            i = next_index(i);
            let t = step_target(base, i, mask);
            assert!(base <= t && t < base + BUFFER_LEN);
            assert_eq!(t, target_address(base + i, mask));
        }
    }
}
