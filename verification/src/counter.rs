//! Performance counter readings and how they are combined.
use vstd::prelude::*;
use crate::records::PerfInfo;

verus! {

/// A counter reading: its value, or its value after it wrapped around.
#[derive(Clone, Copy, Debug, PartialEq, Eq)]
pub enum CounterValue<T> {
    Counted(T),
    Overflowed(T),
}

/// The value of a 64-bit counter built from a lower and an upper 32-bit half.
pub open spec fn chained_value(lower: u32, upper: u32) -> int {
    upper * 0x1_0000_0000 + lower
}

/// The value a reading carries, whether or not it overflowed.
pub open spec fn raw_value(c: CounterValue<u32>) -> u32 {
    match c {
        CounterValue::Counted(x) => x,
        CounterValue::Overflowed(x) => x,
    }
}

/// A chained reading splits back into its halves: divided by 2^32 it gives
/// the upper half, and its remainder is the lower half.
pub proof fn law_chain_halves(lower: u32, upper: u32)
    ensures
        chained_value(lower, upper) < 0x1_0000_0000_0000_0000,
        chained_value(lower, upper) / 0x1_0000_0000 == upper,
        chained_value(lower, upper) % 0x1_0000_0000 == lower,
{
    let v = chained_value(lower, upper);
    assert(v < 0x1_0000_0000_0000_0000) by (nonlinear_arith)
        requires
            v == upper * 0x1_0000_0000 + lower,
            upper < 0x1_0000_0000,
            lower < 0x1_0000_0000,
    ;
    vstd::arithmetic::div_mod::lemma_fundamental_div_mod_converse(
        v,
        0x1_0000_0000,
        upper as int,
        lower as int,
    );
}

/// Joining halves puts the upper reading above bit 32 and the lower reading
/// below it, whatever the lower half reports; an overflow of the upper half,
/// and only that, overflows the joined counter.
pub proof fn law_chain_joins(lower: CounterValue<u32>, upper: CounterValue<u32>)
    ensures
        upper matches CounterValue::Counted(u) ==> lower.chain_spec(upper) == CounterValue::<
            u64,
        >::Counted((u * 0x1_0000_0000 + raw_value(lower)) as u64),
        upper matches CounterValue::Overflowed(u) ==> lower.chain_spec(upper)
            == CounterValue::<u64>::Overflowed(u as u64),
        (lower.chain_spec(upper) is Overflowed) == (upper is Overflowed),
{
}

impl<T> CounterValue<T> {
    /// The reading, when the counter did not overflow.
    pub fn ok(self) -> (value: Option<T>)
        ensures
            value == (match self {
                CounterValue::Counted(x) => Some(x),
                CounterValue::Overflowed(_) => None,
            }),
    {
        match self {
            CounterValue::Counted(x) => Some(x),
            CounterValue::Overflowed(_) => None,
        }
    }
}

impl CounterValue<u32> {
    /// Combines this reading, the lower half of a chained counter, with the
    /// reading of its upper half: an overflow of the upper half makes the
    /// whole counter overflowed; otherwise the halves are joined, whatever
    /// the lower half reports.
    pub fn chain(self, upper: Self) -> (joined: CounterValue<u64>)
        ensures
            joined == (match upper {
                CounterValue::Overflowed(u) => CounterValue::Overflowed(u as u64),
                CounterValue::Counted(u) => CounterValue::Counted(
                    chained_value(raw_value(self), u) as u64,
                ),
            }),
    {
        let upper = match upper {
            CounterValue::Overflowed(cnt) => return CounterValue::Overflowed(cnt as u64),
            CounterValue::Counted(cnt) => cnt as u64,
        };
        let lower = match self {
            CounterValue::Overflowed(cnt) => cnt as u64,
            CounterValue::Counted(cnt) => cnt as u64,
        };
        let joined = (upper << 32u64) | lower;
        assert(joined == upper * 0x1_0000_0000 + lower) by (bit_vector)
            requires
                joined == (upper << 32u64) | lower,
                upper < 0x1_0000_0000,
                lower < 0x1_0000_0000,
        ;
        CounterValue::Counted(joined)
    }
}

/// Reads the performance monitor's counters into a report.  The counters are
/// set up as: 0 instructions retired (lower half), 1 its upper half, 2 L1 data
/// cache accesses, 3 L2 data cache accesses, 4 bus cycles, 5 bus accesses.
pub struct PerfMon;

impl PerfMon {
    /// The report for a cycle counter reading and the six event counter
    /// readings: cycles, instructions (chained from counters 0 and 1), the two
    /// cache access counts and the two bus counts, each `None` when it
    /// overflowed.
    pub fn info(cycles: CounterValue<u64>, counters: [CounterValue<u32>; 6]) -> (info: PerfInfo)
        ensures
            info.cycles == cycles.ok_spec(),
            info.instr == counters[0].chain_spec(counters[1]).ok_spec(),
            counters[1] matches CounterValue::Counted(u) ==> info.instr == Some(
                (u * 0x1_0000_0000 + raw_value(counters[0])) as u64,
            ),
            (counters[1] is Overflowed) == (info.instr is None),
            info.l1d_access == counters[2].ok_spec(),
            info.l2d_access == counters[3].ok_spec(),
            info.bus_cycles == counters[4].ok_spec(),
            info.bus_access == counters[5].ok_spec(),
    {
        PerfInfo {
            cycles: cycles.ok(),
            instr: counters[0].chain(counters[1]).ok(),
            l1d_access: counters[2].ok(),
            l2d_access: counters[3].ok(),
            bus_cycles: counters[4].ok(),
            bus_access: counters[5].ok(),
        }
    }
}

impl<T> CounterValue<T> {
    /// The reading, when the counter did not overflow.
    pub open spec fn ok_spec(self) -> Option<T> {
        match self {
            CounterValue::Counted(x) => Some(x),
            CounterValue::Overflowed(_) => None,
        }
    }
}

impl CounterValue<u32> {
    /// The joined reading of a lower and an upper half.
    pub open spec fn chain_spec(self, upper: Self) -> CounterValue<u64> {
        match upper {
            CounterValue::Overflowed(u) => CounterValue::Overflowed(u as u64),
            CounterValue::Counted(u) => CounterValue::Counted(chained_value(raw_value(self), u) as u64),
        }
    }
}

} // verus!
