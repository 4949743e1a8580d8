//! Fuel accounting and the mitigation decision.
//!
//! A WebAssembly program runs in slices: each slice is given a fixed amount of
//! interpreter fuel and stops when it is used up.  After every slice the
//! runner knows how long the slice took and how much fuel it used; from the
//! running totals it derives the average time per fuel unit, and freezes the
//! interfering control group when that average exceeds the worst case
//! allowed (`wctpf`), or thaws it when the average falls clearly below it.
use vstd::prelude::*;
use crate::records::Irq;

verus! {

/// The id of the control group that holds the interfering processes.
pub const INTERFERER_GROUP: usize = 1;

/// The fuel a slice used: the fuel it was given minus the fuel left, when
/// both are known.
pub open spec fn spec_fuel_used(remaining: Option<u32>, fuel: Option<u32>) -> Option<u32> {
    match (remaining, fuel) {
        (Some(r), Some(f)) => Some((f - r) as u32),
        _ => None,
    }
}

/// A running fuel total plus the fuel of one more slice, when both are known.
pub open spec fn spec_add_fuel(acc: Option<u32>, df: Option<u32>) -> Option<u32> {
    match (acc, df) {
        (Some(a), Some(d)) => Some((a + d) as u32),
        _ => None,
    }
}

/// No more fuel remains than was given.
pub open spec fn remaining_within(remaining: Option<u32>, fuel: Option<u32>) -> bool {
    match (remaining, fuel) {
        (Some(r), Some(f)) => r <= f,
        _ => true,
    }
}

/// Adding `df` to the running total `acc` does not overflow.
pub open spec fn total_within(acc: Option<u32>, df: Option<u32>) -> bool {
    match (acc, df) {
        (Some(a), Some(d)) => a + d <= u32::MAX,
        _ => true,
    }
}

/// The fuel a slice used.
pub fn fuel_used(remaining: Option<u32>, fuel: Option<u32>) -> (df: Option<u32>)
    requires
        remaining_within(remaining, fuel),
    ensures
        df == spec_fuel_used(remaining, fuel),
{
    match (remaining, fuel) {
        (Some(r), Some(f)) => Some(f - r),
        _ => None,
    }
}

/// Adds the fuel of one slice to a running total.
pub fn add_fuel(acc: Option<u32>, df: Option<u32>) -> (total: Option<u32>)
    requires
        total_within(acc, df),
    ensures
        total == spec_add_fuel(acc, df),
{
    match (acc, df) {
        (Some(a), Some(d)) => Some(a + d),
        _ => None,
    }
}

/// The running fuel total after slices that ended with `rems` left, each
/// slice given `fuel`, starting from `acc`.
pub open spec fn fold_fuel(acc: Option<u32>, rems: Seq<Option<u32>>, fuel: Option<u32>) -> Option<u32>
    decreases rems.len(),
{
    if rems.len() == 0 {
        acc
    } else {
        fold_fuel(spec_add_fuel(acc, spec_fuel_used(rems[0], fuel)), rems.drop_first(), fuel)
    }
}

/// The fuel given to `n` slices of `f` each, minus the fuel left at the ends
/// of the slices (all known).
pub open spec fn fuel_given_minus_left(f: int, rems: Seq<Option<u32>>) -> int
    decreases rems.len(),
{
    if rems.len() == 0 {
        0
    } else {
        (f - rems[0].unwrap()) + fuel_given_minus_left(f, rems.drop_first())
    }
}

/// The fuel total of a run is the fuel given to its slices minus the fuel left
/// at their ends, when the interpreter counts fuel, the remainders are known
/// and the total fits; without a fuel limit the total is unknown after the
/// first slice.
pub proof fn law_fuel_total_is_sum(acc: u32, rems: Seq<Option<u32>>, fuel: Option<u32>)
    requires
        fuel is Some ==> forall|i: int|
            0 <= i < rems.len() ==> (#[trigger] rems[i]) is Some && rems[i].unwrap()
                <= fuel.unwrap(),
        fuel is Some ==> acc + fuel_given_minus_left(fuel.unwrap() as int, rems) <= u32::MAX,
    ensures
        fuel is Some ==> fold_fuel(Some(acc), rems, fuel) == Some(
            (acc + fuel_given_minus_left(fuel.unwrap() as int, rems)) as u32,
        ),
        fuel is None && rems.len() > 0 ==> fold_fuel(Some(acc), rems, fuel) is None,
    decreases rems.len(),
{
    if rems.len() > 0 {
        let rest = rems.drop_first();
        if fuel is Some {
            let f = fuel.unwrap();
            assert(rems[0] is Some && rems[0].unwrap() <= f);
            lemma_given_minus_left_nonneg(f as int, rest);
            let d = (f - rems[0].unwrap()) as u32;
            assert forall|i: int| 0 <= i < rest.len() implies (#[trigger] rest[i]) is Some
                && rest[i].unwrap() <= f by {
                assert(rest[i] == rems[i + 1]);
            }
            law_fuel_total_is_sum((acc + d) as u32, rest, fuel);
        } else {
            lemma_fold_unknown(rest, fuel);
        }
    }
}

/// Slices that never leave more fuel than they get use a total that is not
/// negative.
pub proof fn lemma_given_minus_left_nonneg(f: int, rems: Seq<Option<u32>>)
    requires
        forall|i: int| 0 <= i < rems.len() ==> (#[trigger] rems[i]) is Some && rems[i].unwrap() <= f,
    ensures
        fuel_given_minus_left(f, rems) >= 0,
    decreases rems.len(),
{
    if rems.len() > 0 {
        let rest = rems.drop_first();
        assert(rems[0] is Some);
        assert forall|i: int| 0 <= i < rest.len() implies (#[trigger] rest[i]) is Some
            && rest[i].unwrap() <= f by {
            assert(rest[i] == rems[i + 1]);
        }
        lemma_given_minus_left_nonneg(f, rest);
    }
}

/// Once the total is unknown it stays unknown.
pub proof fn lemma_fold_unknown(rems: Seq<Option<u32>>, fuel: Option<u32>)
    requires
        fuel is None,
    ensures
        fold_fuel(None, rems, fuel) is None,
    decreases rems.len(),
{
    if rems.len() > 0 {
        lemma_fold_unknown(rems.drop_first(), fuel);
    }
}

/// The average time per fuel unit, in picoseconds: the accumulated time in
/// nanoseconds times one thousand, kept to 64 bits, divided by the fuel.
pub open spec fn avg_time_per_fuel(acc_t: u64, acc_f: u32) -> int {
    ((acc_t * 1000) % 0x1_0000_0000_0000_0000) / (acc_f as int)
}

/// The mitigation decision for threshold `wctpf` with hysteresis `hyst`: with
/// a threshold and a known fuel total, freeze the interferer when the average
/// time per fuel exceeds the threshold, thaw it when the average falls below
/// the threshold minus the hysteresis, and otherwise repeat `last`; without
/// either, no request.
pub open spec fn mitigation(
    wctpf: Option<u64>,
    hyst: u64,
    last: Option<Irq>,
    acc_t: u64,
    acc_f: Option<u32>,
) -> Option<Irq> {
    match (wctpf, acc_f) {
        (Some(w), Some(f)) => {
            let avg = avg_time_per_fuel(acc_t, f);
            if avg > w {
                Some(Irq::Freeze(INTERFERER_GROUP))
            } else if avg < w - hyst {
                Some(Irq::Unfreeze(INTERFERER_GROUP))
            } else {
                last
            }
        },
        _ => None,
    }
}

/// The decision can be taken without a division by zero, and the threshold
/// minus the hysteresis, where it is needed, does not drop below zero.
pub open spec fn mitigation_defined(wctpf: Option<u64>, hyst: u64, acc_t: u64, acc_f: Option<u32>) -> bool {
    &&& acc_f != Some(0u32)
    &&& match (wctpf, acc_f) {
        (Some(w), Some(f)) => avg_time_per_fuel(acc_t, f) <= w ==> hyst <= w,
        _ => true,
    }
}

/// More time for the same fuel never relaxes a freeze: when the average for
/// `t1` freezes the interferer, so does the average for any longer time `t2`
/// (as long as the scaled time fits in 64 bits).
pub proof fn law_freeze_persists_with_more_time(
    wctpf: Option<u64>,
    hyst: u64,
    last: Option<Irq>,
    t1: u64,
    t2: u64,
    f: u32,
)
    requires
        f > 0,
        t1 <= t2,
        t2 * 1000 < 0x1_0000_0000_0000_0000,
        mitigation(wctpf, hyst, last, t1, Some(f)) == Some(Irq::Freeze(INTERFERER_GROUP)),
    ensures
        mitigation(wctpf, hyst, last, t2, Some(f)) == Some(Irq::Freeze(INTERFERER_GROUP)),
{
    vstd::arithmetic::div_mod::lemma_small_mod((t1 * 1000) as nat, 0x1_0000_0000_0000_0000nat);
    vstd::arithmetic::div_mod::lemma_small_mod((t2 * 1000) as nat, 0x1_0000_0000_0000_0000nat);
    vstd::arithmetic::div_mod::lemma_div_is_ordered(t1 * 1000, t2 * 1000, f as int);
}

/// Less time for the same fuel never turns a thaw into a freeze: when the
/// average for `t2` thaws the interferer, so does the average for any shorter
/// time `t1`.
pub proof fn law_thaw_persists_with_less_time(
    wctpf: Option<u64>,
    hyst: u64,
    last: Option<Irq>,
    t1: u64,
    t2: u64,
    f: u32,
)
    requires
        f > 0,
        t1 <= t2,
        t2 * 1000 < 0x1_0000_0000_0000_0000,
        mitigation(wctpf, hyst, last, t2, Some(f)) == Some(Irq::Unfreeze(INTERFERER_GROUP)),
    ensures
        mitigation(wctpf, hyst, last, t1, Some(f)) == Some(Irq::Unfreeze(INTERFERER_GROUP)),
{
    vstd::arithmetic::div_mod::lemma_small_mod((t1 * 1000) as nat, 0x1_0000_0000_0000_0000nat);
    vstd::arithmetic::div_mod::lemma_small_mod((t2 * 1000) as nat, 0x1_0000_0000_0000_0000nat);
    vstd::arithmetic::div_mod::lemma_div_is_ordered(t1 * 1000, t2 * 1000, f as int);
}

/// Decides, from the running totals of a run, whether the interfering group
/// should be frozen or thawed.
pub struct Mitigator {
    wctpf: Option<u64>,
    wctpf_hyst: u64,
    last_irq: Option<Irq>,
}

impl Mitigator {
    /// The worst-case time per fuel allowed, if any.
    pub closed spec fn spec_wctpf(&self) -> Option<u64> {
        self.wctpf
    }

    /// How far below the threshold the average must fall to thaw.
    pub closed spec fn spec_hyst(&self) -> u64 {
        self.wctpf_hyst
    }

    /// The decision repeated while the average stays between the bounds.
    pub closed spec fn spec_last_irq(&self) -> Option<Irq> {
        self.last_irq
    }

    /// A mitigator with threshold `wctpf` and hysteresis `wctpf_hyst`, which
    /// starts out thawing the interferer.
    pub fn new(wctpf: Option<u64>, wctpf_hyst: u64) -> (m: Self)
        ensures
            m.spec_wctpf() == wctpf,
            m.spec_hyst() == wctpf_hyst,
            m.spec_last_irq() == Some(Irq::Unfreeze(INTERFERER_GROUP)),
    {
        Mitigator { wctpf, wctpf_hyst, last_irq: Some(Irq::Unfreeze(INTERFERER_GROUP)) }
    }

    /// The request for accumulated time `acc_t` (nanoseconds) over
    /// accumulated fuel `acc_f`.
    pub fn mitigate(&self, acc_t: u64, acc_f: Option<u32>) -> (irq: Option<Irq>)
        requires
            mitigation_defined(self.spec_wctpf(), self.spec_hyst(), acc_t, acc_f),
        ensures
            irq == mitigation(
                self.spec_wctpf(),
                self.spec_hyst(),
                self.spec_last_irq(),
                acc_t,
                acc_f,
            ),
    {
        let avg: Option<u64> = match acc_f {
            Some(f) => {
                let scaled: u128 = (acc_t as u128) * 1000;
                let low: u64 = (scaled % 0x1_0000_0000_0000_0000u128) as u64;
                Some(low / (f as u64))
            },
            None => None,
        };
        match (self.wctpf, avg) {
            (Some(w), Some(a)) => {
                if a > w {
                    Some(Irq::Freeze(INTERFERER_GROUP))
                } else if a < w - self.wctpf_hyst {
                    Some(Irq::Unfreeze(INTERFERER_GROUP))
                } else {
                    self.last_irq
                }
            },
            _ => None,
        }
    }
}

/// Whether `mitigate` may be called on these totals.
pub fn can_mitigate(m: &Mitigator, acc_t: u64, acc_f: Option<u32>) -> (ok: bool)
    ensures
        ok == mitigation_defined(m.spec_wctpf(), m.spec_hyst(), acc_t, acc_f),
{
    match acc_f {
        Some(f) => {
            if f == 0 {
                return false;
            }
            let scaled: u128 = (acc_t as u128) * 1000;
            let low: u64 = (scaled % 0x1_0000_0000_0000_0000u128) as u64;
            let avg = low / (f as u64);
            match m.wctpf {
                Some(w) => avg > w || m.wctpf_hyst <= w,
                None => true,
            }
        },
        None => true,
    }
}

/// The request sent before a run starts: freeze when the threshold is zero,
/// thaw otherwise, and thaw when there is no threshold.
pub open spec fn spec_initial_irq(wctpf: Option<u64>) -> Option<Irq> {
    match wctpf {
        Some(w) => if w == 0 {
            Some(Irq::Freeze(INTERFERER_GROUP))
        } else {
            Some(Irq::Unfreeze(INTERFERER_GROUP))
        },
        None => Some(Irq::Unfreeze(INTERFERER_GROUP)),
    }
}

/// Before a run starts the interferer is frozen exactly when the threshold is
/// zero (no time per fuel is tolerated); any positive threshold, and running
/// without one, starts with the interferer of group 1 thawed.
pub proof fn law_initial_request(wctpf: Option<u64>)
    ensures
        spec_initial_irq(wctpf) is Some,
        (spec_initial_irq(wctpf) == Some(Irq::Freeze(1usize))) == (wctpf == Some(0u64)),
        spec_initial_irq(wctpf) != Some(Irq::Freeze(1usize)) ==> spec_initial_irq(wctpf) == Some(
            Irq::Unfreeze(1usize),
        ),
        forall|w: u64| w > 0 ==> #[trigger] spec_initial_irq(Some(w)) == Some(Irq::Unfreeze(1usize)),
        spec_initial_irq(None) == Some(Irq::Unfreeze(1usize)),
{
}

/// The request sent before a run starts.
pub fn initial_irq(wctpf: Option<u64>) -> (irq: Option<Irq>)
    ensures
        irq == spec_initial_irq(wctpf),
        irq == (if wctpf == Some(0u64) {
            Some(Irq::Freeze(1usize))
        } else {
            Some(Irq::Unfreeze(1usize))
        }),
{
    match wctpf {
        Some(w) => if w == 0 {
            Some(Irq::Freeze(INTERFERER_GROUP))
        } else {
            Some(Irq::Unfreeze(INTERFERER_GROUP))
        },
        None => Some(Irq::Unfreeze(INTERFERER_GROUP)),
    }
}

/// The fuel settings to run with: each given amount, or one run without a
/// fuel limit when none is given.
pub fn fuel_settings(fuel: Vec<u32>) -> (settings: Vec<Option<u32>>)
    ensures
        fuel@.len() == 0 ==> settings@ == seq![None::<u32>],
        fuel@.len() > 0 ==> settings@ == fuel@.map_values(|f: u32| Some(f)),
{
    let mut settings: Vec<Option<u32>> = Vec::new();
    let mut i: usize = 0;
    while i < fuel.len()
        invariant
            i <= fuel@.len(),
            settings@ == fuel@.subrange(0, i as int).map_values(|f: u32| Some(f)),
        decreases fuel@.len() - i,
    {
        settings.push(Some(fuel[i]));
        i = i + 1;
        assert(fuel@.subrange(0, i as int).map_values(|f: u32| Some(f)) =~= fuel@.subrange(
            0,
            i - 1,
        ).map_values(|f: u32| Some(f)).push(Some(fuel@[i - 1])));
    }
    assert(fuel@.subrange(0, fuel@.len() as int) =~= fuel@);
    if settings.len() == 0 {
        settings.push(None);
        assert(settings@ =~= seq![None::<u32>]);
    }
    settings
}

/// The threshold settings to run with: each given threshold, or one run
/// without mitigation when none is given.
pub fn wctpf_settings(wctpf: Vec<u64>) -> (settings: Vec<Option<u64>>)
    ensures
        wctpf@.len() == 0 ==> settings@ == seq![None::<u64>],
        wctpf@.len() > 0 ==> settings@ == wctpf@.map_values(|w: u64| Some(w)),
{
    let mut settings: Vec<Option<u64>> = Vec::new();
    let mut i: usize = 0;
    while i < wctpf.len()
        invariant
            i <= wctpf@.len(),
            settings@ == wctpf@.subrange(0, i as int).map_values(|w: u64| Some(w)),
        decreases wctpf@.len() - i,
    {
        settings.push(Some(wctpf[i]));
        i = i + 1;
        assert(wctpf@.subrange(0, i as int).map_values(|w: u64| Some(w)) =~= wctpf@.subrange(
            0,
            i - 1,
        ).map_values(|w: u64| Some(w)).push(Some(wctpf@[i - 1])));
    }
    assert(wctpf@.subrange(0, wctpf@.len() as int) =~= wctpf@);
    if settings.len() == 0 {
        settings.push(None);
        assert(settings@ =~= seq![None::<u64>]);
    }
    settings
}

} // verus!
