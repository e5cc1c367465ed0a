//! Rolling totals over a meter: the usage of the consumption window, the
//! ratchet (the peak of the longer lookback) and the costs billed from them.

use vstd::prelude::*;
use crate::error::{refused, MeterError};
use crate::meter::Meter;
use crate::reading::{Reading, Timestamp};

verus! {

/// Number of periods whose usage makes up the consumption charge.
pub const WINDOW: usize = 20;

/// Number of periods over which the ratchet looks back for the peak.
pub const RATCHET_WINDOW: usize = 3 * WINDOW;

/// Price of one unit of usage within the consumption window.
pub const KW_RATE: u32 = 20;

/// Price of one unit of peak demand.
pub const KW_RATE_R: u32 = 20;

/// The reading that set the peak of the lookback.
#[derive(Clone, Copy, Debug, PartialEq, Eq, Structural)]
pub struct RatchetValue {
    pub timestamp: Timestamp,
    pub value: u8,
}

/// The most recent `n` readings of `history`, or all of them if there are
/// fewer.
pub open spec fn recent(history: Seq<Reading>, n: nat) -> Seq<Reading> {
    history.subrange(
        if history.len() <= n {
            0
        } else {
            history.len() - n
        },
        history.len() as int,
    )
}

/// Sum of the values of `readings`.
pub open spec fn total_usage(readings: Seq<Reading>) -> int
    decreases readings.len(),
{
    if readings.len() == 0 {
        0
    } else {
        total_usage(readings.drop_last()) + readings.last().value
    }
}

/// Usage within the consumption window of `history`.
pub open spec fn window_usage(history: Seq<Reading>) -> int {
    total_usage(recent(history, WINDOW as nat))
}

/// Whether `readings[i]` is the peak of `readings`: no reading is higher,
/// and every earlier one is lower.
pub open spec fn is_peak(readings: Seq<Reading>, i: int) -> bool {
    &&& 0 <= i < readings.len()
    &&& forall|j: int|
        0 <= j < readings.len() ==> (#[trigger] readings[j]).value <= readings[i].value
    &&& forall|j: int| 0 <= j < i ==> (#[trigger] readings[j]).value < readings[i].value
}

/// Whether `value` is the highest value among `readings`.
pub open spec fn is_highest(readings: Seq<Reading>, value: int) -> bool {
    &&& exists|j: int| 0 <= j < readings.len() && (#[trigger] readings[j]).value == value
    &&& forall|j: int| 0 <= j < readings.len() ==> (#[trigger] readings[j]).value <= value
}

/// Position of the peak of `readings`.
pub open spec fn peak_index(readings: Seq<Reading>) -> int {
    choose|i: int| is_peak(readings, i)
}

/// The ratchet of `history`: the highest of its most recent
/// `RATCHET_WINDOW` readings, and among equally high ones the oldest.
pub open spec fn ratchet_of(history: Seq<Reading>) -> RatchetValue {
    let lookback = recent(history, RATCHET_WINDOW as nat);
    let peak = lookback[peak_index(lookback)];
    RatchetValue { timestamp: peak.timestamp, value: peak.value }
}

/// Cost of the usage within the consumption window of `history`.
pub open spec fn consumption_cost(history: Seq<Reading>) -> int {
    window_usage(history) * KW_RATE
}

/// Cost of the peak demand of `history`.
pub open spec fn demand_cost(history: Seq<Reading>) -> int {
    ratchet_of(history).value * KW_RATE_R
}

/// Whether the latest reading of `history` falls on a day on which bills
/// are due.
pub open spec fn bills_due(history: Seq<Reading>) -> bool {
    history.len() > 0 && history.last().timestamp.spec_is_billing_day()
}

/// A sequence has at most one peak.
pub proof fn lemma_peak_unique(readings: Seq<Reading>, i: int, k: int)
    requires
        is_peak(readings, i),
        is_peak(readings, k),
    ensures
        i == k,
{
    if i < k {
        assert(readings[i].value < readings[k].value);
    } else if k < i {
        assert(readings[k].value < readings[i].value);
    }
}

/// Every sequence but the empty one has a peak.
pub proof fn lemma_peak_exists(readings: Seq<Reading>)
    requires
        readings.len() > 0,
    ensures
        is_peak(readings, peak_index(readings)),
    decreases readings.len(),
{
    let n = readings.len() - 1;
    if n == 0 {
        assert(is_peak(readings, 0));
    } else {
        let earlier = readings.drop_last();
        lemma_peak_exists(earlier);
        let p = peak_index(earlier);
        assert forall|j: int| 0 <= j < n implies (#[trigger] readings[j]).value
            <= earlier[p].value by {
            assert(readings[j] == earlier[j]);
        }
        assert forall|j: int| 0 <= j < p implies (#[trigger] readings[j]).value
            < earlier[p].value by {
            assert(readings[j] == earlier[j]);
        }
        if readings[n].value > earlier[p].value {
            assert(is_peak(readings, n));
        } else {
            assert(is_peak(readings, p));
        }
    }
}

/// The ratchet is one of the readings within the lookback, and none of them
/// is higher.
pub proof fn lemma_ratchet_is_highest(history: Seq<Reading>)
    requires
        history.len() > 0,
    ensures
        is_highest(recent(history, RATCHET_WINDOW as nat), ratchet_of(history).value as int),
        exists|j: int|
            0 <= j < history.len() && history.len() - j <= RATCHET_WINDOW && (
            #[trigger] history[j]).timestamp == ratchet_of(history).timestamp && history[j].value
                == ratchet_of(history).value,
{
    let lookback = recent(history, RATCHET_WINDOW as nat);
    lemma_peak_exists(lookback);
    let p = peak_index(lookback);
    let j = history.len() - lookback.len() + p;
    assert(history[j] == lookback[p]);
}

/// What an `Expenses` stands for.
#[verifier::ext_equal]
pub struct ExpensesView {
    /// Usage within the consumption window, as of the last update.
    pub window_total: int,
    /// Costs settled at the level of the aggregate, one per billing cycle.
    pub expenses: Seq<int>,
    /// Consumption costs, one per billing cycle.
    pub expenses_c1: Seq<int>,
    /// Demand costs, one per billing cycle.
    pub expenses_c2: Seq<int>,
    /// The ratchet as of the last update.
    pub ratchet_val: Option<RatchetValue>,
    /// The ratchet as of the update before the last.
    pub old_ratchet: Option<RatchetValue>,
}

impl ExpensesView {
    /// The totals before any update.
    pub open spec fn initial() -> ExpensesView {
        ExpensesView {
            window_total: 0,
            expenses: Seq::empty(),
            expenses_c1: Seq::empty(),
            expenses_c2: Seq::empty(),
            ratchet_val: None,
            old_ratchet: None,
        }
    }

    /// The totals after an update from `history` on a day on which bills are
    /// due, or are not, as `due` says: the window usage and the ratchet are
    /// those of `history`, the previous ratchet is kept aside, and where
    /// bills are due one consumption cost and one demand cost are appended.
    /// Without a reading the totals stay as they are.
    pub open spec fn updated_when(self, history: Seq<Reading>, due: bool) -> ExpensesView {
        if history.len() == 0 {
            self
        } else {
            ExpensesView {
                window_total: window_usage(history),
                expenses: self.expenses,
                expenses_c1: if due {
                    self.expenses_c1.push(consumption_cost(history))
                } else {
                    self.expenses_c1
                },
                expenses_c2: if due {
                    self.expenses_c2.push(demand_cost(history))
                } else {
                    self.expenses_c2
                },
                ratchet_val: Some(ratchet_of(history)),
                old_ratchet: self.ratchet_val,
            }
        }
    }

    /// The totals after an update from `history`: bills are due where its
    /// latest reading falls on the first of a month.
    pub open spec fn updated(self, history: Seq<Reading>) -> ExpensesView {
        self.updated_when(history, bills_due(history))
    }

    /// The totals with `cost` entered as the cost settled last.
    pub open spec fn with_settled(self, cost: int) -> ExpensesView {
        ExpensesView {
            window_total: self.window_total,
            expenses: self.expenses.push(cost),
            expenses_c1: self.expenses_c1,
            expenses_c2: self.expenses_c2,
            ratchet_val: self.ratchet_val,
            old_ratchet: self.old_ratchet,
        }
    }
}

/// Something whose totals follow a meter.
pub trait Update {
    /// Brings the totals up to date with the readings taken.
    fn update_totals(&mut self, meter: &Meter) -> Result<(), MeterError>;
}

/// The rolling totals and billed costs of one meter.
pub struct Expenses {
    /// Usage within the consumption window, as of the last update.
    pub window_total: u32,
    /// Costs settled at the level of the aggregate, one per billing cycle:
    /// a master meter enters its own consumption cost of the cycle. The
    /// totals of a client hold none.
    pub expenses: Vec<u64>,
    /// Consumption costs, one per billing cycle.
    pub expenses_c1: Vec<u32>,
    /// Demand costs, one per billing cycle.
    pub expenses_c2: Vec<u32>,
    /// The ratchet as of the last update.
    pub ratchet_val: Option<RatchetValue>,
    /// The ratchet as of the update before the last.
    pub old_ratchet: Option<RatchetValue>,
}

impl View for Expenses {
    type V = ExpensesView;

    open spec fn view(&self) -> ExpensesView {
        ExpensesView {
            window_total: self.window_total as int,
            expenses: self.expenses@.map_values(|c: u64| c as int),
            expenses_c1: self.expenses_c1@.map_values(|c: u32| c as int),
            expenses_c2: self.expenses_c2@.map_values(|c: u32| c as int),
            ratchet_val: self.ratchet_val,
            old_ratchet: self.old_ratchet,
        }
    }
}

/// Usage within the consumption window of `meter`.
pub fn window_total_of(meter: &Meter) -> (total: u32)
    ensures
        total == window_usage(meter@),
        total <= 255 * WINDOW,
{
    let n: usize = meter.history.len();
    let start: usize = if n <= WINDOW {
        0
    } else {
        n - WINDOW
    };
    let mut total: u32 = 0;
    let mut i: usize = start;
    while i < n
        invariant
            n == meter@.len(),
            start <= i <= n,
            n - start <= WINDOW,
            total == total_usage(meter@.subrange(start as int, i as int)),
            total <= 255 * (i - start),
        decreases n - i,
    {
        assert(meter@.subrange(start as int, i + 1).drop_last() == meter@.subrange(
            start as int,
            i as int,
        ));
        total = total + meter.history[i].value as u32;
        i = i + 1;
    }
    total
}

/// The ratchet of `meter`, or `None` while it has no reading.
pub fn ratchet_value_of(meter: &Meter) -> (r: Option<RatchetValue>)
    ensures
        meter@.len() == 0 ==> r is None,
        meter@.len() > 0 ==> r == Some(ratchet_of(meter@)),
{
    let n: usize = meter.history.len();
    if n == 0 {
        return None;
    }
    let start: usize = if n <= RATCHET_WINDOW {
        0
    } else {
        n - RATCHET_WINDOW
    };
    let mut best: usize = start;
    let mut i: usize = start + 1;
    while i < n
        invariant
            n == meter@.len(),
            start <= best < i <= n,
            forall|j: int|
                start <= j < i ==> (#[trigger] meter@[j]).value <= meter@[best as int].value,
            forall|j: int|
                start <= j < best ==> (#[trigger] meter@[j]).value < meter@[best as int].value,
        decreases n - i,
    {
        if meter.history[i].value > meter.history[best].value {
            best = i;
        }
        i = i + 1;
    }
    let peak: Reading = meter.history[best];
    proof {
        let lookback = recent(meter@, RATCHET_WINDOW as nat);
        assert(is_peak(lookback, best - start)) by {}
        lemma_peak_unique(lookback, best - start, peak_index(lookback));
    }
    Some(RatchetValue { timestamp: peak.timestamp, value: peak.value })
}

impl Expenses {
    /// Totals before any update: nothing used, nothing billed, no ratchet.
    pub fn new() -> (e: Expenses)
        ensures
            e@ == ExpensesView::initial(),
    {
        Expenses {
            window_total: 0,
            expenses: Vec::new(),
            expenses_c1: Vec::new(),
            expenses_c2: Vec::new(),
            ratchet_val: None,
            old_ratchet: None,
        }
    }
}

impl Expenses {
    /// Recomputes the totals from `meter`, on a day on which bills are due,
    /// or are not, as `due` says: the usage of the last `WINDOW` readings,
    /// the highest of the last `RATCHET_WINDOW`, and, where bills are due,
    /// the costs of both. Without a reading there is nothing to compute
    /// from, and the totals stay as they are.
    pub fn update_totals_when(&mut self, meter: &Meter, due: bool) -> (r: Result<(), MeterError>)
        ensures
            final(self)@ == old(self)@.updated_when(meter@, due),
            r is Ok <==> meter@.len() > 0,
            r is Err ==> r == refused(MeterError::EmptyHistory),
            r is Ok ==> final(self)@.window_total <= 255 * WINDOW,
    {
        let ratchet: RatchetValue = match ratchet_value_of(meter) {
            Some(ratchet) => ratchet,
            None => { return Err(MeterError::EmptyHistory); },
        };
        let total: u32 = window_total_of(meter);
        self.window_total = total;
        self.old_ratchet = self.ratchet_val;
        self.ratchet_val = Some(ratchet);
        if due {
            let cost1: u32 = total * KW_RATE;
            let cost2: u32 = ratchet.value as u32 * KW_RATE_R;
            self.expenses_c1.push(cost1);
            self.expenses_c2.push(cost2);
            assert(self@.expenses_c1 == old(self)@.expenses_c1.push(cost1 as int));
            assert(self@.expenses_c2 == old(self)@.expenses_c2.push(cost2 as int));
        }
        Ok(())
    }

    /// Enters `cost` as the cost settled last at the level of the aggregate.
    pub fn settle(&mut self, cost: u64)
        ensures
            final(self)@ == old(self)@.with_settled(cost as int),
    {
        self.expenses.push(cost);
        assert(self@.expenses == old(self)@.expenses.push(cost as int));
    }
}

impl Update for Expenses {
    /// Recomputes the totals from `meter`, to be called after each new
    /// reading: the usage of the last `WINDOW` readings, the highest of the
    /// last `RATCHET_WINDOW`, and, where the latest reading falls on the
    /// first of a month, the costs of both. Without a reading there is
    /// nothing to compute from, and the totals stay as they are.
    fn update_totals(&mut self, meter: &Meter) -> (r: Result<(), MeterError>)
        ensures
            final(self)@ == old(self)@.updated(meter@),
            meter@.len() == 0 ==> r == refused(MeterError::EmptyHistory),
            meter@.len() > 0 ==> r is Ok,
            r is Ok ==> final(self)@.window_total == total_usage(recent(meter@, WINDOW as nat)),
            r is Ok ==> final(self)@.ratchet_val is Some && is_highest(
                recent(meter@, RATCHET_WINDOW as nat),
                final(self)@.ratchet_val->Some_0.value as int,
            ),
            r is Ok && !bills_due(meter@) ==> {
                &&& final(self)@.expenses_c1 == old(self)@.expenses_c1
                &&& final(self)@.expenses_c2 == old(self)@.expenses_c2
            },
            r is Ok && bills_due(meter@) ==> {
                &&& final(self)@.expenses_c1 == old(self)@.expenses_c1.push(
                    final(self)@.window_total * KW_RATE,
                )
                &&& final(self)@.expenses_c2 == old(self)@.expenses_c2.push(
                    final(self)@.ratchet_val->Some_0.value * KW_RATE_R,
                )
            },
    {
        proof {
            if meter@.len() > 0 {
                lemma_ratchet_is_highest(meter@);
            }
        }
        let due: bool = bills_fall_due(meter);
        self.update_totals_when(meter, due)
    }
}

/// Whether the latest reading of `meter` falls on a day on which bills are
/// due; not so while it has no reading.
pub fn bills_fall_due(meter: &Meter) -> (due: bool)
    ensures
        due == bills_due(meter@),
{
    match meter.latest() {
        Some(latest) => latest.timestamp.is_billing_day(),
        None => false,
    }
}

} // verus!
