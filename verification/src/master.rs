//! The master meter: the aggregate of all clients, its own totals, and each
//! client's share of the combined peak.

use vstd::prelude::*;
use crate::client::{views_of, Client, ClientView};
use crate::error::MeterError;
use crate::expenses::{
    bills_due, bills_fall_due, consumption_cost, Expenses, ExpensesView, RatchetValue, Update,
    KW_RATE,
};
use crate::meter::{located, Meter, Reader};
use crate::reading::{Reading, Timestamp};

verus! {

/// A client's share of the combined peak, as the ratio of `share` to `peak`:
/// the client's usage on the day of the peak over the peak itself.
#[derive(Clone, Copy, Debug, PartialEq, Eq, Structural)]
pub struct ExpenseFactor {
    pub share: u8,
    pub peak: u8,
}

/// Sum of the latest readings of `clients`, each of which has one.
pub open spec fn latest_total(clients: Seq<ClientView>) -> int
    decreases clients.len(),
{
    if clients.len() == 0 {
        0
    } else {
        latest_total(clients.drop_last()) + clients.last().meter.last().value
    }
}

/// Whether every one of `clients` has a reading.
pub open spec fn all_have_readings(clients: Seq<ClientView>) -> bool {
    forall|k: int| 0 <= k < clients.len() ==> (#[trigger] clients[k]).meter.len() > 0
}

/// Whether every one of `clients` has a reading at position `i`.
pub open spec fn all_reach(clients: Seq<ClientView>, i: int) -> bool {
    forall|k: int| 0 <= k < clients.len() ==> i < (#[trigger] clients[k]).meter.len()
}

/// The clients' shares of a peak of `peak` that fell on the day of their
/// readings at position `i`.
pub open spec fn factors_at(clients: Seq<ClientView>, i: int, peak: u8) -> Seq<ExpenseFactor> {
    Seq::new(clients.len(), |k: int| ExpenseFactor { share: clients[k].meter[i].value, peak })
}

/// Whether the last update of `expenses` moved the ratchet to another day.
pub open spec fn ratchet_moved(expenses: ExpensesView) -> bool {
    match (expenses.old_ratchet, expenses.ratchet_val) {
        (Some(before), Some(now)) => before.timestamp != now.timestamp,
        _ => true,
    }
}

/// What a `MasterMeter` stands for.
#[verifier::ext_equal]
pub struct MasterMeterView {
    pub meter: Seq<Reading>,
    pub expenses: ExpensesView,
    pub clients: Seq<ClientView>,
    pub expense_factors: Seq<ExpenseFactor>,
}

impl MasterMeterView {
    /// A master meter over `clients`, without readings or costs of its own.
    pub open spec fn initial(clients: Seq<ClientView>) -> MasterMeterView {
        MasterMeterView {
            meter: Seq::empty(),
            expenses: ExpensesView::initial(),
            clients,
            expense_factors: Seq::empty(),
        }
    }

    /// Whether there is something to aggregate: at least one client, and a
    /// reading of each.
    pub open spec fn can_aggregate(self) -> bool {
        self.clients.len() > 0 && all_have_readings(self.clients)
    }

    /// What aggregating the clients' latest readings reports: a failure if
    /// there is nothing to aggregate, or if the readings add up to more
    /// than a reading holds.
    pub open spec fn aggregate_outcome(self) -> Result<(), MeterError> {
        if !self.can_aggregate() {
            Err(MeterError::EmptyHistory)
        } else if latest_total(self.clients) > 255 {
            Err(MeterError::ReadingOverflow)
        } else {
            Ok(())
        }
    }

    /// The reading that aggregates the clients' latest ones: their sum,
    /// dated as the first client's.
    pub open spec fn aggregate(self) -> Reading {
        Reading {
            timestamp: self.clients[0].meter.last().timestamp,
            value: latest_total(self.clients) as u8,
        }
    }

    /// The state after the clients' latest readings have been aggregated.
    pub open spec fn aggregated(self) -> MasterMeterView {
        MasterMeterView {
            meter: self.meter.push(self.aggregate()),
            expenses: self.expenses,
            clients: self.clients,
            expense_factors: self.expense_factors,
        }
    }

    /// The same master meter over other clients.
    pub open spec fn with_clients(self, clients: Seq<ClientView>) -> MasterMeterView {
        MasterMeterView {
            meter: self.meter,
            expenses: self.expenses,
            clients,
            expense_factors: self.expense_factors,
        }
    }

    /// Position, in each client's history, of the day on which the ratchet
    /// `at` fell: where the first client's most recent reading dated `at`
    /// stands, provided that every client has a reading there.
    pub open spec fn peak_day(self, at: Timestamp) -> Option<int> {
        if self.clients.len() > 0 && exists|i: int|
            located(self.clients[0].meter, at, i) && all_reach(self.clients, i) {
            Some(choose|i: int| located(self.clients[0].meter, at, i) && all_reach(self.clients, i))
        } else {
            None
        }
    }

    /// The totals of the master meter after an update on a day on which
    /// bills are due, or are not, as `due` says: they follow its own
    /// readings, and where bills are due the consumption cost of the cycle
    /// is entered as the cost settled for the aggregate.
    pub open spec fn totals_when(self, due: bool) -> ExpensesView {
        let totals = self.expenses.updated_when(self.meter, due);
        if due && self.meter.len() > 0 {
            totals.with_settled(consumption_cost(self.meter))
        } else {
            totals
        }
    }

    /// The state after an update on a day on which bills are due, or are
    /// not, as `due` says. The totals follow the master meter's own
    /// readings. If that moved the ratchet to another day, and the day can
    /// be found among the clients' readings, their shares are taken anew
    /// from that day; else they stay as they are. Without an aggregate
    /// reading everything stays as it is.
    pub open spec fn updated_when(self, due: bool) -> MasterMeterView {
        if self.meter.len() == 0 {
            self
        } else {
            let expenses = self.totals_when(due);
            let ratchet = expenses.ratchet_val->Some_0;
            MasterMeterView {
                meter: self.meter,
                expenses,
                clients: self.clients,
                expense_factors: if ratchet_moved(expenses) {
                    match self.peak_day(ratchet.timestamp) {
                        Some(i) => factors_at(self.clients, i, ratchet.value),
                        None => self.expense_factors,
                    }
                } else {
                    self.expense_factors
                },
            }
        }
    }

    /// The state after an update: bills are due where the latest aggregate
    /// reading falls on the first of a month.
    pub open spec fn updated(self) -> MasterMeterView {
        self.updated_when(bills_due(self.meter))
    }

    /// What an update reports: a failure without an aggregate reading, or
    /// if the ratchet moved to a day that cannot be found.
    pub open spec fn update_outcome(self) -> Result<(), MeterError> {
        let expenses = self.expenses.updated(self.meter);
        if self.meter.len() == 0 {
            Err(MeterError::EmptyHistory)
        } else if ratchet_moved(expenses) && self.peak_day(
            expenses.ratchet_val->Some_0.timestamp,
        ) is None {
            Err(MeterError::RatchetTimestampNotFound)
        } else {
            Ok(())
        }
    }
}

/// The aggregate of a set of clients.
pub struct MasterMeter {
    /// Aggregate readings: one per period, the sum over all clients.
    pub meter: Meter,
    /// Totals over the aggregate readings.
    pub expenses: Expenses,
    /// The clients, in a fixed order; the first one dates the aggregate.
    pub clients: Vec<Client>,
    /// One share per client, once the ratchet has been located.
    pub expense_factors: Vec<ExpenseFactor>,
}

impl View for MasterMeter {
    type V = MasterMeterView;

    open spec fn view(&self) -> MasterMeterView {
        MasterMeterView {
            meter: self.meter@,
            expenses: self.expenses@,
            clients: views_of(self.clients@),
            expense_factors: self.expense_factors@,
        }
    }
}

impl MasterMeter {
    /// A master meter over `clients`, without readings or costs of its own.
    pub fn new(clients: Vec<Client>) -> (m: MasterMeter)
        ensures
            m@ == MasterMeterView::initial(views_of(clients@)),
    {
        MasterMeter {
            meter: Meter::new(),
            expenses: Expenses::new(),
            clients,
            expense_factors: Vec::new(),
        }
    }

    /// Sum of the clients' latest readings, or `None` if there is no client
    /// or one of them has no reading.
    pub fn latest_total(&self) -> (r: Option<u128>)
        ensures
            !self@.can_aggregate() ==> r is None,
            self@.can_aggregate() ==> r is Some && r->Some_0 == latest_total(self@.clients),
    {
        let n: usize = self.clients.len();
        if n == 0 {
            return None;
        }
        let mut total: u128 = 0;
        let mut k: usize = 0;
        while k < n
            invariant
                n == self.clients@.len(),
                k <= n,
                all_have_readings(self@.clients.take(k as int)),
                total == latest_total(self@.clients.take(k as int)),
                total <= 255 * k,
            decreases n - k,
        {
            let history: &Vec<Reading> = &self.clients[k].meter.history;
            let len: usize = history.len();
            if len == 0 {
                return None;
            }
            assert(self@.clients.take(k + 1).drop_last() == self@.clients.take(k as int));
            assert(self@.clients.take(k + 1).last().meter == self.clients@[k as int].meter@);
            total = total + history[len - 1].value as u128;
            k = k + 1;
        }
        assert(self@.clients.take(n as int) == self@.clients);
        Some(total)
    }

    /// Each client's share of a peak of `peak`, taken from the readings at
    /// position `i`; `None` if a client has no reading there.
    pub fn factors_at(&self, i: usize, peak: u8) -> (r: Option<Vec<ExpenseFactor>>)
        ensures
            r is Some <==> all_reach(self@.clients, i as int),
            r matches Some(factors) ==> factors@ == factors_at(self@.clients, i as int, peak),
    {
        let n: usize = self.clients.len();
        let mut factors: Vec<ExpenseFactor> = Vec::new();
        let mut k: usize = 0;
        while k < n
            invariant
                n == self.clients@.len(),
                k <= n,
                factors@.len() == k,
                forall|j: int| 0 <= j < k ==> i < (#[trigger] self@.clients[j]).meter.len(),
                forall|j: int|
                    0 <= j < k ==> (#[trigger] factors@[j]) == (ExpenseFactor {
                        share: self@.clients[j].meter[i as int].value,
                        peak,
                    }),
            decreases n - k,
        {
            let history: &Vec<Reading> = &self.clients[k].meter.history;
            if history.len() <= i {
                assert(!(i < self@.clients[k as int].meter.len()));
                return None;
            }
            factors.push(ExpenseFactor { share: history[i].value, peak });
            k = k + 1;
        }
        Some(factors)
    }

    /// Position, in each client's history, of the day on which the ratchet
    /// `at` fell.
    pub fn peak_day(&self, at: Timestamp) -> (r: Option<usize>)
        ensures
            r is None <==> self@.peak_day(at) is None,
            r matches Some(i) ==> self@.peak_day(at) == Some(i as int),
    {
        if self.clients.len() == 0 {
            return None;
        }
        match self.clients[0].meter.position_of(at) {
            Some(i) => {
                let mut k: usize = 0;
                while k < self.clients.len()
                    invariant
                        0 < self.clients@.len(),
                        k <= self.clients@.len(),
                        located(self@.clients[0].meter, at, i as int),
                        forall|j: int| 0 <= j < k ==> i < (#[trigger] self@.clients[j]).meter.len(),
                    decreases self.clients@.len() - k,
                {
                    if self.clients[k].meter.history.len() <= i {
                        assert(!(i < self@.clients[k as int].meter.len()));
                        proof {
                            self@.lemma_peak_day(at, i as int);
                        }
                        return None;
                    }
                    k = k + 1;
                }
                proof {
                    self@.lemma_peak_day(at, i as int);
                }
                Some(i)
            },
            None => None,
        }
    }

    /// Brings the master meter's totals up to date with the aggregate
    /// readings, on a day on which bills are due, or are not, as `due`
    /// says, and the clients' shares with the ratchet.
    pub fn m_update_totals_when(&mut self, due: bool) -> (r: Result<(), MeterError>)
        ensures
            r == old(self)@.update_outcome(),
            final(self)@ == old(self)@.updated_when(due),
    {
        match self.expenses.update_totals_when(&self.meter, due) {
            Err(e) => { return Err(e); },
            Ok(()) => {},
        }
        if due {
            let cost: u32 = self.expenses.window_total * KW_RATE;
            self.expenses.settle(cost as u64);
        }
        let ratchet: RatchetValue = match self.expenses.ratchet_val {
            Some(ratchet) => ratchet,
            None => { return Ok(()); },
        };
        match self.expenses.old_ratchet {
            Some(before) => {
                if before.timestamp.secs == ratchet.timestamp.secs {
                    return Ok(());
                }
            },
            None => {},
        }
        let day: usize = match self.peak_day(ratchet.timestamp) {
            Some(day) => day,
            None => { return Err(MeterError::RatchetTimestampNotFound); },
        };
        match self.factors_at(day, ratchet.value) {
            Some(factors) => {
                self.expense_factors = factors;
                Ok(())
            },
            None => Err(MeterError::RatchetTimestampNotFound),
        }
    }

    /// Brings the master meter's totals up to date with the aggregate
    /// readings, and the clients' shares with the ratchet, to be called
    /// after each aggregate reading. Where the latest aggregate reading
    /// falls on the first of a month, the costs of the cycle are billed and
    /// its consumption cost is entered as settled.
    pub fn m_update_totals(&mut self) -> (r: Result<(), MeterError>)
        ensures
            r == old(self)@.update_outcome(),
            final(self)@ == old(self)@.updated(),
    {
        let due: bool = bills_fall_due(&self.meter);
        self.m_update_totals_when(due)
    }
}

impl MasterMeterView {
    /// The first client's most recent reading dated `at` decides the day of
    /// the ratchet.
    pub proof fn lemma_peak_day(self, at: Timestamp, i: int)
        requires
            self.clients.len() > 0,
            located(self.clients[0].meter, at, i),
        ensures
            all_reach(self.clients, i) ==> self.peak_day(at) == Some(i),
            !all_reach(self.clients, i) ==> self.peak_day(at) is None,
    {
    }

    /// An update that follows another, with no reading taken in between,
    /// leaves every share as the first update set it, and the ratchet where
    /// it was; where there is an aggregate reading, it succeeds.
    pub proof fn lemma_update_idempotent(self)
        ensures
            self.updated().updated().expense_factors == self.updated().expense_factors,
            self.updated().updated().expenses.ratchet_val == self.updated().expenses.ratchet_val,
            self.meter.len() > 0 ==> self.updated().update_outcome() is Ok,
    {
    }
}

impl Reader for MasterMeter {
    open spec fn readings(&self) -> Seq<Reading> {
        self@.meter
    }

    /// Appends the aggregate of the clients' latest readings: their sum,
    /// dated as the first client's. Refused, with nothing appended, where
    /// there is no client, where a client has no reading, or where the sum
    /// is more than a reading holds.
    fn add_point(&mut self) -> (r: Result<(), MeterError>)
        ensures
            r == old(self)@.aggregate_outcome(),
            r is Ok ==> final(self)@ == old(self)@.aggregated(),
            r is Ok ==> final(self)@.meter.last().value == latest_total(old(self)@.clients),
            r is Err ==> final(self)@ == old(self)@,
    {
        let total: u128 = match self.latest_total() {
            Some(total) => total,
            None => { return Err(MeterError::EmptyHistory); },
        };
        if total > 255 {
            return Err(MeterError::ReadingOverflow);
        }
        let first: &Vec<Reading> = &self.clients[0].meter.history;
        let timestamp: Timestamp = first[first.len() - 1].timestamp;
        self.meter.record(Reading { timestamp, value: total as u8 });
        Ok(())
    }
}

impl Update for MasterMeter {
    /// Brings the master meter up to date with its own aggregate readings,
    /// as `m_update_totals` does; `_meter` is not consulted.
    fn update_totals(&mut self, _meter: &Meter) -> (r: Result<(), MeterError>)
        ensures
            r == old(self)@.update_outcome(),
            final(self)@ == old(self)@.updated(),
    {
        self.m_update_totals()
    }
}

} // verus!
