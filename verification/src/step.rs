//! Keeping step: what holds of the aggregate and of the clients' shares
//! while the master meter and its clients advance together, round by round.

use vstd::prelude::*;
use crate::client::{all_advanced, ClientView};
use crate::expenses::{
    lemma_peak_exists, peak_index, ratchet_of, recent, RatchetValue, RATCHET_WINDOW,
};
use crate::master::{factors_at, latest_total, ratchet_moved, ExpenseFactor, MasterMeterView};
use crate::meter::{daily, lemma_daily_located};

verus! {

/// Sum of the readings of `clients` at position `i`, each of which has one
/// there.
pub open spec fn usage_at(clients: Seq<ClientView>, i: int) -> int
    decreases clients.len(),
{
    if clients.len() == 0 {
        0
    } else {
        usage_at(clients.drop_last(), i) + clients.last().meter[i].value
    }
}

/// Sum of the shares of `factors`.
pub open spec fn total_share(factors: Seq<ExpenseFactor>) -> int
    decreases factors.len(),
{
    if factors.len() == 0 {
        0
    } else {
        total_share(factors.drop_last()) + factors.last().share
    }
}

impl MasterMeterView {
    /// Whether the aggregate has kept step with the clients: the first
    /// client's readings are one period apart, and each aggregate reading
    /// is the sum of the clients' readings at its own position, dated as
    /// the first client's.
    pub open spec fn in_step(self) -> bool {
        &&& self.clients.len() > 0
        &&& daily(self.clients[0].meter)
        &&& forall|k: int|
            0 <= k < self.clients.len() ==> self.meter.len() <= (
            #[trigger] self.clients[k]).meter.len()
        &&& forall|j: int|
            0 <= j < self.meter.len() ==> {
                &&& (#[trigger] self.meter[j]).timestamp == self.clients[0].meter[j].timestamp
                &&& self.meter[j].value == usage_at(self.clients, j)
            }
    }

    /// Whether the shares were taken from the readings at position `day`,
    /// and the ratchet is the aggregate reading there.
    pub open spec fn shares_taken_on(self, day: int) -> bool {
        &&& 0 <= day < self.meter.len()
        &&& self.expenses.ratchet_val == Some(
            RatchetValue { timestamp: self.meter[day].timestamp, value: self.meter[day].value },
        )
        &&& self.expense_factors == factors_at(self.clients, day, self.meter[day].value)
    }

    /// Whether the shares are those of the present ratchet: taken on the
    /// day on which it fell. Before the first update there is no ratchet.
    pub open spec fn shares_current(self) -> bool {
        self.expenses.ratchet_val is Some ==> exists|day: int| self.shares_taken_on(day)
    }

    /// Whether every client has taken the reading of the period that the
    /// aggregate has yet to take.
    pub open spec fn one_ahead(self) -> bool {
        forall|k: int|
            0 <= k < self.clients.len() ==> (#[trigger] self.clients[k]).meter.len()
                == self.meter.len() + 1
    }

    /// Whether every client has taken as many readings as the aggregate.
    pub open spec fn level(self) -> bool {
        forall|k: int|
            0 <= k < self.clients.len() ==> (#[trigger] self.clients[k]).meter.len()
                == self.meter.len()
    }

    /// Whether the master meter is where a round leaves it: level and in
    /// step with its clients, with the shares of its present ratchet.
    pub open spec fn settled(self) -> bool {
        self.in_step() && self.level() && self.shares_current()
    }
}

/// The shares taken from the readings at position `i` add up to the usage
/// of all clients there.
proof fn lemma_total_share_at(clients: Seq<ClientView>, i: int, peak: u8)
    ensures
        total_share(factors_at(clients, i, peak)) == usage_at(clients, i),
    decreases clients.len(),
{
    if clients.len() > 0 {
        lemma_total_share_at(clients.drop_last(), i, peak);
        assert(factors_at(clients, i, peak).drop_last() == factors_at(
            clients.drop_last(),
            i,
            peak,
        ));
    }
}

/// Where every client's latest reading stands at position `i`, the sum of
/// the latest readings is the usage of all clients there.
proof fn lemma_latest_total_at(clients: Seq<ClientView>, i: int)
    requires
        forall|k: int| 0 <= k < clients.len() ==> (#[trigger] clients[k]).meter.len() == i + 1,
    ensures
        latest_total(clients) == usage_at(clients, i),
    decreases clients.len(),
{
    if clients.len() > 0 {
        lemma_latest_total_at(clients.drop_last(), i);
    }
}

/// A single share is the sum of the shares.
proof fn lemma_total_share_single(factors: Seq<ExpenseFactor>)
    requires
        factors.len() == 1,
    ensures
        total_share(factors) == factors[0].share,
{
    assert(total_share(factors.drop_last()) == 0);
}

/// The usage of all clients at one position is not negative.
proof fn lemma_usage_at_bounds(clients: Seq<ClientView>, i: int)
    ensures
        0 <= usage_at(clients, i),
    decreases clients.len(),
{
    if clients.len() > 0 {
        lemma_usage_at_bounds(clients.drop_last(), i);
    }
}

/// Clients that have advanced have the readings they had where they had
/// them, so that the usage of all at an earlier position stays what it was.
proof fn lemma_usage_at_unchanged(before: Seq<ClientView>, after: Seq<ClientView>, i: int)
    requires
        all_advanced(before, after),
        forall|k: int| 0 <= k < before.len() ==> i < (#[trigger] before[k]).meter.len(),
        0 <= i,
    ensures
        usage_at(after, i) == usage_at(before, i),
    decreases before.len(),
{
    if before.len() > 0 {
        lemma_usage_at_unchanged(before.drop_last(), after.drop_last(), i);
    }
}

impl MasterMeterView {
    /// While the aggregate keeps step with the clients, its own readings
    /// are one period apart.
    pub proof fn lemma_in_step_daily(self)
        requires
            self.in_step(),
        ensures
            daily(self.meter),
    {
    }

    /// While the aggregate keeps step with the clients, the day of its
    /// ratchet is found among the clients' readings, and the usage of all
    /// clients on that day is the ratchet itself.
    pub proof fn lemma_peak_day_in_step(self) -> (day: int)
        requires
            self.in_step(),
            self.meter.len() > 0,
        ensures
            0 <= day < self.meter.len(),
            self.meter[day].timestamp == ratchet_of(self.meter).timestamp,
            self.meter[day].value == ratchet_of(self.meter).value,
            self.peak_day(ratchet_of(self.meter).timestamp) == Some(day),
            usage_at(self.clients, day) == ratchet_of(self.meter).value,
    {
        let ratchet = ratchet_of(self.meter);
        let lookback = recent(self.meter, RATCHET_WINDOW as nat);
        lemma_peak_exists(lookback);
        let day = self.meter.len() - lookback.len() + peak_index(lookback);
        lemma_daily_located(self.clients[0].meter, day);
        self.lemma_peak_day(ratchet.timestamp, day);
        day
    }

    /// While the aggregate keeps step with the clients, the day of a
    /// ratchet that has moved is found, and the shares taken from it add up
    /// to the ratchet itself: the clients' factors sum to one. A single
    /// client's share is the whole of it.
    pub proof fn lemma_shares_sum_to_peak(self)
        requires
            self.in_step(),
            self.meter.len() > 0,
            ratchet_moved(self.expenses.updated(self.meter)),
        ensures
            self.update_outcome() is Ok,
            self.updated().expense_factors.len() == self.clients.len(),
            total_share(self.updated().expense_factors) == ratchet_of(self.meter).value,
            forall|k: int|
                0 <= k < self.clients.len() ==> (#[trigger] self.updated().expense_factors[k]).peak
                    == ratchet_of(self.meter).value,
            self.clients.len() == 1 ==> self.updated().expense_factors[0].share == ratchet_of(
                self.meter,
            ).value,
    {
        let ratchet = ratchet_of(self.meter);
        let day = self.lemma_peak_day_in_step();
        lemma_total_share_at(self.clients, day, ratchet.value);
        if self.clients.len() == 1 {
            lemma_total_share_single(factors_at(self.clients, day, ratchet.value));
        }
    }

    /// While the aggregate keeps step with the clients and the shares are
    /// those of the present ratchet, there is one share for each client,
    /// each is a share of the ratchet, and together they add up to it: the
    /// clients' factors sum to one. A single client's share is the whole of
    /// it.
    pub proof fn lemma_current_shares_sum_to_peak(self)
        requires
            self.in_step(),
            self.shares_current(),
            self.expenses.ratchet_val is Some,
        ensures
            self.expense_factors.len() == self.clients.len(),
            total_share(self.expense_factors) == self.expenses.ratchet_val->Some_0.value,
            forall|k: int|
                0 <= k < self.clients.len() ==> (#[trigger] self.expense_factors[k]).peak
                    == self.expenses.ratchet_val->Some_0.value,
            self.clients.len() == 1 ==> self.expense_factors[0].share
                == self.expenses.ratchet_val->Some_0.value,
    {
        let day = choose|day: int| self.shares_taken_on(day);
        lemma_total_share_at(self.clients, day, self.meter[day].value);
        if self.clients.len() == 1 {
            lemma_total_share_single(self.expense_factors);
        }
    }

    /// An update keeps the shares current: while the aggregate keeps step
    /// with the clients, the day of the ratchet is found, and the shares
    /// are those of the ratchet afterwards, whether it has moved or not.
    pub proof fn lemma_update_keeps_shares(self)
        requires
            self.in_step(),
            self.shares_current(),
            self.meter.len() > 0,
        ensures
            self.update_outcome() is Ok,
            self.updated().in_step(),
            self.updated().shares_current(),
    {
        let after = self.updated();
        let day = self.lemma_peak_day_in_step();
        if ratchet_moved(self.expenses.updated(self.meter)) {
            assert(after.shares_taken_on(day));
        } else {
            lemma_daily_located(self.clients[0].meter, day);
            assert(after.shares_taken_on(day));
        }
    }

    /// Aggregating the clients' latest readings leaves the shares those of
    /// the ratchet.
    pub proof fn lemma_aggregate_keeps_shares(self)
        requires
            self.shares_current(),
        ensures
            self.aggregated().shares_current(),
    {
        if self.expenses.ratchet_val is Some {
            let taken = choose|taken: int| self.shares_taken_on(taken);
            assert(self.aggregated().shares_taken_on(taken));
        }
    }

    /// Where the aggregate has kept step and every client has taken the
    /// reading of the next period, aggregating them keeps step.
    pub proof fn lemma_aggregate_keeps_step(self)
        requires
            self.in_step(),
            self.one_ahead(),
            latest_total(self.clients) <= 255,
        ensures
            self.aggregated().in_step(),
            self.aggregated().meter.last().value == usage_at(self.clients, self.meter.len() as int),
    {
        let n = self.meter.len() as int;
        lemma_latest_total_at(self.clients, n);
        lemma_usage_at_bounds(self.clients, n);
    }

    /// Clients that advance leave a settled master meter in step, one
    /// period ahead of it, and with the shares of its ratchet.
    pub proof fn lemma_advance_keeps_step(self, clients: Seq<ClientView>)
        requires
            self.settled(),
            all_advanced(self.clients, clients),
        ensures
            self.with_clients(clients).in_step(),
            self.with_clients(clients).one_ahead(),
            self.with_clients(clients).shares_current(),
    {
        let ahead = self.with_clients(clients);
        assert forall|j: int| 0 <= j < ahead.meter.len() implies {
            &&& (#[trigger] ahead.meter[j]).timestamp == ahead.clients[0].meter[j].timestamp
            &&& ahead.meter[j].value == usage_at(ahead.clients, j)
        } by {
            lemma_usage_at_unchanged(self.clients, clients, j);
        }
        if self.expenses.ratchet_val is Some {
            let taken = choose|taken: int| self.shares_taken_on(taken);
            assert(factors_at(clients, taken, self.meter[taken].value) == factors_at(
                self.clients,
                taken,
                self.meter[taken].value,
            ));
            assert(ahead.shares_taken_on(taken));
        }
    }

    /// A round leaves the master meter settled where it found it so: once
    /// each client has advanced by one period, the aggregate of their
    /// readings keeps step, the day of the ratchet is found, and the shares
    /// are those of the ratchet, whether it has moved or not.
    pub proof fn lemma_round_keeps_settled(self, clients: Seq<ClientView>)
        requires
            self.settled(),
            all_advanced(self.clients, clients),
            latest_total(clients) <= 255,
        ensures
            self.with_clients(clients).aggregated().update_outcome() is Ok,
            self.with_clients(clients).aggregated().updated().settled(),
    {
        let ahead = self.with_clients(clients);
        self.lemma_advance_keeps_step(clients);
        ahead.lemma_aggregate_keeps_step();
        ahead.lemma_aggregate_keeps_shares();
        ahead.aggregated().lemma_update_keeps_shares();
    }
}

} // verus!
