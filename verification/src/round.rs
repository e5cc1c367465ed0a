//! The metering round: what happens, and in which order, once a period.

use vstd::prelude::*;
use crate::account::{Account, AccountView};
use crate::client::{advanced, advanced_up_to, all_advanced, ClientView};
use crate::error::{refused, MeterError};
use crate::expenses::{bills_due, bills_fall_due};
use crate::master::{latest_total, MasterMeter, MasterMeterView};
use crate::meter::Reader;

verus! {

impl MasterMeterView {
    /// Whether `after` is this state one round later: each client has
    /// advanced by one period, and the master meter has aggregated them and
    /// been brought up to date.
    pub open spec fn round_to(self, after: MasterMeterView) -> bool {
        &&& all_advanced(self.clients, after.clients)
        &&& latest_total(after.clients) <= 255
        &&& after == self.with_clients(after.clients).aggregated().updated()
    }

    /// Whether `after` is this state `n` rounds later.
    pub open spec fn rounds_to(self, after: MasterMeterView, n: nat) -> bool
        decreases n,
    {
        if n == 0 {
            after == self
        } else {
            exists|mid: MasterMeterView|
                self.rounds_to(mid, (n - 1) as nat) && #[trigger] mid.round_to(after)
        }
    }

    /// Whether `after` is this state after a round that stopped at the
    /// client at position `n`, for which the calendar has no next period:
    /// the clients before it have advanced, and nothing else has changed.
    pub open spec fn stopped_at(self, after: MasterMeterView, n: int) -> bool {
        &&& 0 <= n < self.clients.len()
        &&& advanced_up_to(self.clients, after.clients, n)
        &&& after == self.with_clients(after.clients)
        &&& self.clients[n].meter.len() > 0
            ==> self.clients[n].meter.last().timestamp.spec_next_day() is None
    }

    /// Whether `after` is this state after a round that stopped before the
    /// aggregate, because the clients' readings add up to more than a
    /// reading holds: every client has advanced, and nothing else has
    /// changed.
    pub open spec fn overflowed_to(self, after: MasterMeterView) -> bool {
        &&& all_advanced(self.clients, after.clients)
        &&& latest_total(after.clients) > 255
        &&& after == self.with_clients(after.clients)
    }

    /// What the update at the end of a round, after which the clients
    /// are `clients`, reports.
    pub open spec fn round_outcome(self, clients: Seq<ClientView>) -> Result<(), MeterError> {
        self.with_clients(clients).aggregated().update_outcome()
    }

    /// Whether `after` is this state after a round that reported `r`. A
    /// round that succeeds, or that only fails to locate its ratchet, is
    /// complete. One that is refused stops where it is refused: at the
    /// first client for which the calendar has no next period, or before
    /// the aggregate is taken where there is no client or the readings add
    /// up to more than a reading holds.
    pub open spec fn round_result(self, after: MasterMeterView, r: Result<(), MeterError>) -> bool {
        match r {
            Ok(()) | Err(MeterError::RatchetTimestampNotFound) => {
                &&& self.round_to(after)
                &&& r == self.round_outcome(after.clients)
            },
            Err(MeterError::TimestampOutOfRange) => exists|n: int| self.stopped_at(after, n),
            Err(MeterError::ReadingOverflow) => self.overflowed_to(after),
            Err(MeterError::EmptyHistory) => self.clients.len() == 0 && after == self,
            Err(_) => false,
        }
    }
}

/// Clients that have advanced by one period have seen usage of 30 at most.
proof fn lemma_advanced_total(before: Seq<ClientView>, after: Seq<ClientView>)
    requires
        all_advanced(before, after),
    ensures
        latest_total(after) <= 30 * after.len(),
    decreases after.len(),
{
    if after.len() > 0 {
        lemma_advanced_total(before.drop_last(), after.drop_last());
    }
}

impl MasterMeter {
    /// One metering round. Every client takes the reading of the next
    /// period and brings its totals up to date; then the master meter
    /// aggregates those readings and brings its own totals and the clients'
    /// shares up to date. A settled master meter stays settled, and finds
    /// its ratchet.
    pub fn round(&mut self) -> (r: Result<(), MeterError>)
        ensures
            old(self)@.round_result(final(self)@, r),
            old(self)@.clients.len() <= 8 ==> r != refused(MeterError::ReadingOverflow),
            old(self)@.settled() && r is Ok ==> final(self)@.settled(),
            old(self)@.settled() ==> r != refused(MeterError::RatchetTimestampNotFound),
    {
        let n: usize = self.clients.len();
        let mut k: usize = 0;
        while k < n
            invariant
                n == self.clients@.len(),
                n == old(self).clients@.len(),
                k <= n,
                self.meter == old(self).meter,
                self.expenses == old(self).expenses,
                self.expense_factors == old(self).expense_factors,
                forall|j: int|
                    0 <= j < k ==> advanced(old(self)@.clients[j], #[trigger] self@.clients[j]),
                forall|j: int|
                    k <= j < n ==> (#[trigger] self.clients@[j]) == old(self).clients@[j],
            decreases n - k,
        {
            let ghost seen = self@.clients;
            match self.clients[k].advance() {
                Err(e) => {
                    proof {
                        assert forall|j: int| 0 <= j < n implies (#[trigger] self@.clients[j])
                            == seen[j] by {}
                        assert(old(self)@.stopped_at(self@, k as int));
                    }
                    return Err(e);
                },
                Ok(()) => {},
            }
            assert forall|j: int| 0 <= j < k + 1 implies advanced(
                old(self)@.clients[j],
                #[trigger] self@.clients[j],
            ) by {
                if j < k {
                    assert(advanced(old(self)@.clients[j], seen[j]));
                }
            }
            k = k + 1;
        }
        let ghost ahead = self@;
        match self.add_point() {
            Err(e) => {
                proof {
                    if n == 0 {
                        assert(self@.clients == old(self)@.clients);
                    }
                    lemma_advanced_total(old(self)@.clients, ahead.clients);
                }
                return Err(e);
            },
            Ok(()) => {},
        }
        proof {
            if old(self)@.settled() {
                old(self)@.lemma_round_keeps_settled(ahead.clients);
            }
        }
        self.m_update_totals()
    }
}

impl MasterMeterView {
    /// Rounds add one reading each to the aggregate and to every client,
    /// and keep the readings there were; they leave a settled master meter
    /// settled.
    pub proof fn lemma_rounds_grow(self, after: MasterMeterView, n: nat)
        requires
            self.rounds_to(after, n),
        ensures
            after.meter.len() == self.meter.len() + n,
            after.meter.take(self.meter.len() as int) == self.meter,
            after.clients.len() == self.clients.len(),
            forall|k: int|
                0 <= k < self.clients.len() ==> (#[trigger] after.clients[k]).meter.len()
                    == self.clients[k].meter.len() + n && after.clients[k].meter.take(
                    self.clients[k].meter.len() as int,
                ) == self.clients[k].meter,
            self.settled() ==> after.settled(),
        decreases n,
    {
        if n > 0 {
            let mid = choose|mid: MasterMeterView|
                self.rounds_to(mid, (n - 1) as nat) && #[trigger] mid.round_to(after);
            self.lemma_rounds_grow(mid, (n - 1) as nat);
            assert forall|k: int| 0 <= k < self.clients.len() implies (
            #[trigger] after.clients[k]).meter.len() == self.clients[k].meter.len() + n
                && after.clients[k].meter.take(self.clients[k].meter.len() as int)
                == self.clients[k].meter by {}
            if self.settled() {
                mid.lemma_round_keeps_settled(after.clients);
            }
        } else {
            assert forall|k: int| 0 <= k < self.clients.len() implies (
            #[trigger] self.clients[k]).meter.take(self.clients[k].meter.len() as int)
                == self.clients[k].meter by {}
        }
    }
}

impl AccountView {
    /// The same account over another state of its master meter.
    pub open spec fn with_master(self, master_meter: MasterMeterView) -> AccountView {
        AccountView { balance: self.balance, master_meter, bill_expenses: self.bill_expenses }
    }

    /// Whether a charge falls due: the latest aggregate reading falls on
    /// the first of a month.
    pub open spec fn charge_due(self) -> bool {
        bills_due(self.master_meter.meter)
    }

    /// Whether `after` is this account after a round that reported `r`.
    /// Where the round of the master meter is refused, it stops there, and
    /// nothing is charged. Else the round of the master meter is complete,
    /// whether it located its ratchet or not; then, where the aggregate
    /// reading just taken falls on the first of a month, the cycle is
    /// charged. A charge that is refused leaves balance and bill as they
    /// were, and the round reports the refusal.
    pub open spec fn round_result(self, after: AccountView, r: Result<(), MeterError>) -> bool {
        let metered = self.with_master(after.master_meter);
        match r {
            Err(MeterError::TimestampOutOfRange)
            | Err(MeterError::ReadingOverflow)
            | Err(MeterError::EmptyHistory) => {
                &&& self.master_meter.round_result(after.master_meter, r)
                &&& after == metered
            },
            Err(MeterError::RatchetTimestampNotFound) => false,
            _ => {
                &&& self.master_meter.round_to(after.master_meter)
                &&& after == metered.charged_when(metered.charge_due())
                &&& r == metered.charge_outcome_when(metered.charge_due())
            },
        }
    }

    /// Whether `after` is this account `n` rounds later, none of them
    /// refused.
    pub open spec fn rounds_to(self, after: AccountView, n: nat) -> bool
        decreases n,
    {
        if n == 0 {
            after == self
        } else {
            exists|mid: AccountView|
                self.rounds_to(mid, (n - 1) as nat) && #[trigger] mid.round_result(after, Ok(()))
        }
    }

    /// Rounds of the account are rounds of its master meter.
    pub proof fn lemma_rounds_of_master(self, after: AccountView, n: nat)
        requires
            self.rounds_to(after, n),
        ensures
            self.master_meter.rounds_to(after.master_meter, n),
        decreases n,
    {
        if n > 0 {
            let mid = choose|mid: AccountView|
                self.rounds_to(mid, (n - 1) as nat) && #[trigger] mid.round_result(after, Ok(()));
            self.lemma_rounds_of_master(mid, (n - 1) as nat);
            assert(mid.master_meter.round_to(after.master_meter));
        }
    }
}

impl Account {
    /// One round of the account: a round of its master meter, and then,
    /// where the aggregate reading just taken falls on the first of a
    /// month, the charge of the cycle that it completes.
    pub fn round(&mut self) -> (r: Result<(), MeterError>)
        ensures
            old(self)@.round_result(final(self)@, r),
            old(self)@.master_meter.clients.len() <= 8 ==> r != refused(
                MeterError::ReadingOverflow,
            ),
            old(self)@.master_meter.settled() && r is Ok ==> final(self)@.master_meter.settled(),
    {
        match self.master_meter.round() {
            Ok(()) => {},
            Err(MeterError::RatchetTimestampNotFound) => {},
            Err(e) => { return Err(e); },
        }
        let due: bool = bills_fall_due(&self.master_meter.meter);
        self.charge_when(due)
    }
}

} // verus!
