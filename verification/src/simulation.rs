//! A simulated account of two clients, advanced tick by tick.

use vstd::prelude::*;
use crate::account::{Account, AccountView};
use crate::client::{Client, ClientView};
use crate::error::{refused, MeterError};
use crate::master::MasterMeterView;

verus! {

/// Number of rounds run ahead of the first tick, to fill the plots.
pub const WARM_UP_ROUNDS: u16 = 30;

/// The day on which the simulation comes to rest.
pub const LAST_DAY: u16 = 900;

/// Number of rounds that the tick of `day` runs.
pub open spec fn rounds_due(day: u16) -> nat {
    if day == 0 {
        (WARM_UP_ROUNDS + 1) as nat
    } else {
        1
    }
}

/// The simulation: an account, and the number of ticks it has seen.
pub struct Simulation {
    /// The simulated account.
    pub account: Account,
    /// Number of ticks that have moved the simulation on.
    pub day: u16,
}

impl Simulation {
    /// The master meter of the simulated account.
    pub open spec fn master(&self) -> MasterMeterView {
        self.account@.master_meter
    }

    /// A simulation of two clients, before its first tick.
    pub fn new() -> (s: Simulation)
        ensures
            s.day == 0,
            s.account@ == AccountView::initial(seq![ClientView::initial(), ClientView::initial()]),
            s.master().settled(),
    {
        let mut clients: Vec<Client> = Vec::new();
        clients.push(Client::new());
        clients.push(Client::new());
        Simulation { account: Account::new(clients), day: 0 }
    }

    /// One tick. The first tick runs the warm-up rounds and one more, each
    /// later tick one round, and the day moves on; from `LAST_DAY` on a
    /// tick changes nothing. Each round is a round of the account: the
    /// clients and the master meter take their readings, and where the
    /// aggregate reading falls on the first of a month the cycle is
    /// charged. A round that is refused, in its readings or in its charge,
    /// ends the tick there, with the day as it was.
    pub fn on_tick(&mut self) -> (r: Result<(), MeterError>)
        ensures
            old(self).day >= LAST_DAY ==> {
                &&& r is Ok
                &&& final(self).day == old(self).day
                &&& final(self).account@ == old(self).account@
            },
            old(self).day < LAST_DAY && r is Ok ==> {
                &&& final(self).day == old(self).day + 1
                &&& old(self).account@.rounds_to(final(self).account@, rounds_due(old(self).day))
            },
            r is Err ==> {
                &&& final(self).day == old(self).day
                &&& exists|i: nat, last: AccountView|
                    {
                        &&& i < rounds_due(old(self).day)
                        &&& #[trigger] old(self).account@.rounds_to(last, i)
                        &&& last.round_result(final(self).account@, r)
                    }
            },
            old(self).master().settled() && r is Ok ==> final(self).master().settled(),
            old(self).master().settled() && old(self).master().clients.len() <= 8 ==> {
                &&& r != refused(MeterError::EmptyHistory)
                &&& r != refused(MeterError::ReadingOverflow)
                &&& r != refused(MeterError::RatchetTimestampNotFound)
            },
    {
        if self.day >= LAST_DAY {
            return Ok(());
        }
        let rounds: u16 = if self.day == 0 {
            WARM_UP_ROUNDS + 1
        } else {
            1
        };
        let ghost start = self.account@;
        let mut i: u16 = 0;
        while i < rounds
            invariant
                i <= rounds,
                rounds == rounds_due(old(self).day),
                self.day == old(self).day,
                self.day < LAST_DAY,
                start == old(self).account@,
                start.rounds_to(self.account@, i as nat),
            decreases rounds - i,
        {
            let ghost before = self.account@;
            proof {
                start.lemma_rounds_of_master(before, i as nat);
                start.master_meter.lemma_rounds_grow(before.master_meter, i as nat);
            }
            match self.account.round() {
                Ok(()) => {},
                Err(e) => {
                    assert(before.round_result(self.account@, Err(e)));
                    return Err(e);
                },
            }
            assert(before.round_result(self.account@, Ok(())));
            i = i + 1;
        }
        proof {
            start.lemma_rounds_of_master(self.account@, rounds as nat);
            start.master_meter.lemma_rounds_grow(self.master(), rounds as nat);
        }
        self.day = self.day + 1;
        Ok(())
    }
}

} // verus!
