//! The account: the running balance of what the clients are billed.

use vstd::prelude::*;
use crate::client::{views_of, Client, ClientView};
use crate::error::MeterError;
use crate::expenses::KW_RATE_R;
use crate::master::{ExpenseFactor, MasterMeter, MasterMeterView};
use crate::step::total_share;

verus! {

/// Sum of the consumption costs that `clients` were billed last, each of
/// which has been billed one.
pub open spec fn consumption_charge(clients: Seq<ClientView>) -> int
    decreases clients.len(),
{
    if clients.len() == 0 {
        0
    } else {
        consumption_charge(clients.drop_last()) + clients.last().expenses.expenses_c1.last()
    }
}

/// What a client with the share `factor` owes of the cost of a peak demand
/// of `peak`: its ratio of that cost, rounded down to a whole unit.
pub open spec fn demand_share(factor: ExpenseFactor, peak: int) -> int {
    (factor.share * KW_RATE_R * peak) / (factor.peak as int)
}

/// Sum of what the clients with the shares `factors` owe of the cost of a
/// peak demand of `peak`.
pub open spec fn demand_charge(factors: Seq<ExpenseFactor>, peak: int) -> int
    decreases factors.len(),
{
    if factors.len() == 0 {
        0
    } else {
        demand_charge(factors.drop_last(), peak) + demand_share(factors.last(), peak)
    }
}

/// Shares of the very peak that is priced are owed in full, with nothing
/// lost to rounding: together they come to the price of their sum.
pub proof fn lemma_demand_charge_of_own_peak(factors: Seq<ExpenseFactor>, peak: u8)
    requires
        peak != 0,
        forall|k: int| 0 <= k < factors.len() ==> (#[trigger] factors[k]).peak == peak,
    ensures
        demand_charge(factors, peak as int) == KW_RATE_R * total_share(factors),
    decreases factors.len(),
{
    if factors.len() > 0 {
        let earlier = factors.drop_last();
        lemma_demand_charge_of_own_peak(earlier, peak);
        let share = factors.last().share as int;
        let rate = KW_RATE_R as int;
        let p = peak as int;
        assert((share * rate * p) / p == share * rate) by (nonlinear_arith)
            requires
                p > 0,
        ;
    }
}

impl MasterMeterView {
    /// While the aggregate keeps step with the clients and the shares are
    /// those of the present ratchet, the demand charge is the cost of the
    /// peak demand itself: the clients are charged all of it, and no more.
    pub proof fn lemma_demand_charge_in_step(self)
        requires
            self.in_step(),
            self.shares_current(),
            self.expenses.ratchet_val matches Some(ratchet) && ratchet.value != 0,
        ensures
            self.demand_charge() == KW_RATE_R * self.expenses.ratchet_val->Some_0.value,
    {
        self.lemma_current_shares_sum_to_peak();
        lemma_demand_charge_of_own_peak(
            self.expense_factors,
            self.expenses.ratchet_val->Some_0.value,
        );
    }
}

/// Whether every one of `clients` has been billed a consumption cost and a
/// demand cost.
pub open spec fn all_billed(clients: Seq<ClientView>) -> bool {
    forall|k: int|
        0 <= k < clients.len() ==> (#[trigger] clients[k]).expenses.expenses_c1.len() > 0
            && clients[k].expenses.expenses_c2.len() > 0
}

/// Whether each of `factors` is a ratio over a peak other than zero.
pub open spec fn all_defined(factors: Seq<ExpenseFactor>) -> bool {
    forall|k: int| 0 <= k < factors.len() ==> (#[trigger] factors[k]).peak != 0
}

impl MasterMeterView {
    /// Whether a billing cycle has completed: every client has been billed,
    /// a cost has been settled for the aggregate, and the ratchet and each
    /// client's share of it are known.
    pub open spec fn billable(self) -> bool {
        &&& all_billed(self.clients)
        &&& self.expenses.expenses.len() > 0
        &&& self.expenses.ratchet_val is Some
        &&& self.expense_factors.len() == self.clients.len()
    }

    /// The charge of the cycle for consumption.
    pub open spec fn consumption_charge(self) -> int {
        consumption_charge(self.clients)
    }

    /// The charge of the cycle for peak demand.
    pub open spec fn demand_charge(self) -> int {
        demand_charge(self.expense_factors, self.expenses.ratchet_val->Some_0.value as int)
    }
}

/// What an `Account` stands for.
#[verifier::ext_equal]
pub struct AccountView {
    pub balance: int,
    pub master_meter: MasterMeterView,
    /// Consumption charge and demand charge of the cycle charged last.
    pub bill_expenses: Seq<int>,
}

impl AccountView {
    /// An account over `clients`, with nothing charged yet.
    pub open spec fn initial(clients: Seq<ClientView>) -> AccountView {
        AccountView {
            balance: 0,
            master_meter: MasterMeterView::initial(clients),
            bill_expenses: seq![0int, 0int],
        }
    }

    /// The balance after the charge of a completed cycle: both charges are
    /// added, and the cost settled last for the aggregate is taken off.
    pub open spec fn charged_balance(self) -> int {
        self.balance + self.master_meter.consumption_charge() + self.master_meter.demand_charge()
            - self.master_meter.expenses.expenses.last()
    }

    /// The account after the charge of a completed cycle.
    pub open spec fn charged(self) -> AccountView {
        AccountView {
            balance: self.charged_balance(),
            master_meter: self.master_meter,
            bill_expenses: seq![
                self.master_meter.consumption_charge(),
                self.master_meter.demand_charge(),
            ],
        }
    }

    /// The account after a round on a day on which a charge falls due, or
    /// does not, as `due` says: charged where one is due and is not
    /// refused, else as it was.
    pub open spec fn charged_when(self, due: bool) -> AccountView {
        if due && self.charge_outcome() is Ok {
            self.charged()
        } else {
            self
        }
    }

    /// What the charge of a round reports on a day on which a charge falls
    /// due, or does not, as `due` says.
    pub open spec fn charge_outcome_when(self, due: bool) -> Result<(), MeterError> {
        if due {
            self.charge_outcome()
        } else {
            Ok(())
        }
    }

    /// What a charge reports.
    pub open spec fn charge_outcome(self) -> Result<(), MeterError> {
        if !self.master_meter.billable() {
            Err(MeterError::PrematureCharge)
        } else if !all_defined(self.master_meter.expense_factors) {
            Err(MeterError::UndefinedFactor)
        } else if !(i128::MIN <= self.charged_balance() <= i128::MAX) {
            Err(MeterError::BalanceOverflow)
        } else {
            Ok(())
        }
    }
}

/// Something that bills its clients.
pub trait Charger {
    /// Charges the billing cycle that has just completed.
    fn charge_accounts(&mut self) -> Result<(), MeterError>;
}

/// A billed account over a master meter.
pub struct Account {
    /// What the clients have been charged so far, in whole units.
    pub balance: i128,
    /// The meters that are billed.
    pub master_meter: MasterMeter,
    /// Consumption charge and demand charge of the cycle charged last.
    pub bill_expenses: [u128; 2],
}

impl View for Account {
    type V = AccountView;

    open spec fn view(&self) -> AccountView {
        AccountView {
            balance: self.balance as int,
            master_meter: self.master_meter@,
            bill_expenses: self.bill_expenses@.map_values(|c: u128| c as int),
        }
    }
}

impl MasterMeter {
    /// The charge of the cycle for consumption, or `None` if a client has
    /// not been billed yet.
    pub fn consumption_charge(&self) -> (r: Option<u128>)
        ensures
            r is Some <==> all_billed(self@.clients),
            r matches Some(charge) ==> charge == self@.consumption_charge(),
            r matches Some(charge) ==> charge <= u32::MAX * u64::MAX,
    {
        let n: usize = self.clients.len();
        let mut charge: u128 = 0;
        let mut k: usize = 0;
        while k < n
            invariant
                n == self.clients@.len(),
                k <= n,
                all_billed(self@.clients.take(k as int)),
                charge == consumption_charge(self@.clients.take(k as int)),
                charge <= u32::MAX * k,
            decreases n - k,
        {
            let billed: &Vec<u32> = &self.clients[k].expenses.expenses_c1;
            let len: usize = billed.len();
            if len == 0 || self.clients[k].expenses.expenses_c2.len() == 0 {
                assert(self@.clients[k as int] == self.clients@[k as int]@);
                return None;
            }
            assert(self@.clients.take(k + 1).drop_last() == self@.clients.take(k as int));
            charge = charge + billed[len - 1] as u128;
            k = k + 1;
        }
        assert(self@.clients.take(n as int) == self@.clients);
        Some(charge)
    }
}

/// What a client with the share `factor` owes of the cost of a peak demand
/// of `peak`, or `None` if the share is a ratio over zero.
pub fn demand_share_of(factor: ExpenseFactor, peak: u8) -> (r: Option<u32>)
    ensures
        r is Some <==> factor.peak != 0,
        r matches Some(owed) ==> owed == demand_share(factor, peak as int),
{
    if factor.peak == 0 {
        return None;
    }
    let priced: u32 = factor.share as u32 * KW_RATE_R;
    assert(priced * peak <= 5100 * 255) by (nonlinear_arith)
        requires
            priced <= 5100,
            peak <= 255,
    ;
    let cost: u32 = priced * peak as u32;
    Some(cost / factor.peak as u32)
}

/// Sum of what the clients with the shares `factors` owe of the cost of a
/// peak demand of `peak`, or `None` if a share is a ratio over zero.
pub fn demand_charge_of(factors: &Vec<ExpenseFactor>, peak: u8) -> (r: Option<u128>)
    ensures
        r is Some <==> all_defined(factors@),
        r matches Some(charge) ==> charge == demand_charge(factors@, peak as int),
        r matches Some(charge) ==> charge <= u32::MAX * u64::MAX,
{
    let n: usize = factors.len();
    let mut charge: u128 = 0;
    let mut k: usize = 0;
    while k < n
        invariant
            n == factors@.len(),
            k <= n,
            all_defined(factors@.take(k as int)),
            charge == demand_charge(factors@.take(k as int), peak as int),
            charge <= u32::MAX * k,
        decreases n - k,
    {
        let owed: u32 = match demand_share_of(factors[k], peak) {
            Some(owed) => owed,
            None => { return None; },
        };
        assert(factors@.take(k + 1).drop_last() == factors@.take(k as int));
        charge = charge + owed as u128;
        k = k + 1;
    }
    assert(factors@.take(n as int) == factors@);
    Some(charge)
}

impl Account {
    /// An account over `clients`, with nothing charged yet.
    pub fn new(clients: Vec<Client>) -> (a: Account)
        ensures
            a@ == AccountView::initial(views_of(clients@)),
    {
        let a = Account {
            balance: 0,
            master_meter: MasterMeter::new(clients),
            bill_expenses: [0, 0],
        };
        a
    }
}

impl Account {
    /// Charges the billing cycle if `due` says that it has just completed;
    /// else leaves the account as it is.
    pub fn charge_when(&mut self, due: bool) -> (r: Result<(), MeterError>)
        ensures
            r == old(self)@.charge_outcome_when(due),
            final(self)@ == old(self)@.charged_when(due),
    {
        if due {
            self.charge_accounts()
        } else {
            Ok(())
        }
    }
}

impl Charger for Account {
    /// Charges the billing cycle that has just completed. Refused, with the
    /// account left as it is, before a cycle has completed, with a share
    /// that is a ratio over zero, or where the balance would leave the
    /// range that can be held.
    fn charge_accounts(&mut self) -> (r: Result<(), MeterError>)
        ensures
            r == old(self)@.charge_outcome(),
            r is Ok ==> final(self)@ == old(self)@.charged(),
            r is Err ==> final(self)@ == old(self)@,
    {
        let consumption: u128 = match self.master_meter.consumption_charge() {
            Some(charge) => charge,
            None => { return Err(MeterError::PrematureCharge); },
        };
        let settled: &Vec<u64> = &self.master_meter.expenses.expenses;
        if settled.len() == 0 || self.master_meter.expense_factors.len()
            != self.master_meter.clients.len() {
            return Err(MeterError::PrematureCharge);
        }
        let peak: u8 = match self.master_meter.expenses.ratchet_val {
            Some(ratchet) => ratchet.value,
            None => { return Err(MeterError::PrematureCharge); },
        };
        let demand: u128 = match demand_charge_of(&self.master_meter.expense_factors, peak) {
            Some(charge) => charge,
            None => { return Err(MeterError::UndefinedFactor); },
        };
        let entry: u64 = settled[settled.len() - 1];
        let charge: i128 = consumption as i128 + demand as i128 - entry as i128;
        match self.balance.checked_add(charge) {
            Some(balance) => {
                self.balance = balance;
                self.bill_expenses = [consumption, demand];
                Ok(())
            },
            None => Err(MeterError::BalanceOverflow),
        }
    }
}

} // verus!
