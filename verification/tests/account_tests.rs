use ratchet_meter::account::{demand_charge_of, demand_share_of, Account, Charger};
use ratchet_meter::client::Client;
use ratchet_meter::error::MeterError;
use ratchet_meter::expenses::{RatchetValue, KW_RATE_R};
use ratchet_meter::master::ExpenseFactor;
use ratchet_meter::meter::Reader;
use ratchet_meter::reading::Timestamp;

const DAY: i64 = 86_400;
const JAN_1_2023: i64 = 1_672_531_200;

fn clients(n: usize) -> Vec<Client> {
    (0..n).map(|_| Client::new()).collect()
}

/// An account whose clients and master meter hold the given billed costs.
fn billed(costs: &[u32], settled: u64, peak: u8, factors: &[(u8, u8)]) -> Account {
    let mut a = Account::new(clients(costs.len()));
    for (k, c) in costs.iter().enumerate() {
        a.master_meter.clients[k].expenses.expenses_c1.push(7);
        a.master_meter.clients[k].expenses.expenses_c1.push(*c);
        a.master_meter.clients[k].expenses.expenses_c2.push(1);
    }
    a.master_meter.expenses.expenses.push(3);
    a.master_meter.expenses.expenses.push(settled);
    a.master_meter.expenses.ratchet_val =
        Some(RatchetValue { timestamp: Timestamp { secs: 0 }, value: peak });
    a.master_meter.expense_factors =
        factors.iter().map(|(share, peak)| ExpenseFactor { share: *share, peak: *peak }).collect();
    a
}

#[test]
fn new_account_has_nothing_charged() {
    let a = Account::new(clients(2));
    assert_eq!(a.balance, 0);
    assert_eq!(a.bill_expenses, [0, 0]);
    assert_eq!(a.master_meter.clients.len(), 2);
}

#[test]
fn charge_before_any_cycle_is_refused() {
    let mut a = Account::new(clients(2));
    assert_eq!(a.charge_accounts(), Err(MeterError::PrematureCharge));
    assert_eq!(a.balance, 0);
    assert_eq!(a.bill_expenses, [0, 0]);
}

#[test]
fn charge_by_formula() {
    let mut a = billed(&[3360, 1020], 1500, 100, &[(100, 100), (0, 100)]);
    assert_eq!(a.charge_accounts(), Ok(()));
    assert_eq!(a.bill_expenses, [4380, 2000]);
    assert_eq!(a.balance, 4380 + 2000 - 1500);
    assert_eq!(a.charge_accounts(), Ok(()));
    assert_eq!(a.balance, 2 * (4380 + 2000 - 1500));
}

#[test]
fn charge_can_lower_the_balance() {
    let mut a = billed(&[10, 20], 5000, 10, &[(4, 10), (6, 10)]);
    a.balance = 100;
    assert_eq!(a.charge_accounts(), Ok(()));
    assert_eq!(a.bill_expenses, [30, 200]);
    assert_eq!(a.balance, 100 + 30 + 200 - 5000);
}

#[test]
fn charge_with_shares_of_an_earlier_peak_rounds_down() {
    // Shares of 5 and 2 of a peak of 7, priced at a ratchet of 10.
    let mut a = billed(&[0, 0], 0, 10, &[(5, 7), (2, 7)]);
    assert_eq!(a.charge_accounts(), Ok(()));
    assert_eq!(a.bill_expenses, [0, 142 + 57]);
    assert_eq!(a.balance, 199);
}

#[test]
fn charge_without_clients() {
    let mut a = billed(&[], 40, 10, &[]);
    assert_eq!(a.charge_accounts(), Ok(()));
    assert_eq!(a.bill_expenses, [0, 0]);
    assert_eq!(a.balance, -40);
}

#[test]
fn charge_without_a_billed_client_is_refused() {
    let mut a = billed(&[10, 20], 5, 10, &[(4, 10), (6, 10)]);
    a.master_meter.clients[1].expenses.expenses_c1.clear();
    assert_eq!(a.charge_accounts(), Err(MeterError::PrematureCharge));
    let mut a = billed(&[10, 20], 5, 10, &[(4, 10), (6, 10)]);
    a.master_meter.clients[0].expenses.expenses_c2.clear();
    assert_eq!(a.charge_accounts(), Err(MeterError::PrematureCharge));
    assert_eq!(a.balance, 0);
    assert_eq!(a.bill_expenses, [0, 0]);
}

#[test]
fn charge_without_a_settled_cost_is_refused() {
    let mut a = billed(&[10, 20], 5, 10, &[(4, 10), (6, 10)]);
    a.master_meter.expenses.expenses.clear();
    assert_eq!(a.charge_accounts(), Err(MeterError::PrematureCharge));
    assert_eq!(a.balance, 0);
}

#[test]
fn charge_without_ratchet_or_factors_is_refused() {
    let mut a = billed(&[10, 20], 5, 10, &[(4, 10), (6, 10)]);
    a.master_meter.expenses.ratchet_val = None;
    assert_eq!(a.charge_accounts(), Err(MeterError::PrematureCharge));
    let mut a = billed(&[10, 20], 5, 10, &[(4, 10)]);
    assert_eq!(a.charge_accounts(), Err(MeterError::PrematureCharge));
    let mut a = billed(&[10, 20], 5, 10, &[]);
    assert_eq!(a.charge_accounts(), Err(MeterError::PrematureCharge));
    assert_eq!(a.balance, 0);
}

#[test]
fn charge_with_a_factor_over_zero_is_refused() {
    let mut a = billed(&[10, 20], 5, 0, &[(0, 0), (0, 0)]);
    assert_eq!(a.charge_accounts(), Err(MeterError::UndefinedFactor));
    let mut a = billed(&[10, 20], 5, 10, &[(4, 10), (6, 0)]);
    assert_eq!(a.charge_accounts(), Err(MeterError::UndefinedFactor));
    assert_eq!(a.balance, 0);
    assert_eq!(a.bill_expenses, [0, 0]);
    // Before a cycle has completed, that is what is reported.
    a.master_meter.expenses.expenses.clear();
    assert_eq!(a.charge_accounts(), Err(MeterError::PrematureCharge));
}

#[test]
fn charge_beyond_the_balance_is_refused() {
    let mut a = billed(&[10, 20], 5, 10, &[(4, 10), (6, 10)]);
    a.balance = i128::MAX - 224;
    assert_eq!(a.charge_accounts(), Err(MeterError::BalanceOverflow));
    assert_eq!(a.balance, i128::MAX - 224);
    assert_eq!(a.bill_expenses, [0, 0]);
    a.balance = i128::MAX - 225;
    assert_eq!(a.charge_accounts(), Ok(()));
    assert_eq!(a.balance, i128::MAX);
    let mut a = billed(&[0], 5, 10, &[(0, 10)]);
    a.balance = i128::MIN + 4;
    assert_eq!(a.charge_accounts(), Err(MeterError::BalanceOverflow));
    a.balance = i128::MIN + 5;
    assert_eq!(a.charge_accounts(), Ok(()));
    assert_eq!(a.balance, i128::MIN);
}

#[test]
fn demand_share_by_formula() {
    assert_eq!(KW_RATE_R, 20);
    assert_eq!(demand_share_of(ExpenseFactor { share: 100, peak: 100 }, 100), Some(2000));
    assert_eq!(demand_share_of(ExpenseFactor { share: 0, peak: 100 }, 100), Some(0));
    assert_eq!(demand_share_of(ExpenseFactor { share: 5, peak: 7 }, 10), Some(142));
    assert_eq!(demand_share_of(ExpenseFactor { share: 255, peak: 1 }, 255), Some(1_300_500));
    assert_eq!(demand_share_of(ExpenseFactor { share: 1, peak: 255 }, 1), Some(0));
    assert_eq!(demand_share_of(ExpenseFactor { share: 1, peak: 0 }, 1), None);
    assert_eq!(demand_share_of(ExpenseFactor { share: 0, peak: 0 }, 0), None);
}

#[test]
fn demand_charge_sums_the_shares() {
    let factors = vec![
        ExpenseFactor { share: 4, peak: 10 },
        ExpenseFactor { share: 6, peak: 10 },
    ];
    assert_eq!(demand_charge_of(&factors, 10), Some(200));
    assert_eq!(demand_charge_of(&Vec::new(), 10), Some(0));
    let undefined = vec![ExpenseFactor { share: 4, peak: 10 }, ExpenseFactor { share: 6, peak: 0 }];
    assert_eq!(demand_charge_of(&undefined, 10), None);
}

#[test]
fn consumption_charge_sums_the_latest_costs() {
    let a = billed(&[10, 20, 30], 5, 10, &[]);
    assert_eq!(a.master_meter.consumption_charge(), Some(60));
    assert_eq!(Account::new(clients(2)).master_meter.consumption_charge(), None);
    assert_eq!(Account::new(Vec::new()).master_meter.consumption_charge(), Some(0));
}

#[test]
fn thirty_days_of_two_clients() {
    // Readings from the 15th of January to the 13th of February 2023; the
    // first client alone sets the peak, on the fifteenth day.
    let now = JAN_1_2023 + 13 * DAY;
    let peak: u8 = 100;
    let mut a = Account::new(clients(2));
    for day in 1..=30 {
        let values: [u8; 2] = if day == 15 { [peak, 0] } else { [4, 3] };
        for k in 0..2 {
            let m = &mut a.master_meter.clients[k];
            assert_eq!(m.meter.record_next(Timestamp { secs: now + k as i64 }, values[k]), Ok(()));
            assert_eq!(m.c_update_totals(), Ok(()));
        }
        assert_eq!(a.master_meter.add_point(), Ok(()));
        assert_eq!(a.master_meter.m_update_totals(), Ok(()));
        if day < 18 {
            // No cycle has completed yet.
            assert_eq!(a.charge_accounts(), Err(MeterError::PrematureCharge));
        }
        if day < 15 {
            assert_eq!(
                a.master_meter.expense_factors,
                vec![ExpenseFactor { share: 4, peak: 7 }, ExpenseFactor { share: 3, peak: 7 }]
            );
        }
    }
    let m = &a.master_meter;
    assert_eq!(m.meter.len(), 30);
    assert_eq!(
        m.expenses.ratchet_val,
        Some(RatchetValue { timestamp: Timestamp { secs: now + 15 * DAY }, value: peak })
    );
    assert_eq!(
        m.expense_factors,
        vec![ExpenseFactor { share: 100, peak: 100 }, ExpenseFactor { share: 0, peak: 100 }]
    );
    let ratios: Vec<f32> =
        m.expense_factors.iter().map(|f| f.share as f32 / f.peak as f32).collect();
    assert_eq!(ratios, vec![1.0, 0.0]);
    // Billed once, on the first of February: the eighteenth day.
    assert_eq!(m.meter.history[17].timestamp.secs, JAN_1_2023 + 31 * DAY);
    assert_eq!(m.expenses.expenses_c2, vec![peak as u32 * KW_RATE_R]);
    assert_eq!(m.expenses.expenses_c1, vec![(17 * 7 + 100) * 20]);
    assert_eq!(m.clients[0].expenses.expenses_c1, vec![(17 * 4 + 100) * 20]);
    assert_eq!(m.clients[1].expenses.expenses_c1, vec![17 * 3 * 20]);
    assert_eq!(m.clients[0].expenses.expenses_c2, vec![100 * 20]);
    assert_eq!(m.clients[1].expenses.expenses_c2, vec![3 * 20]);

    // The master meter has settled its own consumption cost of the cycle.
    assert_eq!(m.expenses.expenses, vec![4380]);
    assert_eq!(a.balance, 0);
    assert_eq!(a.charge_accounts(), Ok(()));
    let consumption: i128 = (17 * 4 + 100) * 20 + 17 * 3 * 20;
    let demand: i128 = 20 * 100;
    assert_eq!(a.bill_expenses, [consumption as u128, demand as u128]);
    assert_eq!(a.balance, consumption + demand - 4380);
    assert_eq!(a.balance, 2000);
    let in_floats: f32 = (3360.0 + 1020.0) + (1.0 * 20.0 * 100.0 + 0.0 * 20.0 * 100.0) - 4380.0;
    assert_eq!(a.balance as f32, in_floats);
}

#[test]
fn charge_when_due_or_not() {
    let mut a = billed(&[10, 20], 5000, 10, &[(4, 10), (6, 10)]);
    a.balance = 100;
    assert_eq!(a.charge_when(false), Ok(()));
    assert_eq!(a.balance, 100);
    assert_eq!(a.bill_expenses, [0, 0]);
    assert_eq!(a.charge_when(true), Ok(()));
    assert_eq!(a.bill_expenses, [30, 200]);
    assert_eq!(a.balance, 100 + 30 + 200 - 5000);
    let mut blank = Account::new(clients(2));
    assert_eq!(blank.charge_when(false), Ok(()));
    assert_eq!(blank.charge_when(true), Err(MeterError::PrematureCharge));
    assert_eq!(blank.balance, 0);
}

#[test]
fn account_round_charges_on_the_first_of_a_month() {
    let mut a = Account::new(clients(2));
    // Both clients start on the 20th of January 2023.
    for k in 0..2 {
        let m = &mut a.master_meter.clients[k].meter;
        assert_eq!(m.record_next(Timestamp { secs: JAN_1_2023 + 18 * DAY }, 9), Ok(()));
        assert_eq!(a.master_meter.clients[k].c_update_totals(), Ok(()));
    }
    assert_eq!(a.master_meter.add_point(), Ok(()));
    assert_eq!(a.master_meter.m_update_totals(), Ok(()));
    let mut charged = 0;
    for n in 2..=45usize {
        let before = a.balance;
        assert_eq!(a.round(), Ok(()));
        let m = &a.master_meter;
        assert_eq!(m.meter.len(), n);
        let latest = m.meter.history[n - 1];
        if latest.timestamp.is_billing_day() {
            charged += 1;
            let consumption: u128 =
                m.clients.iter().map(|c| *c.expenses.expenses_c1.last().unwrap() as u128).sum();
            let peak = m.expenses.ratchet_val.unwrap().value as u128;
            let demand: u128 = m
                .expense_factors
                .iter()
                .map(|f| f.share as u128 * 20 * peak / f.peak as u128)
                .sum();
            assert_eq!(a.bill_expenses, [consumption, demand]);
            let settled = *m.expenses.expenses.last().unwrap() as i128;
            assert_eq!(settled, *m.expenses.expenses_c1.last().unwrap() as i128);
            assert_eq!(a.balance, before + consumption as i128 + demand as i128 - settled);
            // In step, the clients' consumption is the aggregate's, and the
            // demand charge the cost of the peak.
            assert_eq!(consumption as i128, settled);
            assert_eq!(demand, 20 * peak);
        } else {
            assert_eq!(a.balance, before);
        }
        assert_eq!(m.expenses.expenses.len(), charged);
    }
    // The first of February and the first of March.
    assert_eq!(charged, 2);
    assert!(a.balance > 0);
}

#[test]
fn account_round_reports_a_refused_charge() {
    let mut a = Account::new(clients(2));
    // The first client reads on the last of January, the second a day behind:
    // on the first client's first of February the second has not been billed.
    let starts = [JAN_1_2023 + 29 * DAY, JAN_1_2023 + 28 * DAY];
    for k in 0..2 {
        let m = &mut a.master_meter.clients[k].meter;
        assert_eq!(m.record_next(Timestamp { secs: starts[k] }, 9), Ok(()));
        assert_eq!(a.master_meter.clients[k].c_update_totals(), Ok(()));
    }
    assert_eq!(a.master_meter.add_point(), Ok(()));
    assert_eq!(a.master_meter.m_update_totals(), Ok(()));
    assert_eq!(a.round(), Err(MeterError::PrematureCharge));
    assert_eq!(a.balance, 0);
    assert_eq!(a.bill_expenses, [0, 0]);
    // The round itself is complete.
    assert_eq!(a.master_meter.meter.len(), 2);
    assert_eq!(a.master_meter.clients[1].meter.len(), 2);
    assert_eq!(a.master_meter.expenses.expenses.len(), 1);
    assert!(a.master_meter.clients[1].expenses.expenses_c1.is_empty());
    // A day later the second client is billed; no charge falls due.
    assert_eq!(a.round(), Ok(()));
    assert_eq!(a.balance, 0);
    assert_eq!(a.master_meter.clients[1].expenses.expenses_c1.len(), 1);
}

#[test]
fn account_round_without_clients_is_refused() {
    let mut a = Account::new(Vec::new());
    assert_eq!(a.round(), Err(MeterError::EmptyHistory));
    assert_eq!(a.balance, 0);
}
