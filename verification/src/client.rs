//! A client: one billable meter with its own totals.

use vstd::prelude::*;
use crate::error::{refused, MeterError};
use crate::expenses::{recent, Expenses, ExpensesView, Update};
use crate::meter::{daily, Meter, Reader};
use crate::reading::{Reading, SECONDS_PER_DAY};
use crate::source::plausible_reading;

verus! {

/// Number of readings shown in a plot.
pub const PLOT_POINTS: usize = 30;

/// One point of a plot of recent usage.
#[derive(Clone, Copy, Debug, PartialEq, Eq, Structural)]
pub struct PlotPoint {
    /// Place along the time axis: `PLOT_POINTS` for the latest reading, one
    /// less for each period before it.
    pub rank: usize,
    /// Usage of that period.
    pub value: u8,
}

/// The plot of `history`: its most recent `PLOT_POINTS` readings, oldest
/// first, each with its place along the time axis.
pub open spec fn plot_of(history: Seq<Reading>) -> Seq<PlotPoint> {
    let shown = recent(history, PLOT_POINTS as nat);
    Seq::new(
        shown.len(),
        |k: int|
            PlotPoint { rank: (PLOT_POINTS - shown.len() + k + 1) as usize, value: shown[k].value },
    )
}

/// What a `Client` stands for.
#[verifier::ext_equal]
pub struct ClientView {
    pub meter: Seq<Reading>,
    pub expenses: ExpensesView,
}

impl ClientView {
    /// A client without readings or costs.
    pub open spec fn initial() -> ClientView {
        ClientView { meter: Seq::empty(), expenses: ExpensesView::initial() }
    }
}

/// What each of `clients` stands for.
pub open spec fn views_of(clients: Seq<Client>) -> Seq<ClientView> {
    clients.map_values(|c: Client| c@)
}

/// Whether `after` is `before` one period later: one reading more, dated one
/// period after the latest, and the totals brought up to date with it.
pub open spec fn advanced(before: ClientView, after: ClientView) -> bool {
    &&& after.meter.len() == before.meter.len() + 1
    &&& after.meter.drop_last() == before.meter
    &&& after.expenses == before.expenses.updated(after.meter)
    &&& before.meter.len() > 0 ==> after.meter.last().timestamp.secs
        == before.meter.last().timestamp.secs + SECONDS_PER_DAY
    &&& daily(before.meter) ==> daily(after.meter)
    &&& plausible_reading(after.meter.last().value, before.meter.len() == 0)
}

/// Whether each of `after` is the client at the same place in `before`, one
/// period later.
pub open spec fn all_advanced(before: Seq<ClientView>, after: Seq<ClientView>) -> bool {
    &&& after.len() == before.len()
    &&& forall|k: int| 0 <= k < before.len() ==> advanced(before[k], #[trigger] after[k])
}

/// Whether the first `n` of `after` are the clients at the same places in
/// `before`, one period later, and the others are as they were.
pub open spec fn advanced_up_to(before: Seq<ClientView>, after: Seq<ClientView>, n: int) -> bool {
    &&& after.len() == before.len()
    &&& 0 <= n <= before.len()
    &&& forall|k: int| 0 <= k < n ==> advanced(before[k], #[trigger] after[k])
    &&& forall|k: int| n <= k < before.len() ==> (#[trigger] after[k]) == before[k]
}

/// One billable entity: its meter and the totals computed from it.
pub struct Client {
    /// The client's own readings.
    pub meter: Meter,
    /// Totals over the client's readings.
    pub expenses: Expenses,
}

impl View for Client {
    type V = ClientView;

    open spec fn view(&self) -> ClientView {
        ClientView { meter: self.meter@, expenses: self.expenses@ }
    }
}

impl Client {
    /// A client without readings or costs.
    pub fn new() -> (c: Client)
        ensures
            c@ == ClientView::initial(),
    {
        Client { meter: Meter::new(), expenses: Expenses::new() }
    }

    /// Brings the client's totals up to date with its meter, to be called
    /// after each new reading.
    pub fn c_update_totals(&mut self) -> (r: Result<(), MeterError>)
        ensures
            final(self)@.meter == old(self)@.meter,
            final(self)@.expenses == old(self)@.expenses.updated(old(self)@.meter),
            old(self)@.meter.len() == 0 ==> r == refused(MeterError::EmptyHistory),
            old(self)@.meter.len() > 0 ==> r is Ok,
    {
        self.expenses.update_totals(&self.meter)
    }

    /// Takes the reading of the next period from the simulated source and
    /// brings the totals up to date with it.
    pub fn advance(&mut self) -> (r: Result<(), MeterError>)
        ensures
            r is Ok ==> advanced(old(self)@, final(self)@),
            r is Err ==> r == refused(MeterError::TimestampOutOfRange)
                && final(self)@ == old(self)@,
            old(self)@.meter.len() > 0 ==> (r is Ok
                <==> old(self)@.meter.last().timestamp.spec_next_day() is Some),
    {
        match self.meter.add_point() {
            Err(e) => { return Err(e); },
            Ok(()) => {},
        }
        self.c_update_totals()
    }

    /// The client's recent usage as points of a plot, oldest first; refused
    /// while the client has no reading.
    pub fn get_data(&self) -> (r: Result<Vec<PlotPoint>, MeterError>)
        ensures
            match r {
                Ok(points) => self@.meter.len() > 0 && points@ == plot_of(self@.meter),
                Err(e) => self@.meter.len() == 0 && e == MeterError::EmptyHistory,
            },
    {
        let n: usize = self.meter.history.len();
        if n == 0 {
            return Err(MeterError::EmptyHistory);
        }
        let start: usize = if n <= PLOT_POINTS {
            0
        } else {
            n - PLOT_POINTS
        };
        let first_rank: usize = PLOT_POINTS - (n - start) + 1;
        let mut points: Vec<PlotPoint> = Vec::new();
        let mut i: usize = start;
        while i < n
            invariant
                n == self@.meter.len(),
                start <= i <= n,
                n - start <= PLOT_POINTS,
                first_rank == PLOT_POINTS - (n - start) + 1,
                points@.len() == i - start,
                forall|k: int|
                    0 <= k < i - start ==> (#[trigger] points@[k]) == (PlotPoint {
                        rank: (first_rank + k) as usize,
                        value: self@.meter[start + k].value,
                    }),
            decreases n - i,
        {
            let value: u8 = self.meter.history[i].value;
            points.push(PlotPoint { rank: first_rank + (i - start), value });
            i = i + 1;
        }
        Ok(points)
    }
}

} // verus!
