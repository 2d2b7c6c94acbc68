//! The report of an account as a record holds it.

use crate::decimal::{Amount, Decimal};
use crate::payments;
use crate::payments::{AccountView, ClientId};
use vstd::prelude::*;
use vstd::std_specs::convert::FromSpecImpl;

verus! {

/// The most fractional digits that a record shows of an amount.
pub const MAX_PRECISION: u32 = 4;

/// A record of the state of an account.
#[derive(Debug, Clone, Copy, PartialEq, Eq)]
pub struct AccountReport {
    pub client: ClientId,
    pub available: Amount,
    pub held: Amount,
    pub total: Amount,
    pub locked: bool,
}

/// A record as the contracts see it.
pub struct AccountReportView {
    pub client: ClientId,
    pub available: Decimal,
    pub held: Decimal,
    pub total: Decimal,
    pub locked: bool,
}

impl View for AccountReport {
    type V = AccountReportView;

    open spec fn view(&self) -> AccountReportView {
        AccountReportView {
            client: self.client,
            available: self.available@,
            held: self.held@,
            total: self.total@,
            locked: self.locked,
        }
    }
}

impl AccountReportView {
    /// The record of a report: its amounts are shown with at most
    /// [`MAX_PRECISION`] fractional digits.
    pub open spec fn of(report: payments::AccountReportView) -> AccountReportView {
        AccountReportView {
            client: report.client_id,
            available: report.available.presented(MAX_PRECISION as nat),
            held: report.held.presented(MAX_PRECISION as nat),
            total: report.total.presented(MAX_PRECISION as nat),
            locked: report.locked,
        }
    }
}

impl From<payments::AccountReport> for AccountReport {
    /// The record of a report.
    fn from(account_report: payments::AccountReport) -> (record: Self)
        ensures
            record@ == AccountReportView::of(account_report@),
    {
        let available = with_max_precission(account_report.available);
        let held = with_max_precission(account_report.held);
        let total = with_max_precission(account_report.total);
        proof {
            use_type_invariant(&available);
            use_type_invariant(&held);
            use_type_invariant(&total);
            Amount::lemma_of_holds(available@);
            Amount::lemma_of_holds(held@);
            Amount::lemma_of_holds(total@);
            available.lemma_same_view(Amount::of(available@));
            held.lemma_same_view(Amount::of(held@));
            total.lemma_same_view(Amount::of(total@));
        }
        AccountReport {
            client: account_report.client_id,
            available,
            held,
            total,
            locked: account_report.locked,
        }
    }
}

impl FromSpecImpl<payments::AccountReport> for AccountReport {
    open spec fn obeys_from_spec() -> bool {
        true
    }

    open spec fn from_spec(account_report: payments::AccountReport) -> Self {
        let record = AccountReportView::of(account_report@);
        AccountReport {
            client: record.client,
            available: Amount::of(record.available),
            held: Amount::of(record.held),
            total: Amount::of(record.total),
            locked: record.locked,
        }
    }
}

/// The record of a report of the engine holds the amounts of the report as
/// they are: the engine has shown them as a record does.
pub proof fn lemma_record_keeps_report(account: AccountView, client_id: ClientId)
    ensures
        ({
            let report = account.report(client_id);
            let record = AccountReportView::of(report);
            &&& record.client == client_id
            &&& record.available == report.available
            &&& record.held == report.held
            &&& record.total == report.total
            &&& record.locked == account.locked
        }),
{
    let funds = account.funds;
    funds.available.lemma_presented_twice(MAX_PRECISION as nat);
    funds.held.lemma_presented_twice(MAX_PRECISION as nat);
    funds.available.plus(funds.held).lemma_presented_twice(MAX_PRECISION as nat);
}

/// The amount as a record shows it: with more than [`MAX_PRECISION`]
/// fractional digits it is brought down to that many, never up, and zero is
/// written in one way only.
pub fn with_max_precission(value: Amount) -> (shown: Amount)
    ensures
        shown@ == value@.presented(MAX_PRECISION as nat),
{
    let mut shown = value;
    if shown.scale() > MAX_PRECISION {
        shown = shown.rescale(MAX_PRECISION);
    }
    if shown.is_zero() {
        shown = Amount::zero();
    }
    shown
}

} // verus!
