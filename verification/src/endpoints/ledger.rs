//! How a ticket ledger follows from what the remote side reports.

use crate::error::{Error, ErrorKind, ErrorView};
use crate::states::series::{ticket_missing, SeriesView, Ticket, NONE_PENDING};
use crate::states::{States, StatesView};
use crate::util::{bad_timestamp, iso, iso_seconds};
use vstd::prelude::*;

verus! {

/// What the remote side reports of one account's tickets for one series.
#[derive(Clone, Debug, PartialEq, Eq)]
pub struct TicketStatus {
    pub own_count: i64,
    pub rental_count: i64,
    /// When the free, time-gated redemption was or will be charged, where
    /// one is pending.
    pub charged_at: Option<String>,
}

pub struct TicketStatusView {
    pub own_count: i64,
    pub rental_count: i64,
    pub charged_at: Option<Seq<char>>,
}

impl View for TicketStatus {
    type V = TicketStatusView;

    open spec fn view(&self) -> TicketStatusView {
        TicketStatusView {
            own_count: self.own_count,
            rental_count: self.rental_count,
            charged_at: self.charged_at.deep_view(),
        }
    }
}

/// A count as a ledger holds it: not negative, and within `i64`.
pub open spec fn count_of(total: int) -> i64 {
    if total < 0 {
        0
    } else if total > i64::MAX {
        i64::MAX
    } else {
        total as i64
    }
}

/// The time of the pending free redemption that `charged_at` reports:
/// [`NONE_PENDING`] where it reports none, and nothing where it cannot be
/// read.
pub open spec fn wait_free_at(charged_at: Option<Seq<char>>) -> Option<i64> {
    match charged_at {
        Some(text) => iso_seconds(text),
        None => Some(NONE_PENDING),
    }
}

/// The ledger of an account that holds `total` owned and rented tickets at
/// `now`, with its free redemption charged at `wait_free`. A free
/// redemption that has fallen due is counted among the rented tickets, and
/// is not a permanent one.
pub open spec fn ledger(total: int, wait_free: i64, now: i64) -> Ticket {
    Ticket {
        wait_free,
        permanent: count_of(
            if now > wait_free {
                total - 1
            } else {
                total
            },
        ),
    }
}

/// A ledger keeps its invariant whatever was reported.
pub proof fn lemma_ledger_valid(total: int, wait_free: i64, now: i64)
    ensures
        ledger(total, wait_free, now).valid(),
{
}

/// Reads when the pending free redemption is charged.
pub fn read_wait_free(charged_at: &Option<String>) -> (at: Result<i64, Error>)
    ensures
        match wait_free_at(charged_at.deep_view()) {
            Some(time) => at == Ok::<i64, Error>(time),
            None => at matches Err(error) && error@ == bad_timestamp(charged_at.deep_view()->0),
        },
{
    match charged_at {
        Some(text) => iso(text.as_str()),
        None => Ok(NONE_PENDING),
    }
}

/// The ledger of an account that holds `rental_count` rented and
/// `own_count` owned tickets, `spent` of which were just redeemed.
pub fn compute_ledger(
    rental_count: i64,
    own_count: i64,
    spent: bool,
    wait_free: i64,
    now: i64,
) -> (ticket: Ticket)
    ensures
        ticket == ledger(
            rental_count + own_count - (if spent {
                1int
            } else {
                0int
            }),
            wait_free,
            now,
        ),
        ticket.valid(),
{
    let mut total: i128 = rental_count as i128 + own_count as i128;
    if spent {
        total = total - 1;
    }
    if now > wait_free {
        total = total - 1;
    }
    let permanent: i64 = if total < 0 {
        0
    } else if total > 0x7fff_ffff_ffff_ffff {
        0x7fff_ffff_ffff_ffff
    } else {
        total as i64
    };
    Ticket { wait_free, permanent }
}

/// The store after the redemption of a ticket of `account` for the series
/// `series` was answered with `charged_at`, and the failure that the
/// answer ends in, if any.
///
/// Where the answer names a time, the ticket slot of the account takes it
/// as the time of its free redemption. The time is read first: where it
/// cannot be read, nothing changes. The series is referred to next, and
/// the slot looked up last.
pub open spec fn after_use_ticket(
    states: StatesView,
    account: i64,
    series: i64,
    charged_at: Option<Seq<char>>,
) -> (StatesView, Option<ErrorView>) {
    match charged_at {
        None => (states, None),
        Some(text) => match iso_seconds(text) {
            None => (states, Some(bad_timestamp(text))),
            Some(time) => {
                let known = states.with_series(series);
                let held = known.series(series);
                match held.tickets.get(account) {
                    None => (known, Some(ticket_missing(account))),
                    Some(ticket) => (
                        StatesView {
                            serieses: known.serieses.insert(
                                series,
                                SeriesView {
                                    tickets: held.tickets.insert(
                                        account,
                                        Ticket { wait_free: time, ..ticket },
                                    ),
                                    ..held
                                },
                            ),
                            ..known
                        },
                        None,
                    ),
                }
            },
        },
    }
}

/// Applies the answer to the redemption of a ticket of `account_id` for
/// the series `series_id`.
pub fn use_ticket(
    states: &mut States,
    account_id: i64,
    series_id: i64,
    charged_at: &Option<String>,
) -> (done: Result<(), Error>)
    ensures
        final(states)@ == after_use_ticket(
            old(states)@,
            account_id,
            series_id,
            charged_at.deep_view(),
        ).0,
        match after_use_ticket(old(states)@, account_id, series_id, charged_at.deep_view()).1 {
            None => done is Ok,
            Some(failure) => done matches Err(error) && error@ == failure,
        },
        old(states)@.valid() ==> final(states)@.valid(),
{
    match charged_at {
        None => Ok(()),
        Some(text) => {
            let time = iso(text.as_str())?;
            let mut series = states.take_srs(series_id);
            let done = match series.get_tkt(account_id) {
                Ok(ticket) => {
                    series.set_tkt(
                        account_id,
                        Ticket { wait_free: time, permanent: ticket.permanent },
                    );
                    Ok(())
                },
                Err(error) => Err(error),
            };
            states.put_srs(series_id, series);
            proof {
                let known = old(states)@.with_series(series_id);
                assert(final(states)@.serieses =~= after_use_ticket(
                    old(states)@,
                    account_id,
                    series_id,
                    charged_at.deep_view(),
                ).0.serieses);
            }
            done
        },
    }
}

} // verus!
