//! The finder: whether any account of the pool has an entitlement for a
//! series now. A scan of the pool is costly, so one scan serves every
//! caller that asks while it runs, and for a while after it the answer is
//! `false` without a scan.
//!
//! The finder decides; its caller does the waiting and the asking. A call
//! either joins the live registration of the series or starts a scan. The
//! scan names one account after the other; what the remote side reports of
//! each is recorded, and the record says when the positive answer is to
//! be broadcast. When the scan is over the cooldown window opens, and each
//! tick of it broadcasts `false`; the last one closes the window.

use crate::endpoints::ledger::{
    compute_ledger, ledger, read_wait_free, wait_free_at, TicketStatus, TicketStatusView,
};
use crate::error::{Error, ErrorView};
use crate::number::one_more;
use crate::states::finder::{Phase, Registration, COOLDOWN_TICKS};
use crate::states::series::is_listing;
use crate::states::{
    account_missing, lemma_with_series_valid, lemma_written_valid, written, States, StatesView,
};
use crate::util::bad_timestamp;
use std::collections::HashSet;
use vstd::prelude::*;

verus! {

/// A scan of the pool for the series `series_id`, started by a request for
/// the item `single_id`.
#[derive(Clone, Debug, PartialEq, Eq)]
pub struct Scan {
    pub series_id: i64,
    pub single_id: i64,
    /// The accounts to ask about, in this order.
    pub targets: Vec<i64>,
    /// How many of them have been recorded.
    pub at: usize,
}

pub struct ScanView {
    pub series_id: i64,
    pub single_id: i64,
    pub targets: Seq<i64>,
    pub at: nat,
}

impl View for Scan {
    type V = ScanView;

    open spec fn view(&self) -> ScanView {
        ScanView {
            series_id: self.series_id,
            single_id: self.single_id,
            targets: self.targets@,
            at: self.at as nat,
        }
    }
}

/// What a call of the finder is to do.
#[derive(Clone, Debug, PartialEq, Eq)]
pub enum Entry {
    /// A registration is live: wait for its next broadcast.
    Joined,
    /// The series is registered now: run the scan, and wait for the first
    /// broadcast.
    Started(Scan),
}

pub enum EntryView {
    Joined,
    Started(ScanView),
}

impl View for Entry {
    type V = EntryView;

    open spec fn view(&self) -> EntryView {
        match self {
            Entry::Joined => EntryView::Joined,
            Entry::Started(scan) => EntryView::Started(scan@),
        }
    }
}

/// The next account of a scan.
#[derive(Clone, Copy, Debug, PartialEq, Eq, Structural)]
pub struct Probe {
    pub account_id: i64,
    /// The account has no ticket slot in the series yet: the free tickets
    /// of the series are to be claimed for it before its tickets are asked
    /// for.
    pub check_first: bool,
}

/// An answer that goes to every caller that waits.
#[derive(Clone, Copy, Debug, PartialEq, Eq, Structural)]
pub struct Broadcast {
    pub value: bool,
    /// The callers that waited, and receive `value`.
    pub receivers: u64,
}

/// What a tick of the cooldown window does.
#[derive(Clone, Copy, Debug, PartialEq, Eq, Structural)]
pub enum Tick {
    /// The answer is broadcast, and the window stays open.
    Answered(Broadcast),
    /// The answer is broadcast, and the window is closed: the series is
    /// registered no more.
    Closed(Broadcast),
    /// No window is open for the series.
    Idle,
}

/// The registration of a series whose scan starts, with its first caller.
pub open spec fn fresh() -> Registration {
    Registration { phase: Phase::Scanning, announced: false, ticks: 0, waiting: 1 }
}

/// The accounts of `order` that are not among `checked`, in that order.
pub open spec fn unchecked(order: Seq<i64>, checked: Set<i64>) -> Seq<i64> {
    order.filter(|account: i64| !checked.contains(account))
}

/// The registrations after a call for `series`: the caller waits with the
/// others where the series is registered, and is the first to wait where
/// it is not.
pub open spec fn entered(states: StatesView, series: i64) -> StatesView {
    StatesView {
        finders: match states.finders.get(series) {
            Some(held) => states.finders.insert(
                series,
                Registration { waiting: one_more(held.waiting), ..held },
            ),
            None => states.finders.insert(series, fresh()),
        },
        ..states
    }
}

/// `entry` is what a call for `series` is to do: join where the series is
/// registered; and start a scan where it is not, of the accounts of the
/// pool that are not among `checked`, in the order in which the pool is
/// walked.
pub open spec fn enters(
    states: StatesView,
    checked: Set<i64>,
    series: i64,
    single: i64,
    entry: EntryView,
) -> bool {
    if states.finders.contains_key(series) {
        entry == EntryView::Joined
    } else {
        exists|order: Seq<i64>|
            is_listing(order, states.accounts.dom()) && entry == EntryView::Started(
                ScanView {
                    series_id: series,
                    single_id: single,
                    targets: #[trigger] unchecked(order, checked),
                    at: 0,
                },
            )
    }
}

/// The accounts of `order` that are not among `checked`.
pub fn unchecked_of(order: &Vec<i64>, checked: &HashSet<i64>) -> (targets: Vec<i64>)
    ensures
        targets@ == unchecked(order@, checked@),
{
    broadcast use vstd::std_specs::hash::group_hash_axioms;

    let ghost open = |account: i64| !checked@.contains(account);
    let mut targets: Vec<i64> = Vec::new();
    let mut at: usize = 0;
    proof {
        reveal(Seq::filter);
        assert(order@.take(0) =~= Seq::<i64>::empty());
    }
    while at < order.len()
        invariant
            at <= order.len(),
            open == |account: i64| !checked@.contains(account),
            targets@ == order@.take(at as int).filter(open),
        decreases order.len() - at,
    {
        let account = order[at];
        let seen = checked.contains(&account);
        proof {
            reveal(Seq::filter);
            assert(order@.take(at + 1).drop_last() =~= order@.take(at as int));
            assert(!seen == open(account));
        }
        if !seen {
            targets.push(account);
        }
        at += 1;
    }
    assert(order@.take(order.len() as int) =~= order@);
    targets
}

/// A call of the finder for the series `series_id`, made by a request for
/// the item `single_id` that has checked the accounts `checked` itself.
pub fn finder_job(
    states: &mut States,
    checked: &HashSet<i64>,
    series_id: i64,
    single_id: i64,
) -> (entry: Entry)
    ensures
        enters(old(states)@, checked@, series_id, single_id, entry@),
        final(states)@ == entered(old(states)@, series_id),
        old(states)@.valid() ==> final(states)@.valid(),
{
    match states.registration(series_id) {
        Some(held) => {
            let waiting = if held.waiting < u64::MAX {
                held.waiting + 1
            } else {
                held.waiting
            };
            states.register(
                series_id,
                Registration {
                    phase: held.phase,
                    announced: held.announced,
                    ticks: held.ticks,
                    waiting,
                },
            );
            Entry::Joined
        },
        None => {
            let order = states.account_ids();
            let targets = unchecked_of(&order, checked);
            states.register(
                series_id,
                Registration { phase: Phase::Scanning, announced: false, ticks: 0, waiting: 1 },
            );
            Entry::Started(Scan { series_id, single_id, targets, at: 0 })
        },
    }
}

/// The account that `scan` is at, with the probe that is made of it:
/// nothing, where the scan is through.
pub open spec fn probed(states: StatesView, scan: ScanView) -> Option<Result<Probe, ErrorView>> {
    if scan.at < scan.targets.len() {
        let account = scan.targets[scan.at as int];
        if states.accounts.contains_key(account) {
            Some(
                Ok(
                    Probe {
                        account_id: account,
                        check_first: !states.series(scan.series_id).tickets.contains_key(
                            account,
                        ),
                    },
                ),
            )
        } else {
            Some(Err(account_missing(account)))
        }
    } else {
        None
    }
}

/// The answer that a record broadcasts: the positive one, to all that
/// wait, where the ledger holds a counted redemption and the scan has not
/// yet given its answer.
pub open spec fn announced(states: StatesView, series: i64, permanent: i64) -> Option<Broadcast> {
    match states.finders.get(series) {
        Some(held) => if permanent > 0 && !held.announced {
            Some(Broadcast { value: true, receivers: held.waiting })
        } else {
            None
        },
        None => None,
    }
}

/// The registrations after `answer` was broadcast for `series`: nobody
/// waits, and the scan has given its answer.
pub open spec fn after_announcement(
    states: StatesView,
    series: i64,
    answer: Option<Broadcast>,
) -> StatesView {
    match answer {
        Some(_) => StatesView {
            finders: states.finders.insert(
                series,
                Registration { announced: true, waiting: 0, ..states.finders[series] },
            ),
            ..states
        },
        None => states,
    }
}

/// The store after what the remote side reports of the account that
/// `scan` is at was recorded at `now`: the ledger of the account is what
/// follows from the report, and the positive answer is broadcast where it
/// is due. A report that cannot be read changes nothing.
pub open spec fn recorded(
    states: StatesView,
    scan: ScanView,
    status: TicketStatusView,
    now: i64,
) -> (StatesView, Result<Option<Broadcast>, ErrorView>) {
    if scan.at >= scan.targets.len() {
        (states, Ok(None))
    } else {
        match wait_free_at(status.charged_at) {
            None => (states, Err(bad_timestamp(status.charged_at->0))),
            Some(wait_free) => {
                let ticket = ledger(status.rental_count + status.own_count, wait_free, now);
                let answer = announced(states, scan.series_id, ticket.permanent);
                (
                    written(
                        after_announcement(states, scan.series_id, answer),
                        scan.series_id,
                        scan.targets[scan.at as int],
                        ticket,
                    ),
                    Ok(answer),
                )
            },
        }
    }
}

/// The registrations after the scan of `series` is over: its cooldown
/// window is open.
pub open spec fn finished(states: StatesView, series: i64) -> StatesView {
    match states.finders.get(series) {
        Some(held) => StatesView {
            finders: states.finders.insert(
                series,
                Registration { phase: Phase::Cooldown, ticks: 0, ..held },
            ),
            ..states
        },
        None => states,
    }
}

/// The registrations after the scan of `series` has failed: the series is
/// registered no more, so that the next call starts a scan.
pub open spec fn failed(states: StatesView, series: i64) -> StatesView {
    StatesView { finders: states.finders.remove(series), ..states }
}

/// What a tick of the cooldown window of `series` does: it answers `false`
/// to all that wait, and its last answer closes the window.
pub open spec fn ticked(states: StatesView, series: i64) -> (StatesView, Tick) {
    match states.finders.get(series) {
        Some(held) => if held.phase == Phase::Cooldown {
            let answer = Broadcast { value: false, receivers: held.waiting };
            if held.ticks + 1 >= COOLDOWN_TICKS {
                (
                    StatesView { finders: states.finders.remove(series), ..states },
                    Tick::Closed(answer),
                )
            } else {
                (
                    StatesView {
                        finders: states.finders.insert(
                            series,
                            Registration { ticks: (held.ticks + 1) as u32, waiting: 0, ..held },
                        ),
                        ..states
                    },
                    Tick::Answered(answer),
                )
            }
        } else {
            (states, Tick::Idle)
        },
        None => (states, Tick::Idle),
    }
}

impl Scan {
    /// The next account to ask about, if the scan is not through. The
    /// series is referred to, and the account must be one of the pool.
    pub fn next(&self, states: &mut States) -> (probe: Option<Result<Probe, Error>>)
        ensures
            match probed(old(states)@, self@) {
                None => probe is None && final(states)@ == old(states)@,
                Some(Ok(made)) => probe == Some(Ok::<Probe, Error>(made)) && final(states)@ == old(
                    states,
                )@.with_series(self.series_id),
                Some(Err(failure)) => (probe matches Some(Err(error)) && error@ == failure)
                    && final(states)@ == old(states)@,
            },
            old(states)@.valid() ==> final(states)@.valid(),
    {
        if self.at >= self.targets.len() {
            return None;
        }
        let account = self.targets[self.at];
        match states.get_acc(account) {
            Err(error) => Some(Err(error)),
            Ok(_) => {
                let series = states.take_srs(self.series_id);
                let check_first = !series.has_tkt(account);
                states.put_srs(self.series_id, series);
                proof {
                    let known = old(states)@.with_series(self.series_id);
                    assert(states@.serieses =~= known.serieses);
                    if old(states)@.valid() {
                        lemma_with_series_valid(old(states)@, self.series_id);
                    }
                }
                Some(Ok(Probe { account_id: account, check_first }))
            },
        }
    }

    /// Records what the remote side reports of the account that the scan
    /// is at, and moves the scan on. The result is the answer to
    /// broadcast, if one is due.
    pub fn record(
        &mut self,
        states: &mut States,
        status: &TicketStatus,
        now: i64,
    ) -> (answer: Result<Option<Broadcast>, Error>)
        ensures
            final(states)@ == recorded(old(states)@, old(self)@, status@, now).0,
            match recorded(old(states)@, old(self)@, status@, now).1 {
                Ok(due) => answer == Ok::<Option<Broadcast>, Error>(due),
                Err(failure) => answer matches Err(error) && error@ == failure,
            },
            final(self)@ == (if answer is Ok && old(self).at < old(self).targets.len() {
                ScanView { at: old(self)@.at + 1, ..old(self)@ }
            } else {
                old(self)@
            }),
            old(states)@.valid() ==> final(states)@.valid(),
    {
        if self.at >= self.targets.len() {
            return Ok(None);
        }
        let account = self.targets[self.at];
        let wait_free = read_wait_free(&status.charged_at)?;
        let ticket = compute_ledger(status.rental_count, status.own_count, false, wait_free, now);
        let answer = match states.registration(self.series_id) {
            Some(held) => if ticket.permanent > 0 && !held.announced {
                states.register(
                    self.series_id,
                    Registration {
                        phase: held.phase,
                        announced: true,
                        ticks: held.ticks,
                        waiting: 0,
                    },
                );
                Some(Broadcast { value: true, receivers: held.waiting })
            } else {
                None
            },
            None => None,
        };
        let ghost middle = states@;
        let mut series = states.take_srs(self.series_id);
        series.set_tkt(account, ticket);
        states.put_srs(self.series_id, series);
        proof {
            assert(states@.serieses =~= written(middle, self.series_id, account, ticket).serieses);
            if old(states)@.valid() {
                assert(middle.valid());
                lemma_written_valid(middle, self.series_id, account, ticket);
            }
        }
        self.at = self.at + 1;
        Ok(answer)
    }

    /// Ends a scan that has failed: a question to the remote side was not
    /// answered, or an answer could not be read. No cooldown window opens.
    /// The series is registered no more; nothing that was recorded is taken
    /// back, and no other ledger changes. The result is the number of
    /// callers that waited: each of them is told of the failure.
    pub fn fail(self, states: &mut States) -> (waiting: u64)
        ensures
            final(states)@ == failed(old(states)@, self.series_id),
            waiting == (match old(states)@.finders.get(self.series_id) {
                Some(held) => held.waiting,
                None => 0,
            }),
            old(states)@.valid() ==> final(states)@.valid(),
    {
        let waiting = match states.registration(self.series_id) {
            Some(held) => held.waiting,
            None => 0,
        };
        states.deregister(self.series_id);
        waiting
    }

    /// Ends the scan: the cooldown window of the series opens.
    pub fn finish(self, states: &mut States)
        ensures
            final(states)@ == finished(old(states)@, self.series_id),
            old(states)@.valid() ==> final(states)@.valid(),
    {
        match states.registration(self.series_id) {
            Some(held) => {
                states.register(
                    self.series_id,
                    Registration {
                        phase: Phase::Cooldown,
                        announced: held.announced,
                        ticks: 0,
                        waiting: held.waiting,
                    },
                );
            },
            None => {},
        }
    }
}

/// One tick of the cooldown window of the series `series_id`.
pub fn cooldown_tick(states: &mut States, series_id: i64) -> (tick: Tick)
    ensures
        final(states)@ == ticked(old(states)@, series_id).0,
        tick == ticked(old(states)@, series_id).1,
        old(states)@.valid() ==> final(states)@.valid(),
{
    match states.registration(series_id) {
        Some(held) => match held.phase {
            Phase::Cooldown => {
                let answer = Broadcast { value: false, receivers: held.waiting };
                if held.ticks >= COOLDOWN_TICKS - 1 {
                    states.deregister(series_id);
                    Tick::Closed(answer)
                } else {
                    states.register(
                        series_id,
                        Registration {
                            phase: held.phase,
                            announced: held.announced,
                            ticks: held.ticks + 1,
                            waiting: 0,
                        },
                    );
                    Tick::Answered(answer)
                }
            },
            Phase::Scanning => Tick::Idle,
        },
        None => Tick::Idle,
    }
}

} // verus!
