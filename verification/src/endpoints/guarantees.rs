//! What holds of every content request and of every call of the finder,
//! proved from the steps of the coordinator and of the finder.

use crate::endpoints::finder::{
    announced, entered, enters, failed, finished, fresh, recorded, ticked, Broadcast, EntryView,
    ScanView, Tick,
};
use crate::endpoints::ledger::{after_use_ticket, ledger, wait_free_at, TicketStatusView};
use crate::endpoints::single::{
    answered, attempts, begins, cooldown, exhausted, fail, fetched, finds, redeems, settle,
    tries_permanent, tries_wait_free, try_permanent, Attempt, FetchView, FindView, Outcome,
    PlanView, ReadinessView, Ready, RedeemView, SingleReq, StepView,
};
use crate::endpoints::viewer::{single_of, ViewerInfoView};
use crate::error::ErrorView;
use crate::states::finder::{Phase, Registration, COOLDOWN_TICKS};
use crate::states::series::{is_listing, Ticket};
use crate::states::{account_missing, StatesView};
use vstd::prelude::*;

verus! {

/// The ledger of `account` for the series `series`, if it has one.
pub open spec fn ledger_of(states: StatesView, series: i64, account: i64) -> Option<Ticket> {
    states.series(series).tickets.get(account)
}

/// A request for a cached item is answered with that item, asks nothing of
/// anybody, and leaves the store as it is.
pub proof fn lemma_cached_item_is_replied(states: StatesView, req: SingleReq, now: i64, out: Outcome)
    requires
        states.series(req.series_id).singles.contains_key(req.single_id),
        begins(states, req, now, out),
    ensures
        out.step == StepView::Reply(states.series(req.series_id).singles[req.single_id]),
        out.states == states,
{
    assert(states.with_series(req.series_id).serieses =~= states.serieses);
}

/// An item that was fetched is cached as it was replied, for every later
/// request for it.
pub proof fn lemma_fetched_item_is_cached(
    states: StatesView,
    pending: FetchView,
    info: ViewerInfoView,
)
    requires
        single_of(info) is Ok,
    ensures
        fetched(states, pending, Ok(info)).step == StepView::Reply(single_of(info)->Ok_0),
        fetched(states, pending, Ok(info)).states.series(pending.req.series_id).singles.get(
            pending.req.single_id,
        ) == Some(single_of(info)->Ok_0),
{
}

/// Cache idempotence: after an item was cached, any number of requests for
/// it, one after the other, are each answered with the same item, by a
/// step that asks nothing of the remote side, and the store stays as it
/// is.
pub proof fn lemma_cache_idempotence(
    states: StatesView,
    reqs: Seq<SingleReq>,
    nows: Seq<i64>,
    outs: Seq<Outcome>,
    series: i64,
    id: i64,
)
    requires
        states.series(series).singles.contains_key(id),
        reqs.len() == outs.len(),
        nows.len() == outs.len(),
        forall|i: int|
            0 <= i < reqs.len() ==> (#[trigger] reqs[i]).series_id == series && reqs[i].single_id
                == id,
        forall|i: int|
            0 <= i < outs.len() ==> begins(
                if i == 0 {
                    states
                } else {
                    outs[i - 1].states
                },
                reqs[i],
                nows[i],
                #[trigger] outs[i],
            ),
    ensures
        forall|i: int|
            0 <= i < outs.len() ==> #[trigger] outs[i] == (Outcome {
                states,
                step: StepView::Reply(states.series(series).singles[id]),
            }),
{
    assert forall|i: int| 0 <= i < outs.len() implies #[trigger] outs[i] == (Outcome {
        states,
        step: StepView::Reply(states.series(series).singles[id]),
    }) by {
        lemma_cache_idempotence_at(states, reqs, nows, outs, series, id, i);
    }
}

proof fn lemma_cache_idempotence_at(
    states: StatesView,
    reqs: Seq<SingleReq>,
    nows: Seq<i64>,
    outs: Seq<Outcome>,
    series: i64,
    id: i64,
    at: int,
)
    requires
        states.series(series).singles.contains_key(id),
        reqs.len() == outs.len(),
        nows.len() == outs.len(),
        forall|i: int|
            0 <= i < reqs.len() ==> (#[trigger] reqs[i]).series_id == series && reqs[i].single_id
                == id,
        forall|i: int|
            0 <= i < outs.len() ==> begins(
                if i == 0 {
                    states
                } else {
                    outs[i - 1].states
                },
                reqs[i],
                nows[i],
                #[trigger] outs[i],
            ),
        0 <= at < outs.len(),
    ensures
        outs[at] == (Outcome { states, step: StepView::Reply(states.series(series).singles[id]) }),
    decreases at,
{
    if at > 0 {
        lemma_cache_idempotence_at(states, reqs, nows, outs, series, id, at - 1);
    }
    let before = if at == 0 {
        states
    } else {
        outs[at - 1].states
    };
    assert(before == states);
    assert(reqs[at].series_id == series && reqs[at].single_id == id);
    assert(begins(before, reqs[at], nows[at], outs[at]));
    lemma_cached_item_is_replied(states, reqs[at], nows[at], outs[at]);
}

/// The two-attempt bound: where the first attempt found nothing and the
/// finder answers `false`, the request fails at once with the cooldown
/// failure, and no second attempt is made.
pub proof fn lemma_two_attempt_bound(states: StatesView, pending: FindView, now: i64, out: Outcome)
    requires
        finds(states, pending, Ok(false), now, out),
    ensures
        out == fail(states, cooldown()),
        out.step is Fail,
        out.states == states,
{
}

/// The counted part asks about an account only where that account has a
/// counted redemption, and turns to the finder, or gives up, only where no
/// account has one.
pub proof fn lemma_permanent_choice(
    states: StatesView,
    req: SingleReq,
    attempt: Attempt,
    out: Outcome,
)
    requires
        tries_permanent(states, req, attempt, out),
    ensures
        out.states == states.with_series(req.series_id),
        out.step matches StepView::Ready(ready) ==> states.series(req.series_id).has_permanent(
            ready.account_id,
        ) && states.accounts.contains_key(ready.account_id) && ready.req == req && ready.attempt
            == attempt,
        out.step is Find || (out.step matches StepView::Fail(error) && error
            == exhausted()) ==> forall|account: i64|
            !states.series(req.series_id).has_permanent(account),
        (forall|account: i64| !states.series(req.series_id).has_permanent(account)) ==> (
        match attempt {
            Attempt::First => out.step is Find,
            Attempt::Second => out.step == StepView::Fail(exhausted()),
        }),
{
    let known = states.with_series(req.series_id);
    let series = known.series(req.series_id);
    let order = choose|order: Seq<i64>|
        is_listing(order, series.tickets.dom()) && out == #[trigger] try_permanent(
            known,
            req,
            attempt,
            order,
        );
    let held = |account: i64| series.has_permanent(account);
    let ready = order.filter(held);
    assert(ready == series.permanent_ready(order));
    if ready.len() > 0 {
        order.lemma_filter_pred(held, 0);
        assert(held(ready[0]));
    } else {
        assert forall|account: i64| !states.series(req.series_id).has_permanent(account) by {
            if series.has_permanent(account) {
                assert(order.to_set().contains(account));
                let at = choose|at: int| 0 <= at < order.len() && order[at] == account;
                order.lemma_filter_contains(held, at);
            }
        }
    }
    if forall|account: i64| !states.series(req.series_id).has_permanent(account) {
        if ready.len() > 0 {
            assert(series.has_permanent(ready[0]));
        }
        assert(exhausted().kind != account_missing(0).kind);
    }
}

/// The answer to the question about an unlock changes no ledger but that
/// of the account that was asked about, in the series of the request.
pub proof fn lemma_answer_keeps_other_ledgers(
    states: StatesView,
    pending: Ready,
    outcome: Result<ReadinessView, ErrorView>,
    now: i64,
    series: i64,
    account: i64,
)
    requires
        series != pending.req.series_id || account != pending.account_id,
    ensures
        ledger_of(answered(states, pending, outcome, now).states, series, account) == ledger_of(
            states,
            series,
            account,
        ),
        answered(states, pending, outcome, now).states.accounts == states.accounts,
{
    if let Ok(readiness) = outcome {
        lemma_settle_keeps_other_ledgers(
            states,
            pending.req,
            pending.account_id,
            readiness.status,
            false,
            now,
            series,
            account,
        );
    }
}

/// The end of the counted part changes no ledger but that of the account
/// that redeemed, in the series of the request.
pub proof fn lemma_settle_keeps_other_ledgers(
    states: StatesView,
    req: SingleReq,
    chosen: i64,
    status: TicketStatusView,
    spent: bool,
    now: i64,
    series: i64,
    account: i64,
)
    requires
        series != req.series_id || account != chosen,
    ensures
        ledger_of(settle(states, req, chosen, status, spent, now).states, series, account)
            == ledger_of(states, series, account),
        settle(states, req, chosen, status, spent, now).states.accounts == states.accounts,
{
}

/// The redemption of a ticket changes no ledger but that of the account
/// that redeemed, in the series of the request.
pub proof fn lemma_redemption_keeps_other_ledgers(
    states: StatesView,
    pending: RedeemView,
    outcome: Result<Option<Seq<char>>, ErrorView>,
    now: i64,
    out: Outcome,
    series: i64,
    account: i64,
)
    requires
        redeems(states, pending, outcome, now, out),
        series != pending.req.series_id || account != pending.account_id,
    ensures
        ledger_of(out.states, series, account) == ledger_of(states, series, account),
        out.states.accounts == states.accounts,
{
    let req = pending.req;
    let applied = match outcome {
        Ok(charged_at) => after_use_ticket(states, pending.account_id, req.series_id, charged_at),
        Err(error) => (states, Some(error)),
    };
    assert(ledger_of(applied.0, series, account) == ledger_of(states, series, account));
    match pending.plan {
        PlanView::WaitFree { rest } => {
            if applied.1 is Some {
                lemma_wait_free_keeps_ledgers(applied.0, req, pending.attempt, rest, out);
            }
        },
        PlanView::Counted { status } => {
            if applied.1 is None {
                lemma_settle_keeps_other_ledgers(
                    applied.0,
                    req,
                    pending.account_id,
                    status,
                    true,
                    now,
                    series,
                    account,
                );
            }
        },
    }
}

/// The free part of an attempt changes no ledger.
pub proof fn lemma_wait_free_keeps_ledgers(
    states: StatesView,
    req: SingleReq,
    attempt: Attempt,
    queue: Seq<i64>,
    out: Outcome,
)
    requires
        tries_wait_free(states, req, attempt, queue, out),
    ensures
        out.states == states || out.states == states.with_series(req.series_id),
        forall|series: i64| out.states.series(series) == states.series(series),
        out.states.accounts == states.accounts,
        out.states.finders == states.finders,
    decreases queue.len(),
{
    if queue.len() == 0 {
        lemma_permanent_choice(states, req, attempt, out);
    } else if !states.accounts.contains_key(queue[0]) {
        lemma_wait_free_keeps_ledgers(states, req, attempt, queue.drop_first(), out);
    }
}

/// An attempt changes no ledger: it only refers to the series.
pub proof fn lemma_attempt_keeps_ledgers(
    states: StatesView,
    req: SingleReq,
    attempt: Attempt,
    now: i64,
    out: Outcome,
)
    requires
        attempts(states, req, attempt, now, out),
    ensures
        out.states == states.with_series(req.series_id),
        forall|series: i64| out.states.series(series) == states.series(series),
{
    let known = states.with_series(req.series_id);
    assert(known.with_series(req.series_id).serieses =~= known.serieses);
    if req.wait_free {
        let order = choose|order: Seq<i64>|
            is_listing(order, known.series(req.series_id).tickets.dom()) && tries_wait_free(
                known,
                req,
                attempt,
                #[trigger] known.series(req.series_id).wait_free_ready(order, now),
                out,
            );
        lemma_wait_free_keeps_ledgers(
            known,
            req,
            attempt,
            known.series(req.series_id).wait_free_ready(order, now),
            out,
        );
    } else {
        lemma_permanent_choice(states, req, attempt, out);
    }
}

/// The store after `calls` calls of the finder for `series`, one after the
/// other, with no broadcast between them.
pub open spec fn entered_times(states: StatesView, series: i64, calls: nat) -> StatesView
    decreases calls,
{
    if calls == 0 {
        states
    } else {
        entered(entered_times(states, series, (calls - 1) as nat), series)
    }
}

/// The store after `ticks` ticks of the cooldown window of `series`.
pub open spec fn ticked_times(states: StatesView, series: i64, ticks: nat) -> StatesView
    decreases ticks,
{
    if ticks == 0 {
        states
    } else {
        ticked(ticked_times(states, series, (ticks - 1) as nat), series).0
    }
}

/// The callers of a series that was not registered wait together: after
/// `calls` calls the registration counts each of them.
pub proof fn lemma_callers_wait_together(states: StatesView, series: i64, calls: nat)
    requires
        !states.finders.contains_key(series),
        0 < calls <= u64::MAX,
    ensures
        entered_times(states, series, calls).finders.get(series) == Some(
            Registration { waiting: calls as u64, ..fresh() },
        ),
        entered_times(states, series, calls).accounts == states.accounts,
        entered_times(states, series, calls).serieses == states.serieses,
    decreases calls,
{
    if calls > 1 {
        lemma_callers_wait_together(states, series, (calls - 1) as nat);
    } else {
        assert(entered_times(states, series, 0) == states);
    }
}

/// Single flight: of the calls for a series that was not registered, made
/// one after the other while its scan runs, the first starts the scan and
/// every other one joins it.
pub proof fn lemma_single_flight(
    states: StatesView,
    series: i64,
    before: nat,
    checked: Set<i64>,
    single: i64,
    entry: EntryView,
)
    requires
        !states.finders.contains_key(series),
        before < u64::MAX,
        enters(entered_times(states, series, before), checked, series, single, entry),
    ensures
        before == 0 ==> entry is Started,
        before > 0 ==> entry == EntryView::Joined,
{
    if before > 0 {
        lemma_callers_wait_together(states, series, before);
    }
}

/// Single flight: the callers that wait for a scan observe one outcome.
/// The answer that the scan broadcasts, be it the positive one or the
/// first of the cooldown window, goes to every caller that has called
/// since the scan started.
pub proof fn lemma_callers_observe_one_outcome(
    states: StatesView,
    series: i64,
    calls: nat,
    permanent: i64,
)
    requires
        !states.finders.contains_key(series),
        0 < calls <= u64::MAX,
    ensures
        permanent > 0 ==> announced(entered_times(states, series, calls), series, permanent)
            == Some(Broadcast { value: true, receivers: calls as u64 }),
        ticked(finished(entered_times(states, series, calls), series), series).1
            == Tick::Answered(Broadcast { value: false, receivers: calls as u64 }),
{
    lemma_callers_wait_together(states, series, calls);
}

/// A scan refreshes the ledger of each account that it records, whether
/// or not it has given its answer: the ledger is what follows from the
/// report, and no other ledger changes.
pub proof fn lemma_record_refreshes(
    states: StatesView,
    scan: ScanView,
    status: TicketStatusView,
    now: i64,
    series: i64,
    account: i64,
)
    requires
        scan.at < scan.targets.len(),
        wait_free_at(status.charged_at) is Some,
    ensures
        ledger_of(
            recorded(states, scan, status, now).0,
            scan.series_id,
            scan.targets[scan.at as int],
        ) == Some(
            ledger(
                status.rental_count + status.own_count,
                wait_free_at(status.charged_at)->0,
                now,
            ),
        ),
        series != scan.series_id || account != scan.targets[scan.at as int] ==> ledger_of(
            recorded(states, scan, status, now).0,
            series,
            account,
        ) == ledger_of(states, series, account),
{
}

/// The positive answer of a scan is true of the store: the account whose
/// record gave it has a counted redemption, which the second attempt of a
/// request finds.
pub proof fn lemma_positive_answer_is_found(
    states: StatesView,
    scan: ScanView,
    status: TicketStatusView,
    now: i64,
)
    requires
        recorded(states, scan, status, now).1 matches Ok(Some(_)),
    ensures
        recorded(states, scan, status, now).1 matches Ok(Some(answer)) && answer.value,
        scan.at < scan.targets.len(),
        recorded(states, scan, status, now).0.series(scan.series_id).has_permanent(
            scan.targets[scan.at as int],
        ),
{
}

/// A registration does not outlive its scan: after a scan has failed the
/// series is registered no more, every account, series and other
/// registration is as it was, and the next call starts a scan.
pub proof fn lemma_failed_scan_frees_the_series(
    states: StatesView,
    series: i64,
    checked: Set<i64>,
    single: i64,
    entry: EntryView,
)
    requires
        enters(failed(states, series), checked, series, single, entry),
    ensures
        !failed(states, series).finders.contains_key(series),
        failed(states, series).accounts == states.accounts,
        failed(states, series).serieses == states.serieses,
        forall|other: i64|
            other != series ==> failed(states, series).finders.get(other) == states.finders.get(
                other,
            ),
        entry is Started,
{
}

/// While its cooldown window is open a series stays registered, and the
/// window counts its ticks.
pub proof fn lemma_window_stays_open(states: StatesView, series: i64, ticks: nat)
    requires
        states.finders.get(series) matches Some(held) && held.phase == Phase::Cooldown
            && held.ticks == 0,
        ticks < COOLDOWN_TICKS,
    ensures
        ticked_times(states, series, ticks).finders.get(series) matches Some(held) && held.phase
            == Phase::Cooldown && held.ticks == ticks,
        ticked_times(states, series, ticks).accounts == states.accounts,
        ticked_times(states, series, ticks).serieses == states.serieses,
    decreases ticks,
{
    if ticks > 0 {
        lemma_window_stays_open(states, series, (ticks - 1) as nat);
    }
}

/// Cooldown monotonicity: a call that is made when the cooldown window of
/// a series has just opened starts no scan, and the next tick answers it
/// `false`. After the last tick of the window the series is registered no
/// more, and the next call starts a scan.
pub proof fn lemma_cooldown_window(
    states: StatesView,
    series: i64,
    checked: Set<i64>,
    single: i64,
    entry: EntryView,
    later: EntryView,
)
    requires
        states.finders.get(series) matches Some(held) && held.phase == Phase::Cooldown
            && held.ticks == 0,
        enters(states, checked, series, single, entry),
        enters(ticked_times(states, series, COOLDOWN_TICKS as nat), checked, series, single, later),
    ensures
        entry == EntryView::Joined,
        ticked(entered(states, series), series).1 matches Tick::Answered(answer) && !answer.value
            && answer.receivers >= 1,
        !ticked_times(states, series, COOLDOWN_TICKS as nat).finders.contains_key(series),
        later is Started,
{
    lemma_window_stays_open(states, series, (COOLDOWN_TICKS - 1) as nat);
    assert(ticked_times(states, series, COOLDOWN_TICKS as nat) == ticked(
        ticked_times(states, series, (COOLDOWN_TICKS - 1) as nat),
        series,
    ).0);
}

} // verus!

