//! The coordinator of one content request: from the cache, over the free
//! path, to the redemption of a ticket in at most two attempts.
//!
//! A request is a chain of steps. Each step either ends the request, with
//! a reply or a failure, or names what is to be asked of the remote side
//! or of the finder; the answer is handed to the step's own method, which
//! gives the next step. Between two steps nothing of the store is held.

use crate::endpoints::ledger::{
    after_use_ticket, compute_ledger, ledger, read_wait_free, use_ticket, wait_free_at,
    TicketStatus, TicketStatusView,
};
use crate::endpoints::viewer::{single_from_viewer, single_of, ViewerInfo, ViewerInfoView};
use crate::error::{Error, ErrorKind, ErrorView};
use crate::states::series::{is_listing, ticket_missing, SeriesView, Single, SingleView, Ticket};
use crate::util::bad_timestamp;
use crate::states::{
    account_missing, cached, lemma_with_series_valid, lemma_written_valid, written, States,
    StatesView,
};
use std::collections::HashSet;
use vstd::prelude::*;
use crate::text::same;
use vstd::string::StringExecFns;

verus! {

/// What a content request asks for.
#[derive(Clone, Copy, Debug, PartialEq, Eq, Structural)]
pub struct SingleReq {
    pub series_id: i64,
    pub single_id: i64,
    /// A free, time-gated redemption may be spent on the item.
    pub wait_free: bool,
    /// The item is free: it is fetched for nobody, past all tickets.
    pub free: bool,
}

/// What a content request is answered with.
#[derive(Clone, Debug, PartialEq, Eq)]
pub struct SingleRes {
    pub meta: Single,
}

/// The ticket types that the remote side offers for a redemption.
#[derive(Clone, Debug, PartialEq, Eq)]
pub struct Offer {
    pub own_type: Option<String>,
    pub rental_type: Option<String>,
}

/// What the remote side answers when asked whether an item can be
/// unlocked for an account.
#[derive(Clone, Debug, PartialEq, Eq)]
pub struct Readiness {
    /// How the redemption is to be completed.
    pub process: String,
    pub available: Option<Offer>,
    /// The tickets of the account, as they were before any redemption.
    pub status: TicketStatus,
}

/// The first or the second attempt of a request.
#[derive(Clone, Copy, Debug, PartialEq, Eq, Structural)]
pub enum Attempt {
    First,
    Second,
}

/// What a redemption is made for.
#[derive(Clone, Debug, PartialEq, Eq)]
pub enum Plan {
    /// A free redemption; `rest` are the accounts to try after this one.
    WaitFree { rest: Vec<i64> },
    /// A counted redemption, of an account with the tickets `status`.
    Counted { status: TicketStatus },
}

/// A step that fetches the item from the remote side: for the account
/// `account_id`, or for nobody.
#[derive(Debug, PartialEq, Eq)]
pub struct Fetch {
    pub req: SingleReq,
    pub account_id: Option<i64>,
    /// The accounts whose ledgers this request has refreshed.
    pub checked: HashSet<i64>,
}

/// A step that redeems a ticket of the type `ticket_type` for the account
/// `account_id`.
#[derive(Clone, Debug, PartialEq, Eq)]
pub struct Redeem {
    pub req: SingleReq,
    pub attempt: Attempt,
    pub account_id: i64,
    pub ticket_type: String,
    pub plan: Plan,
}

/// A step that asks whether the item can be unlocked for the account
/// `account_id`.
#[derive(Clone, Copy, Debug, PartialEq, Eq, Structural)]
pub struct Ready {
    pub req: SingleReq,
    pub attempt: Attempt,
    pub account_id: i64,
}

/// A step that asks the finder whether any account has an entitlement.
#[derive(Debug, PartialEq, Eq)]
pub struct Find {
    pub req: SingleReq,
    /// The accounts that the finder need not scan.
    pub checked: HashSet<i64>,
}

/// What a request does next.
#[derive(Debug, PartialEq, Eq)]
pub enum Step {
    /// The request is answered.
    Reply(SingleRes),
    /// The request has failed.
    Fail(Error),
    Fetch(Fetch),
    Redeem(Redeem),
    Ready(Ready),
    Find(Find),
}

pub struct OfferView {
    pub own_type: Option<Seq<char>>,
    pub rental_type: Option<Seq<char>>,
}

pub struct ReadinessView {
    pub process: Seq<char>,
    pub available: Option<OfferView>,
    pub status: TicketStatusView,
}

pub enum PlanView {
    WaitFree { rest: Seq<i64> },
    Counted { status: TicketStatusView },
}

pub struct FetchView {
    pub req: SingleReq,
    pub account_id: Option<i64>,
    pub checked: Set<i64>,
}

pub struct RedeemView {
    pub req: SingleReq,
    pub attempt: Attempt,
    pub account_id: i64,
    pub ticket_type: Seq<char>,
    pub plan: PlanView,
}

pub struct FindView {
    pub req: SingleReq,
    pub checked: Set<i64>,
}

pub enum StepView {
    Reply(SingleView),
    Fail(ErrorView),
    Fetch(FetchView),
    Redeem(RedeemView),
    Ready(Ready),
    Find(FindView),
}

impl View for Offer {
    type V = OfferView;

    open spec fn view(&self) -> OfferView {
        OfferView {
            own_type: self.own_type.deep_view(),
            rental_type: self.rental_type.deep_view(),
        }
    }
}

impl View for Readiness {
    type V = ReadinessView;

    open spec fn view(&self) -> ReadinessView {
        ReadinessView {
            process: self.process@,
            available: match self.available {
                Some(offer) => Some(offer@),
                None => None,
            },
            status: self.status@,
        }
    }
}

impl View for Plan {
    type V = PlanView;

    open spec fn view(&self) -> PlanView {
        match self {
            Plan::WaitFree { rest } => PlanView::WaitFree { rest: rest@ },
            Plan::Counted { status } => PlanView::Counted { status: status@ },
        }
    }
}

impl View for Fetch {
    type V = FetchView;

    open spec fn view(&self) -> FetchView {
        FetchView { req: self.req, account_id: self.account_id, checked: self.checked@ }
    }
}

impl View for Redeem {
    type V = RedeemView;

    open spec fn view(&self) -> RedeemView {
        RedeemView {
            req: self.req,
            attempt: self.attempt,
            account_id: self.account_id,
            ticket_type: self.ticket_type@,
            plan: self.plan@,
        }
    }
}

impl View for Find {
    type V = FindView;

    open spec fn view(&self) -> FindView {
        FindView { req: self.req, checked: self.checked@ }
    }
}

impl View for Step {
    type V = StepView;

    open spec fn view(&self) -> StepView {
        match self {
            Step::Reply(reply) => StepView::Reply(reply.meta@),
            Step::Fail(error) => StepView::Fail(error@),
            Step::Fetch(fetch) => StepView::Fetch(fetch@),
            Step::Redeem(redeem) => StepView::Redeem(redeem@),
            Step::Ready(ready) => StepView::Ready(*ready),
            Step::Find(find) => StepView::Find(find@),
        }
    }
}

/// The store and the next step that a step of a request leaves.
pub struct Outcome {
    pub states: StatesView,
    pub step: StepView,
}

/// How the remote side says a redemption is to be completed.
#[derive(Clone, Copy, Debug, PartialEq, Eq, Structural)]
pub enum Process {
    /// With a rented ticket.
    Rental,
    /// With an owned ticket.
    Own,
    /// It is completed already.
    Confirmed,
    /// In a way that is not known.
    Unknown,
}

/// The process that the remote side names with `text`.
pub open spec fn process_of(text: Seq<char>) -> Process {
    if text == "ForceUseRentalTicket"@ || text == "AskTicketChoice"@ {
        Process::Rental
    } else if text == "ForceUseOwnTicket"@ {
        Process::Own
    } else if text == "AlreadyConfirmed"@ {
        Process::Confirmed
    } else {
        Process::Unknown
    }
}

/// The ticket type that is to be redeemed on the answer `readiness`:
/// the offered type of the kind that the process asks for, where the
/// process asks for one and the offer holds it.
pub open spec fn chosen_type(readiness: ReadinessView) -> Option<Seq<char>> {
    match process_of(readiness.process) {
        Process::Rental => match readiness.available {
            Some(offer) => offer.rental_type,
            None => None,
        },
        Process::Own => match readiness.available {
            Some(offer) => offer.own_type,
            None => None,
        },
        _ => None,
    }
}

/// The ticket type of a free, time-gated redemption.
pub open spec fn wait_free_type() -> Seq<char> {
    "RentWaitFree"@
}

/// The failure of a request while the finder is in its cooldown window.
pub open spec fn cooldown() -> ErrorView {
    ErrorView { kind: ErrorKind::Cooldown, message: "ticket finder job is on a cooldown"@ }
}

/// The failure of a request whose second attempt found no entitlement.
pub open spec fn exhausted() -> ErrorView {
    ErrorView { kind: ErrorKind::Exhausted, message: "not enough tickets"@ }
}

/// The failure of a request on a process that is not known.
pub open spec fn unknown_process(process: Seq<char>) -> ErrorView {
    ErrorView {
        kind: ErrorKind::UnknownProcess,
        message: "unknown process: \""@ + process + "\""@,
    }
}

/// The request fails with `error`, and the store stays as it is.
pub open spec fn fail(states: StatesView, error: ErrorView) -> Outcome {
    Outcome { states, step: StepView::Fail(error) }
}

/// The counted part of an attempt. The first account of `order` that has
/// a counted redemption is asked about; it must be an account of the pool.
/// Where no account has one, the first attempt turns to the finder and the
/// second fails.
pub open spec fn try_permanent(
    states: StatesView,
    req: SingleReq,
    attempt: Attempt,
    order: Seq<i64>,
) -> Outcome {
    let ready = states.series(req.series_id).permanent_ready(order);
    if ready.len() > 0 {
        if states.accounts.contains_key(ready[0]) {
            Outcome { states, step: StepView::Ready(Ready { req, attempt, account_id: ready[0] }) }
        } else {
            fail(states, account_missing(ready[0]))
        }
    } else {
        match attempt {
            Attempt::First => Outcome {
                states,
                step: StepView::Find(FindView { req, checked: Set::empty() }),
            },
            Attempt::Second => fail(states, exhausted()),
        }
    }
}

/// `out` is a counted part of an attempt: the ticket slots of the series
/// are walked in some order, of which nothing is known.
pub open spec fn tries_permanent(
    states: StatesView,
    req: SingleReq,
    attempt: Attempt,
    out: Outcome,
) -> bool {
    let known = states.with_series(req.series_id);
    exists|order: Seq<i64>|
        is_listing(order, known.series(req.series_id).tickets.dom())
            && out == #[trigger] try_permanent(known, req, attempt, order)
}

/// `out` is a free part of an attempt, with the accounts `queue` still to
/// try. The first of them that is an account of the pool redeems; where
/// there is none, the counted part follows.
pub open spec fn tries_wait_free(
    states: StatesView,
    req: SingleReq,
    attempt: Attempt,
    queue: Seq<i64>,
    out: Outcome,
) -> bool
    decreases queue.len(),
{
    if queue.len() == 0 {
        tries_permanent(states, req, attempt, out)
    } else if states.accounts.contains_key(queue[0]) {
        out == (Outcome {
            states,
            step: StepView::Redeem(
                RedeemView {
                    req,
                    attempt,
                    account_id: queue[0],
                    ticket_type: wait_free_type(),
                    plan: PlanView::WaitFree { rest: queue.drop_first() },
                },
            ),
        })
    } else {
        tries_wait_free(states, req, attempt, queue.drop_first(), out)
    }
}

/// `out` is an attempt at `now`: the free part where the request allows
/// it, over the accounts with a free redemption due, in the order in which
/// the ticket slots are walked; and the counted part otherwise.
pub open spec fn attempts(
    states: StatesView,
    req: SingleReq,
    attempt: Attempt,
    now: i64,
    out: Outcome,
) -> bool {
    let known = states.with_series(req.series_id);
    let series = known.series(req.series_id);
    if req.wait_free {
        exists|order: Seq<i64>|
            is_listing(order, series.tickets.dom()) && tries_wait_free(
                known,
                req,
                attempt,
                #[trigger] series.wait_free_ready(order, now),
                out,
            )
    } else {
        tries_permanent(states, req, attempt, out)
    }
}

/// `out` is the start of a request: the cached item where there is one,
/// the free path where the request asks for it, and the first attempt
/// otherwise.
pub open spec fn begins(states: StatesView, req: SingleReq, now: i64, out: Outcome) -> bool {
    let known = states.with_series(req.series_id);
    match known.series(req.series_id).singles.get(req.single_id) {
        Some(single) => out == (Outcome { states: known, step: StepView::Reply(single) }),
        None => if req.free {
            out == (Outcome {
                states: known,
                step: StepView::Fetch(FetchView { req, account_id: None, checked: Set::empty() }),
            })
        } else {
            attempts(known, req, Attempt::First, now, out)
        },
    }
}

/// What follows the fetch of an item: the item is made, cached and
/// replied.
pub open spec fn fetched(
    states: StatesView,
    pending: FetchView,
    outcome: Result<ViewerInfoView, ErrorView>,
) -> Outcome {
    match outcome {
        Err(error) => fail(states, error),
        Ok(info) => match single_of(info) {
            Err(error) => fail(states, error),
            Ok(single) => Outcome {
                states: cached(states, pending.req.series_id, pending.req.single_id, single),
                step: StepView::Reply(single),
            },
        },
    }
}

/// The end of the counted part for `account`, whose tickets were `status`
/// before `spent` of them were redeemed: its ledger is refreshed, it is
/// marked as checked, and the item is fetched for it.
pub open spec fn settle(
    states: StatesView,
    req: SingleReq,
    account: i64,
    status: TicketStatusView,
    spent: bool,
    now: i64,
) -> Outcome {
    match wait_free_at(status.charged_at) {
        None => fail(states, bad_timestamp(status.charged_at->0)),
        Some(wait_free) => {
            let known = states.with_series(req.series_id);
            if !known.series(req.series_id).tickets.contains_key(account) {
                fail(known, ticket_missing(account))
            } else {
                let total = status.rental_count + status.own_count - (if spent {
                    1int
                } else {
                    0int
                });
                let after = written(known, req.series_id, account, ledger(total, wait_free, now));
                if after.accounts.contains_key(account) {
                    Outcome {
                        states: after,
                        step: StepView::Fetch(
                            FetchView { req, account_id: Some(account), checked: set![account] },
                        ),
                    }
                } else {
                    fail(after, account_missing(account))
                }
            }
        },
    }
}

/// What follows the answer to the question whether the item can be
/// unlocked: a redemption where the process asks for one and the offer
/// holds its type, the end of the counted part where no redemption is
/// needed, and a failure where the process is not known.
pub open spec fn answered(
    states: StatesView,
    pending: Ready,
    outcome: Result<ReadinessView, ErrorView>,
    now: i64,
) -> Outcome {
    match outcome {
        Err(error) => fail(states, error),
        Ok(readiness) => if process_of(readiness.process) is Unknown {
            fail(states, unknown_process(readiness.process))
        } else {
            match chosen_type(readiness) {
                Some(ticket_type) => if states.accounts.contains_key(pending.account_id) {
                    Outcome {
                        states,
                        step: StepView::Redeem(
                            RedeemView {
                                req: pending.req,
                                attempt: pending.attempt,
                                account_id: pending.account_id,
                                ticket_type,
                                plan: PlanView::Counted { status: readiness.status },
                            },
                        ),
                    }
                } else {
                    fail(states, account_missing(pending.account_id))
                },
                None => settle(
                    states,
                    pending.req,
                    pending.account_id,
                    readiness.status,
                    false,
                    now,
                ),
            }
        },
    }
}

/// `out` follows a redemption. A free one that went through fetches the
/// item; one that did not is passed over for the next account. A counted
/// one that went through ends the counted part; one that did not fails the
/// request.
pub open spec fn redeems(
    states: StatesView,
    pending: RedeemView,
    outcome: Result<Option<Seq<char>>, ErrorView>,
    now: i64,
    out: Outcome,
) -> bool {
    let req = pending.req;
    let account = pending.account_id;
    let applied = match outcome {
        Ok(charged_at) => after_use_ticket(states, account, req.series_id, charged_at),
        Err(error) => (states, Some(error)),
    };
    match pending.plan {
        PlanView::WaitFree { rest } => match applied.1 {
            None => out == (if applied.0.accounts.contains_key(account) {
                Outcome {
                    states: applied.0,
                    step: StepView::Fetch(
                        FetchView { req, account_id: Some(account), checked: Set::empty() },
                    ),
                }
            } else {
                fail(applied.0, account_missing(account))
            }),
            Some(_) => tries_wait_free(applied.0, req, pending.attempt, rest, out),
        },
        PlanView::Counted { status } => out == (match applied.1 {
            Some(error) => fail(applied.0, error),
            None => settle(applied.0, req, account, status, true, now),
        }),
    }
}

/// `out` follows the answer of the finder: the second attempt where an
/// entitlement was found, and a failure at once where none was.
pub open spec fn finds(
    states: StatesView,
    pending: FindView,
    outcome: Result<bool, ErrorView>,
    now: i64,
    out: Outcome,
) -> bool {
    match outcome {
        Err(error) => out == fail(states, error),
        Ok(false) => out == fail(states, cooldown()),
        Ok(true) => attempts(states, pending.req, Attempt::Second, now, out),
    }
}

/// What the fetch of an item ended in, as a value of the specification.
pub open spec fn viewer_outcome(outcome: Result<ViewerInfo, Error>) -> Result<
    ViewerInfoView,
    ErrorView,
> {
    match outcome {
        Ok(info) => Ok(info@),
        Err(error) => Err(error@),
    }
}

/// What the question about an unlock ended in, as a value of the
/// specification.
pub open spec fn readiness_outcome(outcome: Result<Readiness, Error>) -> Result<
    ReadinessView,
    ErrorView,
> {
    match outcome {
        Ok(readiness) => Ok(readiness@),
        Err(error) => Err(error@),
    }
}

/// What a redemption ended in, as a value of the specification.
pub open spec fn redeem_outcome(outcome: Result<Option<String>, Error>) -> Result<
    Option<Seq<char>>,
    ErrorView,
> {
    match outcome {
        Ok(charged_at) => Ok(charged_at.deep_view()),
        Err(error) => Err(error@),
    }
}

/// What the call of the finder ended in, as a value of the specification.
pub open spec fn find_outcome(outcome: Result<bool, Error>) -> Result<bool, ErrorView> {
    match outcome {
        Ok(any) => Ok(any),
        Err(error) => Err(error@),
    }
}

/// Names the process `text`.
pub fn classify(text: &str) -> (process: Process)
    ensures
        process == process_of(text@),
{
    if same(text, "ForceUseRentalTicket") || same(text, "AskTicketChoice") {
        Process::Rental
    } else if same(text, "ForceUseOwnTicket") {
        Process::Own
    } else if same(text, "AlreadyConfirmed") {
        Process::Confirmed
    } else {
        Process::Unknown
    }
}

fn tail_of(queue: &Vec<i64>, from: usize) -> (rest: Vec<i64>)
    requires
        from <= queue.len(),
    ensures
        rest@ == queue@.subrange(from as int, queue.len() as int),
{
    let mut rest: Vec<i64> = Vec::new();
    let mut at: usize = from;
    while at < queue.len()
        invariant
            from <= at <= queue.len(),
            rest@ == queue@.subrange(from as int, at as int),
        decreases queue.len() - at,
    {
        rest.push(queue[at]);
        assert(rest@ =~= queue@.subrange(from as int, at + 1));
        at += 1;
    }
    rest
}

fn permanent_step(states: &mut States, req: SingleReq, attempt: Attempt) -> (step: Step)
    ensures
        final(states)@ == old(states)@.with_series(req.series_id),
        tries_permanent(
            old(states)@,
            req,
            attempt,
            (Outcome { states: final(states)@, step: step@ }),
        ),
{
    let series = states.take_srs(req.series_id);
    let order = series.ticket_ids();
    let ready = series.permanent_ready(&order);
    states.put_srs(req.series_id, series);
    let ghost known = old(states)@.with_series(req.series_id);
    proof {
        assert(states@.serieses =~= known.serieses);
        assert(states@ == known);
        assert(is_listing(order@, known.series(req.series_id).tickets.dom()));
    }
    let step = if ready.len() > 0 {
        let account = ready[0];
        match states.get_acc(account) {
            Ok(_) => Step::Ready(Ready { req, attempt, account_id: account }),
            Err(error) => Step::Fail(error),
        }
    } else {
        match attempt {
            Attempt::First => Step::Find(Find { req, checked: HashSet::new() }),
            Attempt::Second => Step::Fail(Error::of(ErrorKind::Exhausted, "not enough tickets")),
        }
    };
    proof {
        assert((Outcome { states: states@, step: step@ }) == try_permanent(
            known,
            req,
            attempt,
            order@,
        ));
    }
    step
}

fn wait_free_step(
    states: &mut States,
    req: SingleReq,
    attempt: Attempt,
    queue: &Vec<i64>,
    from: usize,
) -> (step: Step)
    requires
        from <= queue.len(),
    ensures
        tries_wait_free(
            old(states)@,
            req,
            attempt,
            queue@.subrange(from as int, queue.len() as int),
            (Outcome { states: final(states)@, step: step@ }),
        ),
        final(states)@ == old(states)@ || final(states)@ == old(states)@.with_series(
            req.series_id,
        ),
    decreases queue.len() - from,
{
    let ghost rest = queue@.subrange(from as int, queue.len() as int);
    if from == queue.len() {
        permanent_step(states, req, attempt)
    } else {
        let account = queue[from];
        assert(rest[0] == account);
        assert(rest.drop_first() =~= queue@.subrange(from + 1, queue.len() as int));
        if states.has_acc(account) {
            Step::Redeem(
                Redeem {
                    req,
                    attempt,
                    account_id: account,
                    ticket_type: String::from_str("RentWaitFree"),
                    plan: Plan::WaitFree { rest: tail_of(queue, from + 1) },
                },
            )
        } else {
            wait_free_step(states, req, attempt, queue, from + 1)
        }
    }
}

fn attempt_step(states: &mut States, req: SingleReq, attempt: Attempt, now: i64) -> (step: Step)
    ensures
        attempts(old(states)@, req, attempt, now, (Outcome { states: final(states)@, step: step@ })),
        final(states)@ == old(states)@.with_series(req.series_id),
{
    if req.wait_free {
        let series = states.take_srs(req.series_id);
        let order = series.ticket_ids();
        let queue = series.wait_free_ready(&order, now);
        states.put_srs(req.series_id, series);
        let ghost known = old(states)@.with_series(req.series_id);
        proof {
            assert(states@.serieses =~= known.serieses);
            assert(states@ == known);
            assert(known.with_series(req.series_id).serieses =~= known.serieses);
            assert(queue@.subrange(0, queue.len() as int) =~= queue@);
            assert(is_listing(order@, known.series(req.series_id).tickets.dom()));
        }
        wait_free_step(states, req, attempt, &queue, 0)
    } else {
        permanent_step(states, req, attempt)
    }
}

fn settle_step(
    states: &mut States,
    req: SingleReq,
    account: i64,
    status: &TicketStatus,
    spent: bool,
    now: i64,
) -> (step: Step)
    ensures
        (Outcome { states: final(states)@, step: step@ }) == settle(
            old(states)@,
            req,
            account,
            status@,
            spent,
            now,
        ),
{
    let wait_free = match read_wait_free(&status.charged_at) {
        Ok(time) => time,
        Err(error) => {
            return Step::Fail(error);
        },
    };
    let ghost known = old(states)@.with_series(req.series_id);
    let mut series = states.take_srs(req.series_id);
    match series.get_tkt(account) {
        Err(error) => {
            states.put_srs(req.series_id, series);
            assert(states@.serieses =~= known.serieses);
            Step::Fail(error)
        },
        Ok(_) => {
            let ticket = compute_ledger(
                status.rental_count,
                status.own_count,
                spent,
                wait_free,
                now,
            );
            series.set_tkt(account, ticket);
            states.put_srs(req.series_id, series);
            assert(states@.serieses =~= written(known, req.series_id, account, ticket).serieses);
            match states.get_acc(account) {
                Ok(_) => {
                    let mut checked: HashSet<i64> = HashSet::new();
                    checked.insert(account);
                    assert(checked@ =~= set![account]);
                    Step::Fetch(Fetch { req, account_id: Some(account), checked })
                },
                Err(error) => Step::Fail(error),
            }
        },
    }
}

/// The store and the reply after the item `single_id` of the series
/// `series_id` was fetched as `info`: the item that is made of it is
/// cached and replied. Where none can be made, nothing changes.
pub fn get_single(
    states: &mut States,
    series_id: i64,
    single_id: i64,
    info: ViewerInfo,
) -> (reply: Result<SingleRes, Error>)
    ensures
        match single_of(info@) {
            Ok(single) => {
                &&& final(states)@ == cached(old(states)@, series_id, single_id, single)
                &&& reply matches Ok(res) && res.meta@ == single
            },
            Err(failure) => {
                &&& final(states)@ == old(states)@
                &&& reply matches Err(error) && error@ == failure
            },
        },
        old(states)@.valid() ==> final(states)@.valid(),
{
    let single = single_from_viewer(info)?;
    let mut series = states.take_srs(series_id);
    series.put_single(single_id, &single);
    states.put_srs(series_id, series);
    proof {
        let after = cached(old(states)@, series_id, single_id, single@);
        assert(states@.serieses =~= after.serieses);
        if old(states)@.valid() {
            assert forall|key: i64| #[trigger]
                states@.serieses.contains_key(key) implies states@.serieses[key].valid() by {
                if key != series_id {
                    assert(old(states)@.serieses.contains_key(key));
                } else if old(states)@.serieses.contains_key(key) {
                }
            }
        }
    }
    Ok(SingleRes { meta: single })
}

/// Starts the request `req` at `now`.
pub fn single(states: &mut States, req: SingleReq, now: i64) -> (step: Step)
    ensures
        begins(old(states)@, req, now, (Outcome { states: final(states)@, step: step@ })),
        final(states)@ == old(states)@.with_series(req.series_id),
        old(states)@.valid() ==> final(states)@.valid(),
{
    let series = states.take_srs(req.series_id);
    let held = series.get_single(req.single_id);
    states.put_srs(req.series_id, series);
    let ghost known = old(states)@.with_series(req.series_id);
    proof {
        assert(states@.serieses =~= known.serieses);
        assert(states@ == known);
        assert(known.with_series(req.series_id).serieses =~= known.serieses);
        if old(states)@.valid() {
            lemma_with_series_valid(old(states)@, req.series_id);
        }
    }
    match held {
        Some(single) => Step::Reply(SingleRes { meta: single }),
        None => if req.free {
            Step::Fetch(Fetch { req, account_id: None, checked: HashSet::new() })
        } else {
            attempt_step(states, req, Attempt::First, now)
        },
    }
}

impl Fetch {
    /// What follows the fetch, which ended in `outcome`.
    pub fn fetched(self, states: &mut States, outcome: Result<ViewerInfo, Error>) -> (step: Step)
        ensures
            (Outcome { states: final(states)@, step: step@ }) == fetched(
                old(states)@,
                self@,
                viewer_outcome(outcome),
            ),
            old(states)@.valid() ==> final(states)@.valid(),
    {
        match outcome {
            Err(error) => Step::Fail(error),
            Ok(info) => match get_single(states, self.req.series_id, self.req.single_id, info) {
                Ok(reply) => Step::Reply(reply),
                Err(error) => Step::Fail(error),
            },
        }
    }
}

/// The end of the counted part leaves every invariant as it was.
pub proof fn lemma_settle_valid(
    states: StatesView,
    req: SingleReq,
    account: i64,
    status: TicketStatusView,
    spent: bool,
    now: i64,
)
    requires
        states.valid(),
    ensures
        settle(states, req, account, status, spent, now).states.valid(),
{
    lemma_with_series_valid(states, req.series_id);
    if let Some(wait_free) = wait_free_at(status.charged_at) {
        let known = states.with_series(req.series_id);
        let total = status.rental_count + status.own_count - (if spent {
            1int
        } else {
            0int
        });
        lemma_written_valid(known, req.series_id, account, ledger(total, wait_free, now));
        assert(written(known, req.series_id, account, ledger(total, wait_free, now)) == written(
            states,
            req.series_id,
            account,
            ledger(total, wait_free, now),
        )) by {
            assert(known.with_series(req.series_id) == known);
        }
    }
}

impl Ready {
    /// What follows the question, which ended in `outcome`, at `now`.
    pub fn answered(
        self,
        states: &mut States,
        outcome: Result<Readiness, Error>,
        now: i64,
    ) -> (step: Step)
        ensures
            (Outcome { states: final(states)@, step: step@ }) == answered(
                old(states)@,
                self,
                readiness_outcome(outcome),
                now,
            ),
            old(states)@.valid() ==> final(states)@.valid(),
    {
        let readiness = match outcome {
            Ok(readiness) => readiness,
            Err(error) => {
                return Step::Fail(error);
            },
        };
        let ghost view = readiness@;
        proof {
            if old(states)@.valid() {
                lemma_settle_valid(
                    old(states)@,
                    self.req,
                    self.account_id,
                    view.status,
                    false,
                    now,
                );
            }
        }
        let process = classify(readiness.process.as_str());
        let chosen = match process {
            Process::Unknown => {
                let mut message = String::from_str("unknown process: \"");
                message.append(readiness.process.as_str());
                message.append("\"");
                return Step::Fail(Error::new(ErrorKind::UnknownProcess, message));
            },
            Process::Confirmed => None,
            Process::Rental => match readiness.available {
                Some(offer) => offer.rental_type,
                None => None,
            },
            Process::Own => match readiness.available {
                Some(offer) => offer.own_type,
                None => None,
            },
        };
        assert(chosen.deep_view() == chosen_type(view));
        match chosen {
            Some(ticket_type) => match states.get_acc(self.account_id) {
                Ok(_) => Step::Redeem(
                    Redeem {
                        req: self.req,
                        attempt: self.attempt,
                        account_id: self.account_id,
                        ticket_type,
                        plan: Plan::Counted { status: readiness.status },
                    },
                ),
                Err(error) => Step::Fail(error),
            },
            None => settle_step(states, self.req, self.account_id, &readiness.status, false, now),
        }
    }
}

impl Redeem {
    /// What follows the redemption, which ended in `outcome`, at `now`.
    pub fn redeemed(
        self,
        states: &mut States,
        outcome: Result<Option<String>, Error>,
        now: i64,
    ) -> (step: Step)
        ensures
            redeems(
                old(states)@,
                self@,
                redeem_outcome(outcome),
                now,
                (Outcome { states: final(states)@, step: step@ }),
            ),
            old(states)@.valid() ==> final(states)@.valid(),
    {
        let req = self.req;
        let account = self.account_id;
        let applied = match outcome {
            Ok(charged_at) => use_ticket(states, account, req.series_id, &charged_at),
            Err(error) => Err(error),
        };
        let ghost middle = states@;
        proof {
            if middle.valid() {
                lemma_with_series_valid(middle, req.series_id);
            }
        }
        match self.plan {
            Plan::WaitFree { rest } => match applied {
                Ok(_) => match states.get_acc(account) {
                    Ok(_) => Step::Fetch(
                        Fetch { req, account_id: Some(account), checked: HashSet::new() },
                    ),
                    Err(error) => Step::Fail(error),
                },
                Err(_) => {
                    assert(rest@.subrange(0, rest.len() as int) =~= rest@);
                    wait_free_step(states, req, self.attempt, &rest, 0)
                },
            },
            Plan::Counted { status } => match applied {
                Err(error) => Step::Fail(error),
                Ok(_) => {
                    proof {
                        if middle.valid() {
                            lemma_settle_valid(middle, req, account, status@, true, now);
                        }
                    }
                    settle_step(states, req, account, &status, true, now)
                },
            },
        }
    }
}

impl Find {
    /// What follows the call of the finder, which ended in `outcome`, at
    /// `now`.
    pub fn found(self, states: &mut States, outcome: Result<bool, Error>, now: i64) -> (step: Step)
        ensures
            finds(
                old(states)@,
                self@,
                find_outcome(outcome),
                now,
                (Outcome { states: final(states)@, step: step@ }),
            ),
            old(states)@.valid() ==> final(states)@.valid(),
    {
        proof {
            if old(states)@.valid() {
                lemma_with_series_valid(old(states)@, self.req.series_id);
            }
        }
        match outcome {
            Err(error) => Step::Fail(error),
            Ok(false) => Step::Fail(
                Error::of(ErrorKind::Cooldown, "ticket finder job is on a cooldown"),
            ),
            Ok(true) => attempt_step(states, self.req, Attempt::Second, now),
        }
    }
}

} // verus!


