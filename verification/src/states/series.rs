//! A series: its cached items and the ticket ledger of each account.

use crate::error::{Error, ErrorKind, ErrorView};
use crate::number::{decimal_text, push_decimal};
use crate::states::tables::{
    get_single, get_ticket, new_singles, new_tickets, put_single, put_ticket, single_entries,
    single_keys, ticket_entries, ticket_keys,
};
use dashmap::DashMap;
use vstd::prelude::*;
use vstd::string::StringExecFns;

verus! {

/// The `wait_free` of a ticket for which no free redemption is pending.
pub const NONE_PENDING: i64 = 0x7fff_ffff_ffff_ffff;

/// What one account holds for one series.
#[derive(Clone, Copy, Debug, PartialEq, Eq, Structural)]
pub struct Ticket {
    /// The time from which a free, time-gated redemption can be had;
    /// [`NONE_PENDING`] where none is pending, and 0 where nothing is known.
    pub wait_free: i64,
    /// The owned and rented redemptions that can be had now.
    pub permanent: i64,
}

impl Ticket {
    /// The ledger invariant: a count is not negative.
    pub open spec fn valid(self) -> bool {
        self.permanent >= 0
    }

    /// A free redemption fell due before `now`.
    pub open spec fn wait_free_due(self, now: i64) -> bool {
        0 < self.wait_free < now
    }

    /// A counted redemption can be had.
    pub open spec fn has_permanent(self) -> bool {
        self.permanent > 0
    }
}

impl Default for Ticket {
    fn default() -> (ticket: Ticket)
        ensures
            ticket == (Ticket { wait_free: 0, permanent: 0 }),
    {
        Ticket { wait_free: 0, permanent: 0 }
    }
}

/// A pending free redemption is never due: no time lies behind
/// [`NONE_PENDING`].
pub proof fn lemma_none_pending_never_due(ticket: Ticket, now: i64)
    requires
        ticket.wait_free == NONE_PENDING,
    ensures
        !ticket.wait_free_due(now),
{
}

/// One page of an item that is shown as images.
#[derive(Clone, Debug, PartialEq, Eq)]
pub struct Image {
    pub size: i64,
    pub kid: String,
}

/// One chapter of an item that is shown as text.
#[derive(Clone, Debug, PartialEq, Eq)]
pub struct KHTML {
    pub chapter_id: i64,
    pub content_id: i64,
    pub kid: String,
}

/// The pages or chapters of an item.
#[derive(Clone, Debug, PartialEq, Eq)]
pub enum Viewer {
    ImageList(Vec<Image>),
    KakaoHTML(Vec<KHTML>),
}

/// A single item of a series as it is cached and handed out.
#[derive(Clone, Debug, PartialEq, Eq)]
pub struct Single {
    pub title: String,
    pub viewer: Viewer,
    pub prev: Option<i64>,
    pub next: Option<i64>,
}

pub struct ImageView {
    pub size: i64,
    pub kid: Seq<char>,
}

pub struct KhtmlView {
    pub chapter_id: i64,
    pub content_id: i64,
    pub kid: Seq<char>,
}

pub enum ViewerView {
    ImageList(Seq<ImageView>),
    KakaoHTML(Seq<KhtmlView>),
}

pub struct SingleView {
    pub title: Seq<char>,
    pub viewer: ViewerView,
    pub prev: Option<i64>,
    pub next: Option<i64>,
}

impl View for Image {
    type V = ImageView;

    open spec fn view(&self) -> ImageView {
        ImageView { size: self.size, kid: self.kid@ }
    }
}

impl DeepView for Image {
    type V = ImageView;

    open spec fn deep_view(&self) -> ImageView {
        self@
    }
}

impl View for KHTML {
    type V = KhtmlView;

    open spec fn view(&self) -> KhtmlView {
        KhtmlView { chapter_id: self.chapter_id, content_id: self.content_id, kid: self.kid@ }
    }
}

impl DeepView for KHTML {
    type V = KhtmlView;

    open spec fn deep_view(&self) -> KhtmlView {
        self@
    }
}

impl View for Viewer {
    type V = ViewerView;

    open spec fn view(&self) -> ViewerView {
        match self {
            Viewer::ImageList(images) => ViewerView::ImageList(images.deep_view()),
            Viewer::KakaoHTML(chapters) => ViewerView::KakaoHTML(chapters.deep_view()),
        }
    }
}

impl View for Single {
    type V = SingleView;

    open spec fn view(&self) -> SingleView {
        SingleView { title: self.title@, viewer: self.viewer@, prev: self.prev, next: self.next }
    }
}

/// The cached items and the tickets of one series.
pub struct Series {
    single_map: DashMap<i64, Single>,
    ticket_map: DashMap<i64, Ticket>,
}

/// A [`Series`] as a value of the specification.
pub struct SeriesView {
    /// The cached items, by item id.
    pub singles: Map<i64, SingleView>,
    /// The ledger of each account that has one, by account id.
    pub tickets: Map<i64, Ticket>,
}

impl SeriesView {
    /// A series of which nothing is known.
    pub open spec fn empty() -> SeriesView {
        SeriesView { singles: Map::empty(), tickets: Map::empty() }
    }

    /// Each ledger keeps its invariant.
    pub open spec fn valid(self) -> bool {
        forall|account: i64| #[trigger]
            self.tickets.contains_key(account) ==> self.tickets[account].valid()
    }
}

impl View for Series {
    type V = SeriesView;

    closed spec fn view(&self) -> SeriesView {
        SeriesView {
            singles: single_entries(self.single_map).map_values(|single: Single| single@),
            tickets: ticket_entries(self.ticket_map),
        }
    }
}

/// `order` names each member of `of` once.
pub open spec fn is_listing(order: Seq<i64>, of: Set<i64>) -> bool {
    &&& order.no_duplicates()
    &&& order.to_set() == of
}

/// The failure to find the ticket slot of the account `key`.
pub open spec fn ticket_missing(key: i64) -> ErrorView {
    ErrorView {
        kind: ErrorKind::NotFound,
        message: "account "@ + decimal_text(key as int) + " does not exist for this series"@,
    }
}

impl SeriesView {
    /// The account `account` has a ticket slot with a free redemption due.
    pub open spec fn wait_free_due(self, account: i64, now: i64) -> bool {
        self.tickets.contains_key(account) && self.tickets[account].wait_free_due(now)
    }

    /// The account `account` has a ticket slot with a counted redemption.
    pub open spec fn has_permanent(self, account: i64) -> bool {
        self.tickets.contains_key(account) && self.tickets[account].has_permanent()
    }

    /// The accounts of `order` with a free redemption due, in that order.
    pub open spec fn wait_free_ready(self, order: Seq<i64>, now: i64) -> Seq<i64> {
        order.filter(|account: i64| self.wait_free_due(account, now))
    }

    /// The accounts of `order` with a counted redemption, in that order.
    pub open spec fn permanent_ready(self, order: Seq<i64>) -> Seq<i64> {
        order.filter(|account: i64| self.has_permanent(account))
    }
}

impl Default for Series {
    fn default() -> (series: Series)
        ensures
            series@ == SeriesView::empty(),
    {
        Series::new()
    }
}

impl Series {
    /// A series of which nothing is known.
    pub fn new() -> (series: Series)
        ensures
            series@ == SeriesView::empty(),
    {
        let series = Series { single_map: new_singles(), ticket_map: new_tickets() };
        assert(series@.singles =~= Map::<i64, SingleView>::empty());
        assert(series@.tickets =~= Map::<i64, Ticket>::empty());
        series
    }

    /// The ticket slot of the account `key`.
    pub fn get_tkt(&self, key: i64) -> (ticket: Result<Ticket, Error>)
        ensures
            match self@.tickets.get(key) {
                Some(held) => ticket == Ok::<Ticket, Error>(held),
                None => ticket matches Err(error) && error@ == ticket_missing(key),
            },
    {
        match get_ticket(&self.ticket_map, key) {
            Some(held) => Ok(held),
            None => {
                let mut message = String::from_str("account ");
                push_decimal(&mut message, key);
                message.append(" does not exist for this series");
                Err(Error::new(ErrorKind::NotFound, message))
            },
        }
    }

    /// Whether the account `key` has a ticket slot.
    pub fn has_tkt(&self, key: i64) -> (held: bool)
        ensures
            held == self@.tickets.contains_key(key),
    {
        get_ticket(&self.ticket_map, key).is_some()
    }

    /// Writes the ticket slot of the account `key`.
    pub fn set_tkt(&mut self, key: i64, ticket: Ticket)
        ensures
            final(self)@.tickets == old(self)@.tickets.insert(key, ticket),
            final(self)@.singles == old(self)@.singles,
    {
        put_ticket(&mut self.ticket_map, key, ticket);
    }

    /// The accounts that have a ticket slot, in the order in which the
    /// table is walked.
    pub fn ticket_ids(&self) -> (ids: Vec<i64>)
        ensures
            is_listing(ids@, self@.tickets.dom()),
    {
        ticket_keys(&self.ticket_map)
    }

    /// The accounts of `order` with a free redemption due at `now`.
    pub fn wait_free_ready(&self, order: &Vec<i64>, now: i64) -> (ready: Vec<i64>)
        ensures
            ready@ == self@.wait_free_ready(order@, now),
    {
        let ghost due = |account: i64| self@.wait_free_due(account, now);
        let mut ready: Vec<i64> = Vec::new();
        let mut at: usize = 0;
        proof {
            reveal(Seq::filter);
            assert(order@.take(0) =~= Seq::<i64>::empty());
        }
        while at < order.len()
            invariant
                at <= order.len(),
                due == |account: i64| self@.wait_free_due(account, now),
                ready@ == order@.take(at as int).filter(due),
            decreases order.len() - at,
        {
            let account = order[at];
            let chosen = match get_ticket(&self.ticket_map, account) {
                Some(ticket) => 0 < ticket.wait_free && ticket.wait_free < now,
                None => false,
            };
            proof {
                reveal(Seq::filter);
                assert(order@.take(at + 1).drop_last() =~= order@.take(at as int));
                assert(chosen == due(account));
            }
            if chosen {
                ready.push(account);
            }
            at += 1;
        }
        assert(order@.take(order.len() as int) =~= order@);
        ready
    }

    /// The accounts of `order` with a counted redemption.
    pub fn permanent_ready(&self, order: &Vec<i64>) -> (ready: Vec<i64>)
        ensures
            ready@ == self@.permanent_ready(order@),
    {
        let ghost held = |account: i64| self@.has_permanent(account);
        let mut ready: Vec<i64> = Vec::new();
        let mut at: usize = 0;
        proof {
            reveal(Seq::filter);
            assert(order@.take(0) =~= Seq::<i64>::empty());
        }
        while at < order.len()
            invariant
                at <= order.len(),
                held == |account: i64| self@.has_permanent(account),
                ready@ == order@.take(at as int).filter(held),
            decreases order.len() - at,
        {
            let account = order[at];
            let chosen = match get_ticket(&self.ticket_map, account) {
                Some(ticket) => ticket.permanent > 0,
                None => false,
            };
            proof {
                reveal(Seq::filter);
                assert(order@.take(at + 1).drop_last() =~= order@.take(at as int));
                assert(chosen == held(account));
            }
            if chosen {
                ready.push(account);
            }
            at += 1;
        }
        assert(order@.take(order.len() as int) =~= order@);
        ready
    }

    /// The cached item `id`.
    pub fn get_single(&self, id: i64) -> (found: Option<Single>)
        ensures
            match self@.singles.get(id) {
                Some(cached) => found matches Some(single) && single@ == cached,
                None => found is None,
            },
    {
        get_single(&self.single_map, id)
    }

    /// Caches `single` as the item `id`; what was cached under `id` before
    /// is replaced.
    pub fn put_single(&mut self, id: i64, single: &Single)
        ensures
            final(self)@.singles == old(self)@.singles.insert(id, single@),
            final(self)@.tickets == old(self)@.tickets,
    {
        put_single(&mut self.single_map, id, single);
        assert(final(self)@.singles =~= old(self)@.singles.insert(id, single@));
    }

    /// The items that are cached, in the order in which the table is walked.
    pub fn single_ids(&self) -> (ids: Vec<i64>)
        ensures
            is_listing(ids@, self@.singles.dom()),
    {
        let ids = single_keys(&self.single_map);
        assert(self@.singles.dom() =~= single_entries(self.single_map).dom());
        ids
    }
}

} // verus!
