//! The store: the accounts of the pool, the series, and the registrations
//! of the finder.

pub mod account;
pub mod finder;
pub mod maintenance;
pub mod records;
pub mod series;
pub mod snapshot;
pub mod tables;
pub mod timers;
pub mod token;

use crate::error::{Error, ErrorKind, ErrorView};
use crate::states::account::{Account, AccountView};
use crate::states::finder::Registration;
use crate::states::series::{is_listing, Series, SeriesView, SingleView, Ticket};
use crate::states::tables::{
    account_entries, account_keys, drop_finder, finder_entries, get_account, get_finder,
    new_accounts, new_finders, new_serieses, put_account, put_finder, put_series, series_entries,
    series_keys, take_series,
};
use crate::number::{decimal_text, push_decimal};
use dashmap::DashMap;
use vstd::prelude::*;
use vstd::string::StringExecFns;

verus! {

/// Everything that the process keeps: one store, made at startup and
/// handed to each component that needs it.
pub struct States {
    accounts: DashMap<i64, Account>,
    serieses: DashMap<i64, Series>,
    find_map: DashMap<i64, Registration>,
}

/// [`States`] as a value of the specification.
pub struct StatesView {
    /// The accounts of the pool, by account id.
    pub accounts: Map<i64, AccountView>,
    /// The series that are known, by series id.
    pub serieses: Map<i64, SeriesView>,
    /// The series with a live scan or cooldown window, by series id.
    pub finders: Map<i64, Registration>,
}

impl StatesView {
    /// A store that holds nothing.
    pub open spec fn empty() -> StatesView {
        StatesView { accounts: Map::empty(), serieses: Map::empty(), finders: Map::empty() }
    }

    /// What is known of the series `key`: nothing, where it was never
    /// referred to.
    pub open spec fn series(self, key: i64) -> SeriesView {
        if self.serieses.contains_key(key) {
            self.serieses[key]
        } else {
            SeriesView::empty()
        }
    }

    /// The store after the first reference to the series `key`.
    pub open spec fn with_series(self, key: i64) -> StatesView {
        StatesView { serieses: self.serieses.insert(key, self.series(key)), ..self }
    }

    /// Every ledger and every registration keeps its invariant.
    pub open spec fn valid(self) -> bool {
        &&& forall|series: i64| #[trigger]
            self.serieses.contains_key(series) ==> self.serieses[series].valid()
        &&& forall|series: i64| #[trigger]
            self.finders.contains_key(series) ==> self.finders[series].valid()
    }
}

impl View for States {
    type V = StatesView;

    closed spec fn view(&self) -> StatesView {
        StatesView {
            accounts: account_entries(self.accounts).map_values(|account: Account| account@),
            serieses: series_entries(self.serieses).map_values(|series: Series| series@),
            finders: finder_entries(self.find_map),
        }
    }
}

/// The store with `single` cached as the item `id` of the series `series`.
pub open spec fn cached(states: StatesView, series: i64, id: i64, single: SingleView) -> StatesView {
    let known = states.with_series(series);
    let held = known.series(series);
    StatesView {
        serieses: known.serieses.insert(
            series,
            SeriesView { singles: held.singles.insert(id, single), ..held },
        ),
        ..known
    }
}

/// The store with `ticket` written to the slot of `account` in the series
/// `series`.
pub open spec fn written(
    states: StatesView,
    series: i64,
    account: i64,
    ticket: Ticket,
) -> StatesView {
    let known = states.with_series(series);
    let held = known.series(series);
    StatesView {
        serieses: known.serieses.insert(
            series,
            SeriesView { tickets: held.tickets.insert(account, ticket), ..held },
        ),
        ..known
    }
}

/// A series is created on first reference and is never evicted: after a
/// reference to the series `key` the store holds it, as it was held or as
/// one of which nothing is known, and holds every other series as before.
pub proof fn lemma_reference_creates_and_keeps(states: StatesView, key: i64)
    ensures
        states.with_series(key).serieses.dom() == states.serieses.dom().insert(key),
        states.with_series(key).serieses[key] == states.series(key),
        !states.serieses.contains_key(key) ==> states.with_series(key).serieses[key]
            == SeriesView::empty(),
        states.serieses.contains_key(key) ==> states.with_series(key) == states,
        forall|other: i64|
            other != key ==> states.with_series(key).serieses.get(other) == states.serieses.get(
                other,
            ),
        states.with_series(key).accounts == states.accounts,
        states.with_series(key).finders == states.finders,
{
    assert(states.with_series(key).serieses.dom() =~= states.serieses.dom().insert(key));
    if states.serieses.contains_key(key) {
        assert(states.with_series(key).serieses =~= states.serieses);
    }
}

/// The first reference to a series leaves every invariant as it was.
pub proof fn lemma_with_series_valid(states: StatesView, series: i64)
    requires
        states.valid(),
    ensures
        states.with_series(series).valid(),
        states.with_series(series).with_series(series) == states.with_series(series),
        states.with_series(series).series(series) == states.series(series),
{
    let known = states.with_series(series);
    assert(known.with_series(series).serieses =~= known.serieses);
    assert forall|key: i64| #[trigger]
        known.serieses.contains_key(key) implies known.serieses[key].valid() by {
        if key != series {
            assert(states.serieses.contains_key(key));
        }
    }
}

/// A ledger that keeps its invariant, written to a store that keeps its
/// invariants, leaves one that keeps them.
pub proof fn lemma_written_valid(states: StatesView, series: i64, account: i64, ticket: Ticket)
    requires
        states.valid(),
        ticket.valid(),
    ensures
        written(states, series, account, ticket).valid(),
{
    let after = written(states, series, account, ticket);
    assert forall|key: i64| #[trigger]
        after.serieses.contains_key(key) implies after.serieses[key].valid() by {
        if key != series {
            assert(states.serieses.contains_key(key));
        } else if states.serieses.contains_key(key) {
            assert(states.serieses[key].valid());
        }
    }
}

/// The failure to find the account `key`.
pub open spec fn account_missing(key: i64) -> ErrorView {
    ErrorView {
        kind: ErrorKind::NotFound,
        message: "account "@ + decimal_text(key as int) + " does not exist"@,
    }
}

impl States {
    /// A store that holds nothing.
    pub fn new() -> (states: States)
        ensures
            states@ == StatesView::empty(),
    {
        let states = States {
            accounts: new_accounts(),
            serieses: new_serieses(),
            find_map: new_finders(),
        };
        assert(states@.accounts =~= Map::<i64, AccountView>::empty());
        assert(states@.serieses =~= Map::<i64, SeriesView>::empty());
        assert(states@.finders =~= Map::<i64, Registration>::empty());
        states
    }

    /// The account `key`, copied out of its slot.
    pub fn get_acc(&self, key: i64) -> (account: Result<Account, Error>)
        ensures
            match self@.accounts.get(key) {
                Some(held) => account matches Ok(copy) && copy@ == held,
                None => account matches Err(error) && error@ == account_missing(key),
            },
    {
        match get_account(&self.accounts, key) {
            Some(held) => Ok(held),
            None => {
                let mut message = String::from_str("account ");
                push_decimal(&mut message, key);
                message.append(" does not exist");
                Err(Error::new(ErrorKind::NotFound, message))
            },
        }
    }

    /// Whether the pool has an account `key`.
    pub fn has_acc(&self, key: i64) -> (held: bool)
        ensures
            held == self@.accounts.contains_key(key),
    {
        get_account(&self.accounts, key).is_some()
    }

    /// Writes the slot of the account `key`.
    pub fn put_acc(&mut self, key: i64, account: &Account)
        ensures
            final(self)@ == (StatesView {
                accounts: old(self)@.accounts.insert(key, account@),
                ..old(self)@
            }),
    {
        put_account(&mut self.accounts, key, account);
        assert(final(self)@.accounts =~= old(self)@.accounts.insert(key, account@));
    }

    /// The accounts of the pool, in the order in which the table is walked.
    pub fn account_ids(&self) -> (ids: Vec<i64>)
        ensures
            is_listing(ids@, self@.accounts.dom()),
    {
        let ids = account_keys(&self.accounts);
        assert(self@.accounts.dom() =~= account_entries(self.accounts).dom());
        ids
    }

    /// Refers to the series `key`: a series that was never referred to is
    /// created as one of which nothing is known, and stays in the store. The
    /// result is a copy of what the slot holds; what is changed in it is
    /// written to the slot with [`States::put_srs`].
    pub fn get_srs(&mut self, key: i64) -> (series: Series)
        ensures
            series@ == old(self)@.series(key),
            final(self)@ == old(self)@.with_series(key),
    {
        let held = self.take_srs(key);
        let series = held.duplicate();
        self.put_srs(key, held);
        assert(final(self)@.serieses =~= old(self)@.with_series(key).serieses);
        series
    }

    /// Takes the series `key` out of the store, to be changed and handed
    /// back with [`States::put_srs`] before anything else is done. A series
    /// that was never referred to starts as one of which nothing is known.
    pub(crate) fn take_srs(&mut self, key: i64) -> (series: Series)
        ensures
            series@ == old(self)@.series(key),
            final(self)@ == (StatesView {
                serieses: old(self)@.serieses.remove(key),
                ..old(self)@
            }),
    {
        let held = take_series(&mut self.serieses, key);
        assert(final(self)@.serieses =~= old(self)@.serieses.remove(key));
        match held {
            Some(series) => series,
            None => Series::new(),
        }
    }

    /// Writes the slot of the series `key`.
    pub fn put_srs(&mut self, key: i64, series: Series)
        ensures
            final(self)@ == (StatesView {
                serieses: old(self)@.serieses.insert(key, series@),
                ..old(self)@
            }),
    {
        put_series(&mut self.serieses, key, series);
        assert(final(self)@.serieses =~= old(self)@.serieses.insert(key, series@));
    }

    /// The series that are known, in the order in which the table is walked.
    pub fn series_ids(&self) -> (ids: Vec<i64>)
        ensures
            is_listing(ids@, self@.serieses.dom()),
    {
        let ids = series_keys(&self.serieses);
        assert(self@.serieses.dom() =~= series_entries(self.serieses).dom());
        ids
    }

    /// The registration of the series `key` with the finder.
    pub fn registration(&self, key: i64) -> (held: Option<Registration>)
        ensures
            held == self@.finders.get(key),
    {
        get_finder(&self.find_map, key)
    }

    pub(crate) fn register(&mut self, key: i64, registration: Registration)
        ensures
            final(self)@ == (StatesView {
                finders: old(self)@.finders.insert(key, registration),
                ..old(self)@
            }),
    {
        put_finder(&mut self.find_map, key, registration);
    }

    pub(crate) fn deregister(&mut self, key: i64)
        ensures
            final(self)@ == (StatesView {
                finders: old(self)@.finders.remove(key),
                ..old(self)@
            }),
    {
        drop_finder(&mut self.find_map, key);
    }
}

} // verus!
