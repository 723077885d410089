//! The tables of the store. Each is a `DashMap` keyed by an id; what it
//! holds is named by a specification function, and every call into it goes
//! through one of the functions below, whose contracts are taken on trust.
//!
//! `DashMap` changes behind a shared reference. The functions that change a
//! table ask for an exclusive one, and the store hands its tables to nobody:
//! so between two calls a table holds what the last call left in it.

use crate::states::account::Account;
use crate::states::finder::Registration;
use crate::states::series::{Series, Single, Ticket};
use dashmap::DashMap;
use vstd::prelude::*;

verus! {

/// `dashmap::DashMap`: a value of it is carried through, and nothing of
/// it is seen but what the functions below say.
#[verifier::external_type_specification]
#[verifier::external_body]
#[verifier::reject_recursive_types(K)]
#[verifier::reject_recursive_types(V)]
#[verifier::reject_recursive_types(S)]
pub struct ExDashMap<K, V, S>(DashMap<K, V, S>);

/// The accounts that a table holds, by account id.
pub uninterp spec fn account_entries(table: DashMap<i64, Account>) -> Map<i64, Account>;

/// The series that a table holds, by series id.
pub uninterp spec fn series_entries(table: DashMap<i64, Series>) -> Map<i64, Series>;

/// The cached items that a table holds, by item id.
pub uninterp spec fn single_entries(table: DashMap<i64, Single>) -> Map<i64, Single>;

/// The tickets that a table holds, by account id.
pub uninterp spec fn ticket_entries(table: DashMap<i64, Ticket>) -> Map<i64, Ticket>;

/// The registrations that a table holds, by series id.
pub uninterp spec fn finder_entries(table: DashMap<i64, Registration>) -> Map<i64, Registration>;

/// `DashMap::new`: a table that holds nothing.
#[verifier::external_body]
pub(crate) fn new_accounts() -> (table: DashMap<i64, Account>)
    ensures
        account_entries(table).dom() == Set::<i64>::empty(),
{
    DashMap::new()
}

/// `DashMap::get`, and a clone of the value found: the account under `key`.
#[verifier::external_body]
pub(crate) fn get_account(table: &DashMap<i64, Account>, key: i64) -> (value: Option<Account>)
    ensures
        value == account_entries(*table).get(key),
{
    match table.get(&key) {
        Some(entry) => Some(entry.value().clone()),
        None => None,
    }
}

/// `DashMap::insert` of a clone of `value`: afterwards `key` holds what
/// `value` holds, and every other key holds what it held.
#[verifier::external_body]
pub(crate) fn put_account(table: &mut DashMap<i64, Account>, key: i64, value: &Account)
    ensures
        account_entries(*final(table)) == account_entries(*old(table)).insert(key, *value),
{
    table.insert(key, value.clone());
}

/// `DashMap::iter`: every key once, in the order in which the table is
/// walked, of which nothing is known.
#[verifier::external_body]
pub(crate) fn account_keys(table: &DashMap<i64, Account>) -> (keys: Vec<i64>)
    ensures
        keys@.no_duplicates(),
        keys@.to_set() == account_entries(*table).dom(),
{
    table.iter().map(|entry| *entry.key()).collect()
}

/// `DashMap::new`: a table that holds nothing.
#[verifier::external_body]
pub(crate) fn new_serieses() -> (table: DashMap<i64, Series>)
    ensures
        series_entries(table).dom() == Set::<i64>::empty(),
{
    DashMap::new()
}

/// `DashMap::remove`: the series under `key` leaves the table and is
/// returned; every other key holds what it held.
#[verifier::external_body]
pub(crate) fn take_series(table: &mut DashMap<i64, Series>, key: i64) -> (value: Option<Series>)
    ensures
        value == series_entries(*old(table)).get(key),
        series_entries(*final(table)) == series_entries(*old(table)).remove(key),
{
    match table.remove(&key) {
        Some((_, series)) => Some(series),
        None => None,
    }
}

/// `DashMap::insert`: afterwards `key` holds `value`, and every other key
/// holds what it held.
#[verifier::external_body]
pub(crate) fn put_series(table: &mut DashMap<i64, Series>, key: i64, value: Series)
    ensures
        series_entries(*final(table)) == series_entries(*old(table)).insert(key, value),
{
    table.insert(key, value);
}

/// `DashMap::iter`: every key once, in the order in which the table is
/// walked, of which nothing is known.
#[verifier::external_body]
pub(crate) fn series_keys(table: &DashMap<i64, Series>) -> (keys: Vec<i64>)
    ensures
        keys@.no_duplicates(),
        keys@.to_set() == series_entries(*table).dom(),
{
    table.iter().map(|entry| *entry.key()).collect()
}

/// `DashMap::new`: a table that holds nothing.
#[verifier::external_body]
pub(crate) fn new_singles() -> (table: DashMap<i64, Single>)
    ensures
        single_entries(table).dom() == Set::<i64>::empty(),
{
    DashMap::new()
}

/// `DashMap::get`, and a clone of the value found: the item under `key`.
#[verifier::external_body]
pub(crate) fn get_single(table: &DashMap<i64, Single>, key: i64) -> (value: Option<Single>)
    ensures
        value == single_entries(*table).get(key),
{
    match table.get(&key) {
        Some(entry) => Some(entry.value().clone()),
        None => None,
    }
}

/// `DashMap::insert` of a clone of `value`: afterwards `key` holds what
/// `value` holds, and every other key holds what it held.
#[verifier::external_body]
pub(crate) fn put_single(table: &mut DashMap<i64, Single>, key: i64, value: &Single)
    ensures
        single_entries(*final(table)) == single_entries(*old(table)).insert(key, *value),
{
    table.insert(key, value.clone());
}

/// `DashMap::iter`: every key once, in the order in which the table is
/// walked, of which nothing is known.
#[verifier::external_body]
pub(crate) fn single_keys(table: &DashMap<i64, Single>) -> (keys: Vec<i64>)
    ensures
        keys@.no_duplicates(),
        keys@.to_set() == single_entries(*table).dom(),
{
    table.iter().map(|entry| *entry.key()).collect()
}

/// `DashMap::new`: a table that holds nothing.
#[verifier::external_body]
pub(crate) fn new_tickets() -> (table: DashMap<i64, Ticket>)
    ensures
        ticket_entries(table).dom() == Set::<i64>::empty(),
{
    DashMap::new()
}

/// `DashMap::get`, and a copy of the value found: the ticket under `key`.
#[verifier::external_body]
pub(crate) fn get_ticket(table: &DashMap<i64, Ticket>, key: i64) -> (value: Option<Ticket>)
    ensures
        value == ticket_entries(*table).get(key),
{
    match table.get(&key) {
        Some(entry) => Some(*entry.value()),
        None => None,
    }
}

/// `DashMap::insert`: afterwards `key` holds `value`, and every other key
/// holds what it held.
#[verifier::external_body]
pub(crate) fn put_ticket(table: &mut DashMap<i64, Ticket>, key: i64, value: Ticket)
    ensures
        ticket_entries(*final(table)) == ticket_entries(*old(table)).insert(key, value),
{
    table.insert(key, value);
}

/// `DashMap::iter`: every key once, in the order in which the table is
/// walked, of which nothing is known.
#[verifier::external_body]
pub(crate) fn ticket_keys(table: &DashMap<i64, Ticket>) -> (keys: Vec<i64>)
    ensures
        keys@.no_duplicates(),
        keys@.to_set() == ticket_entries(*table).dom(),
{
    table.iter().map(|entry| *entry.key()).collect()
}

/// `DashMap::new`: a table that holds nothing.
#[verifier::external_body]
pub(crate) fn new_finders() -> (table: DashMap<i64, Registration>)
    ensures
        finder_entries(table).dom() == Set::<i64>::empty(),
{
    DashMap::new()
}

/// `DashMap::get`, and a copy of the value found: the registration under
/// `key`.
#[verifier::external_body]
pub(crate) fn get_finder(table: &DashMap<i64, Registration>, key: i64) -> (value: Option<
    Registration,
>)
    ensures
        value == finder_entries(*table).get(key),
{
    match table.get(&key) {
        Some(entry) => Some(*entry.value()),
        None => None,
    }
}

/// `DashMap::insert`: afterwards `key` holds `value`, and every other key
/// holds what it held.
#[verifier::external_body]
pub(crate) fn put_finder(table: &mut DashMap<i64, Registration>, key: i64, value: Registration)
    ensures
        finder_entries(*final(table)) == finder_entries(*old(table)).insert(key, value),
{
    table.insert(key, value);
}

/// `DashMap::remove`: afterwards `key` holds nothing, and every other key
/// holds what it held.
#[verifier::external_body]
pub(crate) fn drop_finder(table: &mut DashMap<i64, Registration>, key: i64)
    ensures
        finder_entries(*final(table)) == finder_entries(*old(table)).remove(key),
{
    table.remove(&key);
}

} // verus!
