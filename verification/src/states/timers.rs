//! The timers of the background maintenance: which there are, and how
//! long each waits before it fires. The waiting and the work are done by
//! the caller.

use crate::error::{Error, ErrorView};
use crate::states::series::is_listing;
use crate::states::{account_missing, States, StatesView};
use crate::util::random_u64;
use vstd::prelude::*;

verus! {

/// The seconds after which a token is refreshed again.
pub const TOKEN_PERIOD: i64 = 3600;

/// The seconds between two snapshots of the store.
pub const SNAPSHOT_PERIOD: u64 = 3600;

/// A timer of the background maintenance.
#[derive(Clone, Copy, Debug, PartialEq, Eq, Structural)]
pub enum Timer {
    /// Refreshes the token of an account.
    Token(i64),
    /// Draws the rewards of an account and asks for its balance.
    Rewards(i64),
    /// Receives the gift tickets of an account.
    Gifts(i64),
    /// Saves the store.
    Snapshot,
}

/// The timers of the accounts `order`: three for each, in that order.
pub open spec fn account_timers(order: Seq<i64>) -> Seq<Timer>
    decreases order.len(),
{
    if order.len() == 0 {
        Seq::empty()
    } else {
        account_timers(order.drop_last()) + seq![
            Timer::Token(order.last()),
            Timer::Rewards(order.last()),
            Timer::Gifts(order.last()),
        ]
    }
}

/// The timers that are started for the accounts `order`: those of the
/// accounts, and the one that saves the store.
pub open spec fn timers_of(order: Seq<i64>) -> Seq<Timer> {
    account_timers(order).push(Timer::Snapshot)
}

/// The seconds to wait at `now` before a token that was refreshed at
/// `last` is refreshed again: what is left of the period, and nothing
/// where the period is over.
pub open spec fn token_wait(now: i64, last: i64) -> u64 {
    let passed = now - last;
    if passed >= TOKEN_PERIOD {
        0
    } else if TOKEN_PERIOD - passed > u64::MAX {
        u64::MAX
    } else {
        (TOKEN_PERIOD - passed) as u64
    }
}

/// The seconds to wait before the rewards are looked at, made of the
/// random number `random`: forty minutes, and up to forty more.
pub open spec fn rewards_wait(random: u64) -> u64 {
    (2400 + random % 2400) as u64
}

/// The seconds to wait before the gift tickets are looked at, made of the
/// random number `random`: a hundred and sixty minutes, and up to as many
/// more.
pub open spec fn gifts_wait(random: u64) -> u64 {
    (9600 + random % 9600) as u64
}

/// The milliseconds to pause between two draws or two receipts, made of
/// the random number `random`.
pub open spec fn pause_millis(random: u64) -> u64 {
    (200 + random % 200) as u64
}

/// The seconds that `timer` waits at `now` before it fires, with the
/// random number `random`.
pub open spec fn wait_of(timer: Timer, states: StatesView, now: i64, random: u64) -> Result<
    u64,
    ErrorView,
> {
    match timer {
        Timer::Token(key) => match states.accounts.get(key) {
            Some(account) => Ok(token_wait(now, account.last_token_refresh)),
            None => Err(account_missing(key)),
        },
        Timer::Rewards(_) => Ok(rewards_wait(random)),
        Timer::Gifts(_) => Ok(gifts_wait(random)),
        Timer::Snapshot => Ok(SNAPSHOT_PERIOD),
    }
}

/// The seconds to wait at `now` before a token that was refreshed at
/// `last` is refreshed again.
pub fn token_delay(now: i64, last: i64) -> (seconds: u64)
    ensures
        seconds == token_wait(now, last),
{
    let passed: i128 = now as i128 - last as i128;
    if passed >= 3600 {
        0
    } else {
        let left: i128 = 3600 - passed;
        if left > 0xffff_ffff_ffff_ffff {
            0xffff_ffff_ffff_ffff
        } else {
            left as u64
        }
    }
}

/// The milliseconds to pause, made of `random`.
pub fn pause_of(random: u64) -> (millis: u64)
    ensures
        millis == pause_millis(random),
{
    200 + random % 200
}

/// The milliseconds to pause between two draws or two receipts.
pub fn pause() -> (millis: u64)
    ensures
        200 <= millis < 400,
        exists|random: u64| millis == #[trigger] pause_millis(random),
{
    pause_of(random_u64())
}

impl Timer {
    /// The seconds that the timer waits at `now` before it fires, with
    /// the random number `random`.
    pub fn wait_with(&self, states: &States, now: i64, random: u64) -> (seconds: Result<u64, Error>)
        ensures
            match wait_of(*self, states@, now, random) {
                Ok(wait) => seconds == Ok::<u64, Error>(wait),
                Err(failure) => seconds matches Err(error) && error@ == failure,
            },
    {
        match self {
            Timer::Token(key) => {
                let account = states.get_acc(*key)?;
                Ok(token_delay(now, account.last_token_refresh))
            },
            Timer::Rewards(_) => Ok(2400 + random % 2400),
            Timer::Gifts(_) => Ok(9600 + random % 9600),
            Timer::Snapshot => Ok(SNAPSHOT_PERIOD),
        }
    }

    /// The seconds that the timer waits at `now` before it fires.
    pub fn wait(&self, states: &States, now: i64) -> (seconds: Result<u64, Error>)
        ensures
            exists|random: u64|
                match #[trigger] wait_of(*self, states@, now, random) {
                    Ok(wait) => seconds == Ok::<u64, Error>(wait),
                    Err(failure) => seconds matches Err(error) && error@ == failure,
                },
    {
        self.wait_with(states, now, random_u64())
    }
}

/// The timers that are started for the accounts `order`.
pub fn timers_for(order: &Vec<i64>) -> (timers: Vec<Timer>)
    ensures
        timers@ == timers_of(order@),
{
    let mut timers: Vec<Timer> = Vec::new();
    let mut at: usize = 0;
    assert(order@.take(0) =~= Seq::<i64>::empty());
    while at < order.len()
        invariant
            at <= order.len(),
            timers@ == account_timers(order@.take(at as int)),
        decreases order.len() - at,
    {
        let key = order[at];
        let ghost before = timers@;
        proof {
            assert(order@.take(at + 1).drop_last() =~= order@.take(at as int));
        }
        timers.push(Timer::Token(key));
        timers.push(Timer::Rewards(key));
        timers.push(Timer::Gifts(key));
        assert(timers@ =~= before + seq![Timer::Token(key), Timer::Rewards(key), Timer::Gifts(key)]);
        at += 1;
    }
    assert(order@.take(order.len() as int) =~= order@);
    timers.push(Timer::Snapshot);
    timers
}

impl States {
    /// The timers to start: three for each account of the pool, in the
    /// order in which the pool is walked, and the one that saves the
    /// store.
    pub fn start_timers(&self) -> (timers: Vec<Timer>)
        ensures
            exists|order: Seq<i64>|
                is_listing(order, self@.accounts.dom()) && timers@ == #[trigger] timers_of(order),
    {
        let order = self.account_ids();
        timers_for(&order)
    }
}

} // verus!
