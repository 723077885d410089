//! What the timers of an account decide: when the token is refreshed,
//! what is kept of the balance, which rewards are drawn and which gift
//! tickets are received. The asking and the waiting is done by the caller.

use crate::error::{Error, ErrorKind, ErrorView};
use crate::states::account::{Account, AccountView};
use crate::states::{account_missing, States, StatesView};
use crate::text::same;
use crate::util::{
    bad_timestamp, get_param, iso, iso_seconds, param_of, param_value,
};
use vstd::prelude::*;
use vstd::string::StringExecFns;

verus! {

/// What `urlencoding` makes of `text`: each `%` and the two hexadecimal
/// digits behind it replaced by the byte that they name, and the bytes
/// read as UTF-8; `None` where they are not UTF-8.
pub uninterp spec fn percent_decoded(text: Seq<char>) -> Option<Seq<char>>;

/// `urlencoding::decode`: a function of the text alone.
#[verifier::external_body]
fn percent_decode(text: &str) -> (decoded: Option<String>)
    ensures
        decoded.deep_view() == percent_decoded(text@),
{
    match urlencoding::decode(text) {
        Ok(decoded) => Some(decoded.into_owned()),
        Err(_) => None,
    }
}

/// One entry of the news of an account.
#[derive(Clone, Debug, PartialEq, Eq)]
pub struct News {
    pub log_name: String,
    pub date: String,
    pub scheme: String,
}

pub struct NewsView {
    pub log_name: Seq<char>,
    pub date: Seq<char>,
    pub scheme: Seq<char>,
}

impl View for News {
    type V = NewsView;

    open spec fn view(&self) -> NewsView {
        NewsView { log_name: self.log_name@, date: self.date@, scheme: self.scheme@ }
    }
}

impl DeepView for News {
    type V = NewsView;

    open spec fn deep_view(&self) -> NewsView {
        self@
    }
}

/// One gift ticket of the day.
#[derive(Clone, Debug, PartialEq, Eq)]
pub struct Gift {
    pub is_received: bool,
    pub ticket_uid: i32,
    pub scheme: String,
}

/// Where a reward is named in an address.
#[derive(Clone, Debug, PartialEq, Eq)]
pub enum GotchaRef {
    /// In the address that this one wraps, still encoded.
    Link(String),
    /// Here: this is its id.
    Id(String),
}

pub enum GotchaRefView {
    Link(Seq<char>),
    Id(Seq<char>),
}

impl View for GotchaRef {
    type V = GotchaRefView;

    open spec fn view(&self) -> GotchaRefView {
        match self {
            GotchaRef::Link(link) => GotchaRefView::Link(link@),
            GotchaRef::Id(id) => GotchaRefView::Id(id@),
        }
    }
}

/// The rewards of an account that are still to be drawn, found in its
/// news.
#[derive(Clone, Debug, PartialEq, Eq)]
pub struct GotchaRun {
    pub news: Vec<News>,
    /// How many entries have been gone through.
    pub at: usize,
    /// The time of the latest reward that was drawn before this run.
    pub last_opened: i64,
    /// The time of the latest reward that this run has named; 0 where it
    /// has named none.
    pub max_date: i64,
}

pub struct GotchaRunView {
    pub news: Seq<NewsView>,
    pub at: nat,
    pub last_opened: i64,
    pub max_date: i64,
}

impl View for GotchaRun {
    type V = GotchaRunView;

    open spec fn view(&self) -> GotchaRunView {
        GotchaRunView {
            news: self.news.deep_view(),
            at: self.at as nat,
            last_opened: self.last_opened,
            max_date: self.max_date,
        }
    }
}

/// The failure to decode `text`.
pub open spec fn bad_encoding(text: Seq<char>) -> ErrorView {
    ErrorView { kind: ErrorKind::RemoteProtocol, message: "invalid percent-encoding: "@ + text }
}

/// Where the decoded address `decoded` names its reward: in the address
/// under `open_enc_url_with_auth`, where it has one, and under `gacha_uid`
/// otherwise.
pub open spec fn gotcha_ref_of(decoded: Seq<char>) -> Result<GotchaRefView, ErrorView> {
    match param_value(decoded, "open_enc_url_with_auth"@) {
        Some(link) => Ok(GotchaRefView::Link(link)),
        None => match param_of(decoded, "gacha_uid"@) {
            Ok(id) => Ok(GotchaRefView::Id(id)),
            Err(failure) => Err(failure),
        },
    }
}

/// The id of the reward that the address `scheme` names.
pub open spec fn gotcha_id_of(scheme: Seq<char>) -> Result<Seq<char>, ErrorView> {
    match percent_decoded(scheme) {
        None => Err(bad_encoding(scheme)),
        Some(decoded) => match gotcha_ref_of(decoded) {
            Err(failure) => Err(failure),
            Ok(GotchaRefView::Id(id)) => Ok(id),
            Ok(GotchaRefView::Link(link)) => match percent_decoded(link) {
                None => Err(bad_encoding(link)),
                Some(address) => param_of(address, "id"@),
            },
        },
    }
}

/// Where the decoded address `decoded` names its reward.
pub fn gotcha_ref(decoded: &str) -> (found: Result<GotchaRef, Error>)
    ensures
        match gotcha_ref_of(decoded@) {
            Ok(named) => found matches Ok(place) && place@ == named,
            Err(failure) => found matches Err(error) && error@ == failure,
        },
{
    match get_param(decoded, "open_enc_url_with_auth") {
        Ok(link) => Ok(GotchaRef::Link(link)),
        Err(_) => match get_param(decoded, "gacha_uid") {
            Ok(id) => Ok(GotchaRef::Id(id)),
            Err(error) => Err(error),
        },
    }
}

/// The id of the reward in the decoded address `address` that another
/// address wrapped.
pub fn linked_gotcha_id(address: &str) -> (id: Result<String, Error>)
    ensures
        match param_of(address@, "id"@) {
            Ok(named) => id matches Ok(text) && text@ == named,
            Err(failure) => id matches Err(error) && error@ == failure,
        },
{
    get_param(address, "id")
}

fn decode(text: &str) -> (decoded: Result<String, Error>)
    ensures
        match percent_decoded(text@) {
            Some(plain) => decoded matches Ok(made) && made@ == plain,
            None => decoded matches Err(error) && error@ == bad_encoding(text@),
        },
{
    match percent_decode(text) {
        Some(decoded) => Ok(decoded),
        None => {
            let mut message = String::from_str("invalid percent-encoding: ");
            message.append(text);
            Err(Error::new(ErrorKind::RemoteProtocol, message))
        },
    }
}

/// The id of the reward that the address `scheme` names.
pub fn gotcha_id(scheme: &str) -> (id: Result<String, Error>)
    ensures
        match gotcha_id_of(scheme@) {
            Ok(named) => id matches Ok(text) && text@ == named,
            Err(failure) => id matches Err(error) && error@ == failure,
        },
{
    let decoded = decode(scheme)?;
    match gotcha_ref(decoded.as_str())? {
        GotchaRef::Id(id) => Ok(id),
        GotchaRef::Link(link) => {
            let address = decode(link.as_str())?;
            linked_gotcha_id(address.as_str())
        },
    }
}

/// A reward that is to be drawn.
pub struct Claim {
    pub gotcha_id: Seq<char>,
    pub date: i64,
}

/// What the entry `news` asks for: a reward to draw, where it reports an
/// award that is later than `last_opened`.
pub open spec fn claim_of(news: NewsView, last_opened: i64) -> Result<Option<Claim>, ErrorView> {
    if news.log_name != "Award"@ {
        Ok(None)
    } else {
        match iso_seconds(news.date) {
            None => Err(bad_timestamp(news.date)),
            Some(date) => if date > last_opened {
                match gotcha_id_of(news.scheme) {
                    Ok(gotcha_id) => Ok(Some(Claim { gotcha_id, date })),
                    Err(failure) => Err(failure),
                }
            } else {
                Ok(None)
            },
        }
    }
}

/// The later of two times.
pub open spec fn later(a: i64, b: i64) -> i64 {
    if a >= b {
        a
    } else {
        b
    }
}

/// The run after its next step, and what the step ends in: the id of the
/// next reward to draw; nothing, where the news are through; or the
/// failure of the first entry that cannot be read, at which the run stays.
pub open spec fn advanced(run: GotchaRunView) -> (
    GotchaRunView,
    Result<Option<Seq<char>>, ErrorView>,
)
    decreases run.news.len() - run.at,
{
    if run.at >= run.news.len() {
        (run, Ok(None))
    } else {
        match claim_of(run.news[run.at as int], run.last_opened) {
            Err(failure) => (run, Err(failure)),
            Ok(None) => advanced(GotchaRunView { at: run.at + 1, ..run }),
            Ok(Some(claim)) => (
                GotchaRunView { at: run.at + 1, max_date: later(run.max_date, claim.date), ..run },
                Ok(Some(claim.gotcha_id)),
            ),
        }
    }
}

/// The store after the account `key` has drawn rewards up to `max_date`.
pub open spec fn after_gotchas(states: StatesView, key: i64, max_date: i64) -> StatesView {
    if max_date > 0 && states.accounts.contains_key(key) {
        StatesView {
            accounts: states.accounts.insert(
                key,
                AccountView { last_gotcha_opened: max_date, ..states.accounts[key] },
            ),
            ..states
        }
    } else {
        states
    }
}

/// The store after the balance of the account `key` was reported.
pub open spec fn after_balance(states: StatesView, key: i64, cash: i64) -> StatesView {
    if states.accounts.contains_key(key) {
        StatesView {
            accounts: states.accounts.insert(
                key,
                AccountView { balance: cash, ..states.accounts[key] },
            ),
            ..states
        }
    } else {
        states
    }
}

/// The store after the token of the account `key` was refreshed at `now`.
pub open spec fn after_refresh(states: StatesView, key: i64, now: i64) -> StatesView {
    if states.accounts.contains_key(key) {
        StatesView {
            accounts: states.accounts.insert(
                key,
                AccountView { last_token_refresh: now, ..states.accounts[key] },
            ),
            ..states
        }
    } else {
        states
    }
}

/// The gift tickets of `gifts` that are not received yet, in order.
pub open spec fn unreceived(gifts: Seq<Gift>) -> Seq<i32> {
    gifts.filter(|gift: Gift| !gift.is_received).map_values(|gift: Gift| gift.ticket_uid)
}

/// The ticket type of a gift ticket of the day.
pub fn gift_ticket_type() -> (kind: &'static str)
    ensures
        kind@ == "TodayGift"@,
{
    "TodayGift"
}

impl GotchaRun {
    /// The id of the next reward to draw, if there is one.
    pub fn next(&mut self) -> (id: Result<Option<String>, Error>)
        ensures
            final(self)@ == advanced(old(self)@).0,
            match advanced(old(self)@).1 {
                Ok(named) => id matches Ok(found) && found.deep_view() == named,
                Err(failure) => id matches Err(error) && error@ == failure,
            },
    {
        while self.at < self.news.len()
            invariant
                advanced(self@) == advanced(old(self)@),
            decreases self.news.len() - self.at,
        {
            let ghost before = self@;
            let entry = &self.news[self.at];
            assert(before.news[before.at as int] == entry@);
            if same(entry.log_name.as_str(), "Award") {
                let date = iso(entry.date.as_str())?;
                if date > self.last_opened {
                    let gotcha_id = gotcha_id(entry.scheme.as_str())?;
                    if date > self.max_date {
                        self.max_date = date;
                    }
                    self.at = self.at + 1;
                    return Ok(Some(gotcha_id));
                }
            }
            self.at = self.at + 1;
        }
        Ok(None)
    }

    /// Ends the run: the account `key` keeps the time of the latest reward
    /// that the run has named.
    pub fn finish(self, states: &mut States, key: i64) -> (done: Result<(), Error>)
        ensures
            final(states)@ == after_gotchas(old(states)@, key, self.max_date),
            self.max_date > 0 && !old(states)@.accounts.contains_key(key) ==> (done matches Err(
                error,
            ) && error@ == account_missing(key)),
            self.max_date <= 0 || old(states)@.accounts.contains_key(key) ==> done is Ok,
    {
        if self.max_date > 0 {
            let held = states.get_acc(key)?;
            let account = Account {
                last_token_refresh: held.last_token_refresh,
                last_gotcha_opened: self.max_date,
                balance: held.balance,
                token: held.token,
                agent: held.agent,
                proxy: held.proxy,
            };
            states.put_acc(key, &account);
        }
        Ok(())
    }
}

impl Account {
    /// Starts the run through the news of the account `key`.
    pub fn check_gotchas(states: &States, key: i64, news: Vec<News>) -> (run: Result<
        GotchaRun,
        Error,
    >)
        ensures
            match states@.accounts.get(key) {
                Some(held) => run matches Ok(started) && started@ == (GotchaRunView {
                    news: news.deep_view(),
                    at: 0,
                    last_opened: held.last_gotcha_opened,
                    max_date: 0,
                }),
                None => run matches Err(error) && error@ == account_missing(key),
            },
    {
        let held = states.get_acc(key)?;
        Ok(GotchaRun { news, at: 0, last_opened: held.last_gotcha_opened, max_date: 0 })
    }

    /// Keeps the balance `cash` that was reported of the account `key`.
    pub fn check_balance(states: &mut States, key: i64, cash: i64) -> (done: Result<(), Error>)
        ensures
            final(states)@ == after_balance(old(states)@, key, cash),
            match old(states)@.accounts.get(key) {
                Some(_) => done is Ok,
                None => done matches Err(error) && error@ == account_missing(key),
            },
    {
        let held = states.get_acc(key)?;
        let account = Account {
            last_token_refresh: held.last_token_refresh,
            last_gotcha_opened: held.last_gotcha_opened,
            balance: cash,
            token: held.token,
            agent: held.agent,
            proxy: held.proxy,
        };
        states.put_acc(key, &account);
        Ok(())
    }

    /// Keeps `now` as the time at which the token of the account `key` was
    /// last refreshed.
    pub fn refresh_token(states: &mut States, key: i64, now: i64) -> (done: Result<(), Error>)
        ensures
            final(states)@ == after_refresh(old(states)@, key, now),
            match old(states)@.accounts.get(key) {
                Some(_) => done is Ok,
                None => done matches Err(error) && error@ == account_missing(key),
            },
    {
        let held = states.get_acc(key)?;
        let account = Account {
            last_token_refresh: now,
            last_gotcha_opened: held.last_gotcha_opened,
            balance: held.balance,
            token: held.token,
            agent: held.agent,
            proxy: held.proxy,
        };
        states.put_acc(key, &account);
        Ok(())
    }

    /// The gift tickets of `gifts` that are still to be received.
    pub fn check_tickets(gifts: &Vec<Gift>) -> (open: Vec<i32>)
        ensures
            open@ == unreceived(gifts@),
    {
        let ghost wanted = |gift: Gift| !gift.is_received;
        let ghost uid = |gift: Gift| gift.ticket_uid;
        let mut open: Vec<i32> = Vec::new();
        let mut at: usize = 0;
        proof {
            reveal(Seq::filter);
            assert(gifts@.take(0) =~= Seq::<Gift>::empty());
            assert(gifts@.take(0).filter(wanted).map_values(uid) =~= Seq::<i32>::empty());
        }
        while at < gifts.len()
            invariant
                at <= gifts.len(),
                wanted == |gift: Gift| !gift.is_received,
                uid == |gift: Gift| gift.ticket_uid,
                open@ == gifts@.take(at as int).filter(wanted).map_values(uid),
            decreases gifts.len() - at,
        {
            let gift = &gifts[at];
            proof {
                reveal(Seq::filter);
                assert(gifts@.take(at + 1).drop_last() =~= gifts@.take(at as int));
                let before = gifts@.take(at as int).filter(wanted);
                if wanted(*gift) {
                    assert(before.push(*gift).map_values(uid) =~= before.map_values(uid).push(
                        gift.ticket_uid,
                    ));
                }
            }
            if !gift.is_received {
                open.push(gift.ticket_uid);
            }
            at += 1;
        }
        assert(gifts@.take(gifts.len() as int) =~= gifts@);
        open
    }
}

} // verus!
