//! An account of the pool, as the library keeps it.

use crate::number::{hex_text, push_hex};
use crate::util::random_u64;
use vstd::prelude::*;
use vstd::string::StringExecFns;

verus! {

/// What is kept of one account. The transport that speaks for the account
/// is built from `token`, `agent` and `proxy` outside the library.
#[derive(Clone, Debug, PartialEq, Eq)]
pub struct Account {
    pub last_token_refresh: i64,
    pub last_gotcha_opened: i64,
    pub balance: i64,
    pub token: String,
    pub agent: String,
    pub proxy: Option<String>,
}

pub struct AccountView {
    pub last_token_refresh: i64,
    pub last_gotcha_opened: i64,
    pub balance: i64,
    pub token: Seq<char>,
    pub agent: Seq<char>,
    pub proxy: Option<Seq<char>>,
}

impl View for Account {
    type V = AccountView;

    open spec fn view(&self) -> AccountView {
        AccountView {
            last_token_refresh: self.last_token_refresh,
            last_gotcha_opened: self.last_gotcha_opened,
            balance: self.balance,
            token: self.token@,
            agent: self.agent@,
            proxy: self.proxy.deep_view(),
        }
    }
}

/// The client identity that is made of `seed`: `kakaopage/` and the seed
/// in sixteen hexadecimal digits.
pub open spec fn agent_text(seed: u64) -> Seq<char> {
    "kakaopage/"@ + hex_text(seed as nat, 16)
}

/// The client identity that is made of `seed`.
pub fn agent_of(seed: u64) -> (agent: String)
    ensures
        agent@ == agent_text(seed),
{
    let mut agent = String::from_str("kakaopage/");
    push_hex(&mut agent, seed, 16);
    agent
}

/// A client identity made of a random seed.
pub fn generate_agent() -> (agent: String)
    ensures
        exists|seed: u64| agent@ == #[trigger] agent_text(seed),
{
    agent_of(random_u64())
}

} // verus!

