//! The decisions of a broker for paywalled content. A pool of accounts
//! holds tickets for the items of series; a request for an item is served
//! from the cache, or by the redemption of a ticket of one account.
//!
//! Everything here decides and nothing here waits: each function takes
//! what was answered and says what is kept and what is asked next. The
//! program around the library asks the remote side, sleeps, and reads and
//! writes files.
//!
//! - [`states`] is the store: the accounts, the series with their cached
//!   items and ticket ledgers, and what the background maintenance
//!   decides.
//! - [`endpoints`] holds the coordinator of a content request, the finder
//!   that scans the pool once for many callers, and what is made of the
//!   answers to searches and series pages.
//! - [`solo`] hands tasks to dedicated workers.
//! - [`macroql`] writes the text of a query from its description.
//! - [`util`], [`text`] and [`number`] read and write text.

pub mod endpoints;
pub mod error;
pub mod macroql;
pub mod number;
pub mod solo;
pub mod states;
pub mod text;
pub mod util;
