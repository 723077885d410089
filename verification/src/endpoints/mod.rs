//! What the endpoints decide: each function takes what the remote side
//! answered and says what is kept, what is replied and what is asked next.

pub mod finder;
pub mod guarantees;
pub mod ledger;
pub mod resource;
pub mod search;
pub mod series;
pub mod single;
pub mod viewer;
