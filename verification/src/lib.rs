//! Verified core of a trading-strategy backtester: input validation, the
//! position and trade bookkeeping state machines, request handling rules and
//! market-data request planning.

pub mod align;
pub mod config;
pub mod ledger;
pub mod limits;
pub mod market_data;
pub mod ordering;
pub mod requests;
pub mod retry;
pub mod signals;
pub mod storage;
pub mod text;
pub mod timing;
pub mod types;
pub mod validation;
