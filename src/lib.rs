//! Market-data normalisation core: fixed-layout binary frames, a JSON
//! document model with the readings the parsers need, the Binance
//! parsers, the REST bar aggregator and the session / supervisor
//! decision logic.

pub mod wire;
pub mod mkt_msg;
pub mod json;
pub mod parser;
pub mod rest;
pub mod session;
