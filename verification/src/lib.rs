//! Usage accounting for the MiniMax provider: region routing, response
//! field selection, billing-history aggregation and the text shown for it.

pub mod text;
pub mod region;
pub mod provider;
pub mod numbers;
pub mod json;
pub mod dates;
pub mod ranking;
pub mod billing;
pub mod report;
pub mod responses;
pub mod fetch;
pub mod laws;
pub mod reorder;
pub mod guarantees;
