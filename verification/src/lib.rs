use vstd::prelude::*;

pub mod address;
pub mod benchmarks;
pub mod contract;
pub mod error;
pub mod grant;
pub mod laws;
pub mod multi_token;
pub mod status;
pub mod yield_treasury;
pub mod yield_enhanced;
