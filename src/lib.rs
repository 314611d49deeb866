//! A gateway in front of a pool of scrape agents: the agent registry, the
//! availability prober and selector, the restart scheduler and the request
//! handler's decisions, each with its contract.

pub mod text;
pub mod error;
pub mod pool;
pub mod select;
pub mod restart;
pub mod gateway;
pub mod model;
