//! The requests that the service's clients send.

use vstd::prelude::*;
use crate::goal_client::Goal;

verus! {

/// A request about one counter.
#[derive(Debug, Clone)]
pub struct RequestGoals {
    pub id_count: i64,
}

/// A request for the statistics of a counter over a period given by its
/// first and last day.
#[derive(Debug, Clone)]
pub struct RequestStatatics {
    pub id_count: i64,
    pub date_start: String,
    pub date_end: String,
}

/// A request to store the selection flags of some goals.
#[derive(Debug, Clone)]
pub struct GoalsUpdate {
    pub goals: Vec<Goal>,
}

} // verus!
