//! What the Metrika management API tells about a counter.

use vstd::prelude::*;
use crate::decimal::{i64_text, int_text};

verus! {

/// The answer of the Metrika API about a counter.
#[derive(Debug, Clone)]
pub struct CountInform {
    pub counter: CounterInfo,
}

/// A counter: its id, status, owner, name and site.
#[derive(Debug, Clone)]
pub struct CounterInfo {
    pub id: i64,
    pub status: String,
    pub owner_login: String,
    pub name: String,
    pub site: String,
    pub site2: Site2,
}

/// The site of a counter with its domain.
#[derive(Debug, Clone)]
pub struct Site2 {
    pub site: String,
    pub domain: String,
}

/// The address of counter `id` in the Metrika management API.
pub open spec fn counter_url_text(id: i64) -> Seq<char> {
    "https://api-metrika.yandex.net/management/v1/counter/"@ + int_text(id as int)
}

impl CountInform {
    /// The address at which the Metrika management API describes counter
    /// `id`: the counter path followed by the id's decimal text.
    pub fn counter_url(id: i64) -> (url: String)
        ensures
            url@ == counter_url_text(id),
    {
        let base = String::from_str("https://api-metrika.yandex.net/management/v1/counter/");
        base.concat(i64_text(id).as_str())
    }
}

} // verus!
