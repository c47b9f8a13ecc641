//! The goals of a counter as the Metrika management API lists them.

use vstd::prelude::*;
use crate::counter_info::{CountInform, counter_url_text};
use crate::decimal::int_text;
use crate::error::{ErrorResponseMetrika, MetrikaError};
use crate::goal_client::{GoalClient, goal_views, kept_goals};

verus! {

/// The goals of a counter, as the Metrika API lists them.
#[derive(Debug, Clone)]
pub struct GoalCounter {
    pub goals: Vec<Goal>,
}

/// One goal of a counter as the Metrika API describes it; its kind is named
/// by `type_field` (`type` in the API's JSON).
#[derive(Debug, Clone)]
pub struct Goal {
    pub id: i64,
    pub name: String,
    pub type_field: String,
    pub conditions: Vec<Condition>,
    pub steps: Vec<Step>,
}

/// A condition of a goal.
#[derive(Debug, Clone)]
pub struct Condition {
    pub type_field: String,
    pub url: String,
}

/// One step of a composite goal.
#[derive(Debug, Clone)]
pub struct Step {
    pub id: i64,
    pub name: String,
    pub type_field: String,
    pub conditions: Vec<Condition2>,
}

/// A condition of a step of a composite goal.
#[derive(Debug, Clone)]
pub struct Condition2 {
    pub type_field: String,
    pub url: String,
}

/// The address at which the Metrika management API lists the goals of
/// counter `id`.
pub open spec fn goals_url_text(id: i64) -> Seq<char> {
    counter_url_text(id) + "/goals"@
}

/// The goals of a counter are listed under the counter's own address in
/// the management API, at `/goals`; the counter id appears in decimal.
pub proof fn lemma_goals_url(id: i64)
    ensures
        goals_url_text(id) == "https://api-metrika.yandex.net/management/v1/counter/"@ + int_text(id as int)
            + "/goals"@,
        goals_url_text(id) == counter_url_text(id) + "/goals"@,
{
}

impl GoalCounter {
    /// The address at which the Metrika management API lists the goals of
    /// counter `id`.
    pub fn goals_url(id: i64) -> (url: String)
        ensures
            url@ == goals_url_text(id),
    {
        CountInform::counter_url(id).concat("/goals")
    }
}

/// Where a request for the goals of a counter stands.
#[derive(Debug, Clone)]
pub enum GoalsFetchPhase {
    /// Nothing was done yet.
    Start,
    /// The goals kept for the counter are being read.
    AwaitCache,
    /// The Metrika API was asked for the counter's goals; its status is awaited.
    AwaitStatus,
    /// The API answered with success; its list of goals is awaited.
    AwaitGoals,
    /// The API answered with an error; its error body is awaited.
    AwaitError,
    /// These goals are being stored for the counter.
    AwaitStore(GoalClient),
    /// The request has its answer.
    Done,
}

/// A request for the goals of a counter: its counter and where it stands.
#[derive(Debug, Clone)]
pub struct GoalsFetch {
    pub counter_id: i64,
    pub phase: GoalsFetchPhase,
}

/// What the outside world reports to a goals request.
#[derive(Debug, Clone)]
pub enum GoalsFetchEvent {
    /// The request starts.
    Begin,
    /// The goals kept for the counter were read.
    CacheLoaded(GoalClient),
    /// The Metrika API answered with this HTTP status.
    ApiStatus(u16),
    /// The Metrika API's list of goals was read.
    GoalsBody(GoalCounter),
    /// The Metrika API's error body was read.
    ErrorBody(ErrorResponseMetrika),
    /// Storing the goals ended, whatever its outcome.
    Stored,
}

/// What a goals request asks the outside world to do next.
#[derive(Debug)]
pub enum GoalsFetchAction {
    /// Read the goals kept for this counter.
    LoadCache(i64),
    /// Ask the Metrika API at this address.
    CallApi(String),
    /// Read the API's answer as a list of goals.
    ReadGoalsBody,
    /// Read the API's answer as an error body.
    ReadErrorBody,
    /// Store these goals for the counter.
    StoreGoals(GoalClient),
    /// Answer the request with this.
    Finish(Result<GoalClient, MetrikaError>),
    /// The report does not fit where the request stands; nothing to do.
    Ignore,
}

impl GoalsFetch {
    /// A request for the goals of counter `id`.
    pub fn new(id: i64) -> (f: GoalsFetch)
        ensures
            f.counter_id == id,
            f.phase is Start,
    {
        GoalsFetch { counter_id: id, phase: GoalsFetchPhase::Start }
    }

    /// Takes the request one step further on a report from outside.
    ///
    /// The goals kept for the counter are read first; when there are any,
    /// they are the answer. Otherwise the Metrika API is asked; an error
    /// answer is answered with the API's message, and a list of goals is
    /// transformed, stored (whether storing succeeds or not) and answered.
    pub fn step(self, event: GoalsFetchEvent) -> (r: (GoalsFetch, GoalsFetchAction))
        ensures
            r.0.counter_id == self.counter_id,
            match (self.phase, event) {
                (GoalsFetchPhase::Start, GoalsFetchEvent::Begin) => {
                    &&& r.0.phase is AwaitCache
                    &&& r.1 == GoalsFetchAction::LoadCache(self.counter_id)
                },
                (GoalsFetchPhase::AwaitCache, GoalsFetchEvent::CacheLoaded(c)) => if c.goals@.len() > 0 {
                    &&& r.0.phase is Done
                    &&& r.1 == GoalsFetchAction::Finish(Ok(c))
                } else {
                    &&& r.0.phase is AwaitStatus
                    &&& r.1 matches GoalsFetchAction::CallApi(url) && url@ == goals_url_text(self.counter_id)
                },
                (GoalsFetchPhase::AwaitStatus, GoalsFetchEvent::ApiStatus(code)) => if code == 200 {
                    r.0.phase is AwaitGoals && r.1 is ReadGoalsBody
                } else {
                    r.0.phase is AwaitError && r.1 is ReadErrorBody
                },
                (GoalsFetchPhase::AwaitGoals, GoalsFetchEvent::GoalsBody(g)) => {
                    &&& r.1 matches GoalsFetchAction::StoreGoals(d)
                    &&& d.counter_id == self.counter_id
                    &&& goal_views(d.goals@) == kept_goals(g.goals@)
                    &&& r.0.phase matches GoalsFetchPhase::AwaitStore(kept)
                    &&& kept.counter_id == d.counter_id
                    &&& kept.goals@ == d.goals@
                },
                (GoalsFetchPhase::AwaitError, GoalsFetchEvent::ErrorBody(e)) => {
                    &&& r.0.phase is Done
                    &&& r.1 == GoalsFetchAction::Finish(Err(MetrikaError::Api(e.message)))
                },
                (GoalsFetchPhase::AwaitStore(d), GoalsFetchEvent::Stored) => {
                    &&& r.0.phase is Done
                    &&& r.1 == GoalsFetchAction::Finish(Ok(d))
                },
                _ => r.0 == self && r.1 is Ignore,
            },
    {
        let id = self.counter_id;
        match (self.phase, event) {
            (GoalsFetchPhase::Start, GoalsFetchEvent::Begin) => {
                (GoalsFetch { counter_id: id, phase: GoalsFetchPhase::AwaitCache }, GoalsFetchAction::LoadCache(id))
            },
            (GoalsFetchPhase::AwaitCache, GoalsFetchEvent::CacheLoaded(c)) => {
                if c.goals.len() > 0 {
                    (GoalsFetch { counter_id: id, phase: GoalsFetchPhase::Done }, GoalsFetchAction::Finish(Ok(c)))
                } else {
                    (
                        GoalsFetch { counter_id: id, phase: GoalsFetchPhase::AwaitStatus },
                        GoalsFetchAction::CallApi(GoalCounter::goals_url(id)),
                    )
                }
            },
            (GoalsFetchPhase::AwaitStatus, GoalsFetchEvent::ApiStatus(code)) => {
                if code == 200 {
                    (GoalsFetch { counter_id: id, phase: GoalsFetchPhase::AwaitGoals }, GoalsFetchAction::ReadGoalsBody)
                } else {
                    (GoalsFetch { counter_id: id, phase: GoalsFetchPhase::AwaitError }, GoalsFetchAction::ReadErrorBody)
                }
            },
            (GoalsFetchPhase::AwaitGoals, GoalsFetchEvent::GoalsBody(g)) => {
                let r = GoalClient::transform_goals(g, id);
                match r {
                    Ok(d) => {
                        let kept = d.clone_goals();
                        (
                            GoalsFetch { counter_id: id, phase: GoalsFetchPhase::AwaitStore(d) },
                            GoalsFetchAction::StoreGoals(kept),
                        )
                    },
                    Err(e) => (GoalsFetch { counter_id: id, phase: GoalsFetchPhase::Done }, GoalsFetchAction::Finish(Err(e))),
                }
            },
            (GoalsFetchPhase::AwaitError, GoalsFetchEvent::ErrorBody(e)) => {
                (
                    GoalsFetch { counter_id: id, phase: GoalsFetchPhase::Done },
                    GoalsFetchAction::Finish(Err(MetrikaError::Api(e.message))),
                )
            },
            (GoalsFetchPhase::AwaitStore(d), GoalsFetchEvent::Stored) => {
                (GoalsFetch { counter_id: id, phase: GoalsFetchPhase::Done }, GoalsFetchAction::Finish(Ok(d)))
            },
            (phase, _) => (GoalsFetch { counter_id: id, phase }, GoalsFetchAction::Ignore),
        }
    }
}

} // verus!
