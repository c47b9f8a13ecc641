//! Statistics of the selected goals of a counter: which goals are asked
//! for, the request that asks the Metrika API for them, and how the rows of
//! its answer are matched to the goals.

use vstd::prelude::*;
use crate::decimal::{i64_text, int_text, parse_i64, parse_i64_text, lemma_i64_text_round_trip};
use crate::dates::{is_date, normalized_date, try_calc_data};
use crate::error::{ErrorResponseMetrika, MetrikaError};
use crate::goal_client::{Goal, GoalClient};

verus! {

/// The query that a statistics answer of the Metrika API repeats.
#[derive(Debug, Clone)]
pub struct Query {
    pub ids: Vec<i64>,
    pub dimensions: Vec<String>,
    pub metrics: Vec<String>,
    pub sort: Vec<String>,
    pub date1: String,
    pub date2: String,
    pub filters: String,
    pub limit: i64,
    pub offset: i64,
    pub group: String,
    pub benchmarks_version: String,
    pub auto_group_size: String,
    pub attr_name: String,
    pub quantile: String,
    pub offline_window: String,
    pub attribution: String,
    pub currency: String,
    pub funnel_window: String,
    pub adfox_event_id: String,
    pub funnel_pattern: String,
}

/// One dimension value of a row of a statistics answer; for the goal
/// dimension its id is the goal's id.
#[derive(Debug, Clone)]
pub struct Dimension {
    pub id: String,
    pub name: String,
}

/// The selected goals among some goals, in their order.
pub open spec fn selected_goals(goals: Seq<Goal>) -> Seq<Goal>
    decreases goals.len(),
{
    if goals.len() == 0 {
        seq![]
    } else if goals.last().status {
        selected_goals(goals.drop_last()).push(goals.last())
    } else {
        selected_goals(goals.drop_last())
    }
}

/// The selected goals among `goals`, in their order.
pub fn active_goals(goals: &Vec<Goal>) -> (r: Vec<Goal>)
    ensures
        r@ == selected_goals(goals@),
{
    let mut r: Vec<Goal> = Vec::new();
    for i in 0..goals.len()
        invariant
            r@ == selected_goals(goals@.take(i as int)),
    {
        assert(goals@.take(i + 1).drop_last() =~= goals@.take(i as int));
        if goals[i].status {
            r.push(goals[i].duplicate());
        }
    }
    assert(goals@.take(goals@.len() as int) =~= goals@);
    r
}

/// The selected goals are exactly the goals of the list whose flag is set,
/// in their order: the list filtered by the flag.
pub proof fn lemma_selected_goals_filter(goals: Seq<Goal>)
    ensures
        selected_goals(goals) == goals.filter(|g: Goal| g.status),
    decreases goals.len(),
{
    reveal(Seq::filter);
    if goals.len() > 0 {
        lemma_selected_goals_filter(goals.drop_last());
    }
}

/// The selected goals are goals of the list, all of them selected, and no
/// selected goal of the list is left out.
pub proof fn lemma_selected_goals(goals: Seq<Goal>)
    ensures
        forall|i: int| 0 <= i < selected_goals(goals).len() ==> (#[trigger] selected_goals(goals)[i]).status
            && goals.contains(selected_goals(goals)[i]),
        forall|k: int| 0 <= k < goals.len() && (#[trigger] goals[k]).status ==> selected_goals(goals).contains(goals[k]),
        selected_goals(goals).len() <= goals.len(),
    decreases goals.len(),
{
    if goals.len() > 0 {
        let rest = goals.drop_last();
        lemma_selected_goals(rest);
        let sel = selected_goals(goals);
        let sel_rest = selected_goals(rest);
        assert forall|i: int| 0 <= i < sel.len() implies (#[trigger] sel[i]).status && goals.contains(sel[i]) by {
            if i < sel_rest.len() {
                assert(sel[i] == sel_rest[i]);
                let k = choose|k: int| 0 <= k < rest.len() && rest[k] == sel_rest[i];
                assert(goals[k] == rest[k]);
            } else {
                assert(sel[i] == goals.last());
                assert(goals[goals.len() - 1] == goals.last());
            }
        }
        assert forall|k: int| 0 <= k < goals.len() && (#[trigger] goals[k]).status implies sel.contains(goals[k]) by {
            if k < goals.len() - 1 {
                assert(rest[k] == goals[k]);
                let i = choose|i: int| 0 <= i < sel_rest.len() && sel_rest[i] == rest[k];
                assert(sel[i] == sel_rest[i]);
            } else {
                assert(sel[sel.len() - 1] == goals.last());
            }
        }
    }
}

/// The filter of the statistics request: visits by goal, from Yandex Direct
/// advertising, robots left out.
pub open spec fn stat_filter_text() -> Seq<char> {
    "dimensions=ym:s:goalDimension&filters=(ym:s:AUTOMATICAdvEngine=='ya_direct' or ym:s:AUTOMATICAdvEngine=='ya_undefined') and (ym:s:isRobot=='No')"@
}

/// The metric of the visits that reached goal `id`.
pub open spec fn goal_metric_text(id: i64) -> Seq<char> {
    "ym:s:goal"@ + int_text(id as int) + "visits"@
}

/// The metrics of the visits of some goals, separated by commas.
pub open spec fn metrics_text(goals: Seq<Goal>) -> Seq<char>
    decreases goals.len(),
{
    if goals.len() == 0 {
        seq![]
    } else if goals.len() == 1 {
        goal_metric_text(goals[0].goal_id)
    } else {
        metrics_text(goals.drop_last()) + ","@ + goal_metric_text(goals.last().goal_id)
    }
}

/// The metrics name every goal, in order, each as `ym:s:goal<id>visits`,
/// separated by commas: none for no goal, one for one goal, and adding a
/// goal to a non-empty list adds a comma and that goal's metric.
pub proof fn lemma_metrics_text(goals: Seq<Goal>, g: Goal)
    ensures
        metrics_text(Seq::<Goal>::empty()) == Seq::<char>::empty(),
        metrics_text(seq![g]) == "ym:s:goal"@ + int_text(g.goal_id as int) + "visits"@,
        goals.len() > 0 ==> metrics_text(goals.push(g)) == metrics_text(goals) + ","@ + "ym:s:goal"@
            + int_text(g.goal_id as int) + "visits"@,
{
    assert(seq![g][0] == g);
    if goals.len() > 0 {
        let p = goals.push(g);
        assert(p.drop_last() =~= goals);
        assert(p.last() == g);
        assert(metrics_text(p) =~= metrics_text(goals) + ","@ + "ym:s:goal"@ + int_text(g.goal_id as int)
            + "visits"@);
    }
}

/// The address of the statistics request for counter `id` over the period
/// from `date1` to `date2`, asking for the visits of `goals`.
pub open spec fn stat_url_text(date1: Seq<char>, date2: Seq<char>, id: i64, goals: Seq<Goal>) -> Seq<char> {
    "https://api-metrika.yandex.ru/stat/v1/data?date1="@ + date1 + "&date2="@ + date2 + "&ids="@
        + int_text(id as int) + "&accuracy=full&"@ + stat_filter_text() + "&metrics="@ + metrics_text(goals)
}

/// The address of the statistics request for counter `id` over the period
/// from `date1` to `date2`, asking for the visits of each of `goals`.
pub fn stat_url(date1: &String, date2: &String, id: i64, goals: &Vec<Goal>) -> (url: String)
    ensures
        url@ == stat_url_text(date1@, date2@, id, goals@),
{
    let mut url = String::from_str("https://api-metrika.yandex.ru/stat/v1/data?date1=")
        .concat(date1.as_str())
        .concat("&date2=")
        .concat(date2.as_str())
        .concat("&ids=")
        .concat(i64_text(id).as_str())
        .concat("&accuracy=full&")
        .concat("dimensions=ym:s:goalDimension&filters=(ym:s:AUTOMATICAdvEngine=='ya_direct' or ym:s:AUTOMATICAdvEngine=='ya_undefined') and (ym:s:isRobot=='No')")
        .concat("&metrics=");
    let ghost prefix = url@;
    let n = goals.len();
    for i in 0..n
        invariant
            n == goals@.len(),
            url@ == prefix + metrics_text(goals@.take(i as int)) + (if 0 < i < n { ","@ } else { seq![] }),
    {
        let ghost before = goals@.take(i as int);
        assert(goals@.take(i + 1).drop_last() =~= before);
        assert(goals@.take(i + 1).last() == goals@[i as int]);
        let metric = String::from_str("ym:s:goal").concat(i64_text(goals[i].goal_id).as_str()).concat("visits");
        if i + 1 == n {
            url.append(metric.as_str());
        } else {
            url.append(metric.as_str());
            url.append(",");
        }
        if i == 0 {
            assert(goals@.take(1) =~= seq![goals@[0]]);
        }
        assert(url@ =~= prefix + metrics_text(goals@.take(i + 1)) + (if 0 < i + 1 < n { ","@ } else { seq![] }));
    }
    assert(goals@.take(n as int) =~= goals@);
    url
}

/// Whether the `j`-th goal is the first whose id is written `id`.
pub open spec fn is_first_match(goals: Seq<Goal>, id: Seq<char>, j: int) -> bool {
    &&& 0 <= j < goals.len()
    &&& int_text(goals[j].goal_id as int) == id
    &&& forall|k: int| 0 <= k < j ==> int_text(#[trigger] goals[k].goal_id as int) != id
}

/// The goal that a row of a statistics answer stands for: the id read from
/// its first dimension, with the name and the selection flag of the first
/// goal whose id is written as that dimension's id. `None` when the row has
/// no dimension, when its first dimension's id is not an `i64`, or when no
/// goal has that id.
pub open spec fn stat_row_goal(dims: Seq<Dimension>, goals: Seq<Goal>) -> Option<(i64, Seq<char>, bool)> {
    if dims.len() == 0 {
        None
    } else {
        let id = dims[0].id@;
        match parse_i64_text(id) {
            None => None,
            Some(v) => if exists|j: int| is_first_match(goals, id, j) {
                let j = choose|j: int| is_first_match(goals, id, j);
                Some((v, goals[j].name@, goals[j].status))
            } else {
                None
            },
        }
    }
}

/// There is at most one first goal with a given id text.
proof fn lemma_first_match_unique(goals: Seq<Goal>, id: Seq<char>, j: int, k: int)
    requires
        is_first_match(goals, id, j),
        is_first_match(goals, id, k),
    ensures
        j == k,
{
    if j < k {
        assert(int_text(goals[j].goal_id as int) != id);
    } else if k < j {
        assert(int_text(goals[k].goal_id as int) != id);
    }
}

/// The goal that a row of a statistics answer stands for; `None` where the
/// row names no goal among `goals`.
pub fn resolve_stat_row(dims: &Vec<Dimension>, goals: &Vec<Goal>) -> (r: Option<Goal>)
    ensures
        match r {
            Some(g) => stat_row_goal(dims@, goals@) == Some(g@),
            None => stat_row_goal(dims@, goals@) is None,
        },
{
    if dims.len() == 0 {
        return None;
    }
    let id = &dims[0].id;
    let parsed = parse_i64(id.as_str());
    let v = match parsed {
        Some(v) => v,
        None => {
            return None;
        },
    };
    let n = goals.len();
    let mut k: usize = 0;
    while k < n
        invariant
            n == goals@.len(),
            k <= n,
            dims@.len() > 0,
            id@ == dims@[0].id@,
            parse_i64_text(id@) == Some(v),
            forall|i: int| 0 <= i < k ==> int_text(#[trigger] goals@[i].goal_id as int) != id@,
        decreases n - k,
    {
        let text = i64_text(goals[k].goal_id);
        if text == *id {
            let ghost j = k as int;
            assert(is_first_match(goals@, id@, j));
            proof {
                let c = choose|c: int| is_first_match(goals@, id@, c);
                lemma_first_match_unique(goals@, id@, j, c);
                assert(dims@[0].id@ == id@);
                assert(stat_row_goal(dims@, goals@) == Some((v, goals@[j].name@, goals@[j].status)));
            }
            return Some(Goal { goal_id: v, name: goals[k].name.clone(), status: goals[k].status });
        }
        k = k + 1;
    }
    assert(!exists|j: int| is_first_match(goals@, id@, j));
    None
}

/// The goals that the rows of a statistics answer stand for, one for each
/// row in order; `None` when some row names no goal among `goals`.
pub fn resolve_stat_goals(rows: &Vec<Vec<Dimension>>, goals: &Vec<Goal>) -> (r: Option<Vec<Goal>>)
    ensures
        r is Some <==> forall|i: int| 0 <= i < rows@.len() ==> (#[trigger] stat_row_goal(rows@[i]@, goals@)) is Some,
        r matches Some(v) ==> v@.len() == rows@.len() && forall|i: int|
            0 <= i < rows@.len() ==> stat_row_goal(rows@[i]@, goals@) == Some(#[trigger] v@[i]@),
{
    let mut out: Vec<Goal> = Vec::new();
    for i in 0..rows.len()
        invariant
            out@.len() == i,
            forall|k: int| 0 <= k < i ==> stat_row_goal(rows@[k]@, goals@) == Some(#[trigger] out@[k]@),
    {
        match resolve_stat_row(&rows[i], goals) {
            Some(g) => {
                out.push(g);
            },
            None => {
                assert(stat_row_goal(rows@[i as int]@, goals@) is None);
                return None;
            },
        }
    }
    assert forall|i: int| 0 <= i < rows@.len() implies (#[trigger] stat_row_goal(rows@[i]@, goals@)) is Some by {
        assert(stat_row_goal(rows@[i]@, goals@) == Some(out@[i]@));
    }
    Some(out)
}

/// Among goals one of which has an id written `id`, some goal is the first
/// with that id.
proof fn lemma_first_match_exists(goals: Seq<Goal>, id: Seq<char>, j: int)
    requires
        0 <= j < goals.len(),
        int_text(goals[j].goal_id as int) == id,
    ensures
        exists|k: int| is_first_match(goals, id, k),
    decreases j,
{
    if exists|m: int| 0 <= m < j && int_text(#[trigger] goals[m].goal_id as int) == id {
        let m = choose|m: int| 0 <= m < j && int_text(#[trigger] goals[m].goal_id as int) == id;
        lemma_first_match_exists(goals, id, m);
    } else {
        assert(is_first_match(goals, id, j));
    }
}

/// A row stands for a goal exactly when one of the goals has the id written
/// in the row's first dimension, wherever that goal stands in the list; it
/// then stands for the first such goal, with that goal's id, name and flag.
/// A row with no dimension, or whose id no goal has, stands for no goal.
pub proof fn lemma_stat_row_goal_match(dims: Seq<Dimension>, goals: Seq<Goal>)
    ensures
        dims.len() == 0 ==> stat_row_goal(dims, goals) is None,
        dims.len() > 0 && (forall|j: int| 0 <= j < goals.len() ==> int_text(#[trigger] goals[j].goal_id as int) != dims[0].id@)
            ==> stat_row_goal(dims, goals) is None,
        dims.len() > 0 && (exists|j: int| 0 <= j < goals.len() && int_text(#[trigger] goals[j].goal_id as int) == dims[0].id@)
            ==> exists|k: int|
            0 <= k < goals.len() && int_text(goals[k].goal_id as int) == dims[0].id@ && (forall|m: int|
                0 <= m < k ==> int_text(#[trigger] goals[m].goal_id as int) != dims[0].id@) && stat_row_goal(dims, goals)
                == Some((goals[k].goal_id, goals[k].name@, goals[k].status)),
{
    if dims.len() > 0 {
        let id = dims[0].id@;
        if exists|j: int| 0 <= j < goals.len() && int_text(#[trigger] goals[j].goal_id as int) == id {
            let j = choose|j: int| 0 <= j < goals.len() && int_text(#[trigger] goals[j].goal_id as int) == id;
            lemma_first_match_exists(goals, id, j);
            let k = choose|k: int| is_first_match(goals, id, k);
            lemma_i64_text_round_trip(goals[k].goal_id);
            assert(parse_i64_text(id) == Some(goals[k].goal_id));
            assert(stat_row_goal(dims, goals) == Some((goals[k].goal_id, goals[k].name@, goals[k].status)));
        } else {
            if exists|k: int| is_first_match(goals, id, k) {
                let k = choose|k: int| is_first_match(goals, id, k);
                assert(int_text(goals[k].goal_id as int) == id);
            }
        }
    }
}

/// The goal a row resolves to carries the id of the goal it was matched to:
/// reading the id from the row's text gives back that goal's own id.
pub proof fn lemma_stat_row_goal_id(dims: Seq<Dimension>, goals: Seq<Goal>)
    ensures
        stat_row_goal(dims, goals) matches Some(t) ==> exists|j: int|
            is_first_match(goals, dims[0].id@, j) && t.0 == goals[j].goal_id && t.1 == goals[j].name@
                && t.2 == goals[j].status,
{
    if let Some(t) = stat_row_goal(dims, goals) {
        let id = dims[0].id@;
        let j = choose|j: int| is_first_match(goals, id, j);
        lemma_i64_text_round_trip(goals[j].goal_id);
        assert(is_first_match(goals, id, j));
    }
}

/// Where a statistics request stands.
#[derive(Debug)]
pub enum StatFetchPhase {
    /// Nothing was done yet.
    Start,
    /// The goals kept for the counter are being read.
    AwaitGoals,
    /// The request waits before asking the API: the `next`-th pause of one
    /// second more each, then the request at `url` for `goals`.
    Pausing { url: String, goals: Vec<Goal>, next: usize },
    /// The API was asked for the visits of `goals`; its status is awaited.
    AwaitStatus { goals: Vec<Goal> },
    /// The API answered with an error; its error body is awaited.
    AwaitError,
    /// The request has its answer, or its answer is being read.
    Done,
}

/// A request for the statistics of the selected goals of a counter over a
/// period given by its first and last day.
#[derive(Debug)]
pub struct StatFetch {
    pub counter_id: i64,
    pub start: String,
    pub end: String,
    pub phase: StatFetchPhase,
}

/// What the outside world reports to a statistics request.
#[derive(Debug)]
pub enum StatFetchEvent {
    /// The request starts.
    Begin,
    /// The goals kept for the counter were read.
    GoalsLoaded(GoalClient),
    /// The pause asked for is over.
    Paused,
    /// The Metrika API answered with this HTTP status.
    ApiStatus(u16),
    /// The Metrika API's error body was read.
    ErrorBody(ErrorResponseMetrika),
}

/// What a statistics request asks the outside world to do next.
#[derive(Debug)]
pub enum StatFetchAction {
    /// Read the goals kept for this counter.
    LoadGoals(i64),
    /// The period's days are not dates: the request is refused without an
    /// answer (the service fails on such a request).
    RejectDates,
    /// Wait this many seconds.
    Pause(u64),
    /// Ask the Metrika API at this address.
    CallApi(String),
    /// Read the API's answer as the statistics of these goals.
    ReadStatistics(Vec<Goal>),
    /// Read the API's answer as an error body.
    ReadErrorBody,
    /// Answer the request with this error.
    Fail(MetrikaError),
    /// The report does not fit where the request stands; nothing to do.
    Ignore,
}

impl StatFetch {
    /// A request for the statistics of counter `id` from day `start` to
    /// day `end`.
    pub fn new(id: i64, start: String, end: String) -> (f: StatFetch)
        ensures
            f.counter_id == id,
            f.start == start,
            f.end == end,
            f.phase is Start,
    {
        StatFetch { counter_id: id, start, end, phase: StatFetchPhase::Start }
    }

    /// Takes the request one step further on a report from outside.
    ///
    /// The goals kept for the counter are read; with none selected the
    /// request fails. Otherwise the period is read as dates, the request
    /// pauses once per selected goal, for 0, 1, 2, ... seconds, and then
    /// asks the API for the visits of the selected goals. An error answer
    /// fails with the API's message; a success is read as statistics.
    pub fn step(self, event: StatFetchEvent) -> (r: (StatFetch, StatFetchAction))
        ensures
            r.0.counter_id == self.counter_id,
            r.0.start == self.start,
            r.0.end == self.end,
            match (self.phase, event) {
                (StatFetchPhase::Start, StatFetchEvent::Begin) => {
                    &&& r.0.phase is AwaitGoals
                    &&& r.1 == StatFetchAction::LoadGoals(self.counter_id)
                },
                (StatFetchPhase::AwaitGoals, StatFetchEvent::GoalsLoaded(c)) => {
                    let selected = selected_goals(c.goals@);
                    if selected.len() == 0 {
                        r.0.phase is Done && r.1 == StatFetchAction::Fail(MetrikaError::NoSelectedGoals)
                    } else if !(is_date(self.start@) && is_date(self.end@)) {
                        r.0.phase is Done && r.1 is RejectDates
                    } else {
                        &&& r.0.phase matches StatFetchPhase::Pausing { url, goals, next }
                            && goals@ == selected && next == 1
                            && url@ == stat_url_text(
                                normalized_date(self.start@).unwrap(),
                                normalized_date(self.end@).unwrap(),
                                self.counter_id,
                                selected,
                            )
                        &&& r.1 == StatFetchAction::Pause(0)
                    }
                },
                (StatFetchPhase::Pausing { url, goals, next }, StatFetchEvent::Paused) => if next < goals@.len() {
                    &&& r.0.phase == (StatFetchPhase::Pausing { url, goals, next: (next + 1) as usize })
                    &&& r.1 == StatFetchAction::Pause(next as u64)
                } else {
                    &&& r.0.phase == (StatFetchPhase::AwaitStatus { goals })
                    &&& r.1 == StatFetchAction::CallApi(url)
                },
                (StatFetchPhase::AwaitStatus { goals }, StatFetchEvent::ApiStatus(code)) => if code == 200 {
                    r.0.phase is Done && r.1 == StatFetchAction::ReadStatistics(goals)
                } else {
                    r.0.phase is AwaitError && r.1 is ReadErrorBody
                },
                (StatFetchPhase::AwaitError, StatFetchEvent::ErrorBody(e)) => {
                    r.0.phase is Done && r.1 == StatFetchAction::Fail(MetrikaError::Api(e.message))
                },
                (phase, _) => r.0.phase == phase && r.1 is Ignore,
            },
    {
        let StatFetch { counter_id: id, start, end, phase } = self;
        match (phase, event) {
            (StatFetchPhase::Start, StatFetchEvent::Begin) => (
                StatFetch { counter_id: id, start, end, phase: StatFetchPhase::AwaitGoals },
                StatFetchAction::LoadGoals(id),
            ),
            (StatFetchPhase::AwaitGoals, StatFetchEvent::GoalsLoaded(c)) => {
                let selected = active_goals(&c.goals);
                if selected.len() == 0 {
                    return (
                        StatFetch { counter_id: id, start, end, phase: StatFetchPhase::Done },
                        StatFetchAction::Fail(MetrikaError::NoSelectedGoals),
                    );
                }
                match try_calc_data(start.clone(), end.clone()) {
                    None => (
                        StatFetch { counter_id: id, start, end, phase: StatFetchPhase::Done },
                        StatFetchAction::RejectDates,
                    ),
                    Some(period) => {
                        let url = stat_url(&period.0, &period.1, id, &selected);
                        (
                            StatFetch {
                                counter_id: id,
                                start,
                                end,
                                phase: StatFetchPhase::Pausing { url, goals: selected, next: 1 },
                            },
                            StatFetchAction::Pause(0),
                        )
                    },
                }
            },
            (StatFetchPhase::Pausing { url, goals, next }, StatFetchEvent::Paused) => {
                if next < goals.len() {
                    (
                        StatFetch { counter_id: id, start, end, phase: StatFetchPhase::Pausing { url, goals, next: next + 1 } },
                        StatFetchAction::Pause(next as u64),
                    )
                } else {
                    (
                        StatFetch { counter_id: id, start, end, phase: StatFetchPhase::AwaitStatus { goals } },
                        StatFetchAction::CallApi(url),
                    )
                }
            },
            (StatFetchPhase::AwaitStatus { goals }, StatFetchEvent::ApiStatus(code)) => {
                if code == 200 {
                    (
                        StatFetch { counter_id: id, start, end, phase: StatFetchPhase::Done },
                        StatFetchAction::ReadStatistics(goals),
                    )
                } else {
                    (
                        StatFetch { counter_id: id, start, end, phase: StatFetchPhase::AwaitError },
                        StatFetchAction::ReadErrorBody,
                    )
                }
            },
            (StatFetchPhase::AwaitError, StatFetchEvent::ErrorBody(e)) => (
                StatFetch { counter_id: id, start, end, phase: StatFetchPhase::Done },
                StatFetchAction::Fail(MetrikaError::Api(e.message)),
            ),
            (phase, _) => (StatFetch { counter_id: id, start, end, phase }, StatFetchAction::Ignore),
        }
    }
}

} // verus!
