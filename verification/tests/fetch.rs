use metrika::error::{ErrorDetail, ErrorResponseMetrika, MetrikaError};
use metrika::goal_client::{Goal as KeptGoal, GoalClient};
use metrika::goals::{Goal, GoalCounter, GoalsFetch, GoalsFetchAction, GoalsFetchEvent, GoalsFetchPhase};
use metrika::statistics::{StatFetch, StatFetchAction, StatFetchEvent, StatFetchPhase};

fn kept(id: i64, name: &str, status: bool) -> KeptGoal {
    KeptGoal { goal_id: id, name: name.to_string(), status }
}

fn api_error(message: &str) -> ErrorResponseMetrika {
    ErrorResponseMetrika {
        errors: vec![ErrorDetail { error_type: "invalid_token".to_string(), message: message.to_string() }],
        code: 403,
        message: message.to_string(),
    }
}

#[test]
fn goals_are_answered_from_the_store_when_it_has_some() {
    let (f, a) = GoalsFetch::new(12345).step(GoalsFetchEvent::Begin);
    assert!(matches!(a, GoalsFetchAction::LoadCache(12345)));
    let cache = GoalClient { counter_id: 12345, goals: vec![kept(1, "a", true)] };
    let (f, a) = f.step(GoalsFetchEvent::CacheLoaded(cache));
    match a {
        GoalsFetchAction::Finish(Ok(c)) => assert_eq!((c.counter_id, c.goals.len()), (12345, 1)),
        other => panic!("{:?}", other),
    }
    assert!(matches!(f.phase, GoalsFetchPhase::Done));
    let (_, a) = f.step(GoalsFetchEvent::Stored);
    assert!(matches!(a, GoalsFetchAction::Ignore));
}

#[test]
fn goals_are_fetched_transformed_stored_and_answered() {
    let (f, _) = GoalsFetch::new(12345).step(GoalsFetchEvent::Begin);
    let (f, a) = f.step(GoalsFetchEvent::CacheLoaded(GoalClient { counter_id: 12345, goals: vec![] }));
    match a {
        GoalsFetchAction::CallApi(url) => {
            assert_eq!(url, "https://api-metrika.yandex.net/management/v1/counter/12345/goals")
        },
        other => panic!("{:?}", other),
    }
    let (f, a) = f.step(GoalsFetchEvent::ApiStatus(200));
    assert!(matches!(a, GoalsFetchAction::ReadGoalsBody));
    let body = GoalCounter {
        goals: vec![Goal { id: 9, name: "Buy".to_string(), type_field: "action".to_string(), conditions: vec![], steps: vec![] }],
    };
    let (f, a) = f.step(GoalsFetchEvent::GoalsBody(body));
    match a {
        GoalsFetchAction::StoreGoals(d) => {
            assert_eq!(d.counter_id, 12345);
            assert_eq!(d.goals.len(), 1);
            assert_eq!((d.goals[0].goal_id, d.goals[0].name.as_str(), d.goals[0].status), (9, "Buy", false));
        },
        other => panic!("{:?}", other),
    }
    let (_, a) = f.step(GoalsFetchEvent::Stored);
    match a {
        GoalsFetchAction::Finish(Ok(d)) => assert_eq!((d.counter_id, d.goals[0].goal_id), (12345, 9)),
        other => panic!("{:?}", other),
    }
}

#[test]
fn goals_request_reports_the_api_message() {
    let (f, _) = GoalsFetch::new(12345).step(GoalsFetchEvent::Begin);
    let (f, _) = f.step(GoalsFetchEvent::CacheLoaded(GoalClient { counter_id: 12345, goals: vec![] }));
    let (f, a) = f.step(GoalsFetchEvent::ApiStatus(403));
    assert!(matches!(a, GoalsFetchAction::ReadErrorBody));
    let (_, a) = f.step(GoalsFetchEvent::ErrorBody(api_error("Invalid oauth_token")));
    match a {
        GoalsFetchAction::Finish(Err(MetrikaError::Api(m))) => assert_eq!(m, "Invalid oauth_token"),
        other => panic!("{:?}", other),
    }
}

#[test]
fn goals_request_ignores_reports_out_of_turn() {
    let (f, a) = GoalsFetch::new(1).step(GoalsFetchEvent::ApiStatus(200));
    assert!(matches!(a, GoalsFetchAction::Ignore));
    assert!(matches!(f.phase, GoalsFetchPhase::Start));
}

#[test]
fn statistics_request_pauses_once_per_goal_then_asks() {
    let f = StatFetch::new(12345, "2024-1-1".to_string(), "2024-01-31".to_string());
    let (f, a) = f.step(StatFetchEvent::Begin);
    assert!(matches!(a, StatFetchAction::LoadGoals(12345)));
    let goals = GoalClient { counter_id: 12345, goals: vec![kept(5, "a", true), kept(6, "b", false), kept(7, "c", true)] };
    let (f, a) = f.step(StatFetchEvent::GoalsLoaded(goals));
    assert!(matches!(a, StatFetchAction::Pause(0)));
    let (f, a) = f.step(StatFetchEvent::Paused);
    assert!(matches!(a, StatFetchAction::Pause(1)));
    let (f, a) = f.step(StatFetchEvent::Paused);
    match a {
        StatFetchAction::CallApi(url) => assert!(url.starts_with(
            "https://api-metrika.yandex.ru/stat/v1/data?date1=2024-01-01&date2=2024-01-31&ids=12345&accuracy=full&"
        ) && url.ends_with("&metrics=ym:s:goal5visits,ym:s:goal7visits")),
        other => panic!("{:?}", other),
    }
    let (f, a) = f.step(StatFetchEvent::ApiStatus(200));
    match a {
        StatFetchAction::ReadStatistics(g) => assert_eq!(g.iter().map(|x| x.goal_id).collect::<Vec<_>>(), vec![5, 7]),
        other => panic!("{:?}", other),
    }
    assert!(matches!(f.phase, StatFetchPhase::Done));
}

#[test]
fn statistics_request_fails_without_selected_goals() {
    let f = StatFetch::new(12345, "2024-01-01".to_string(), "2024-01-31".to_string());
    let (f, _) = f.step(StatFetchEvent::Begin);
    let (_, a) = f.step(StatFetchEvent::GoalsLoaded(GoalClient { counter_id: 12345, goals: vec![kept(1, "a", false)] }));
    assert!(matches!(a, StatFetchAction::Fail(MetrikaError::NoSelectedGoals)));
}

#[test]
fn statistics_request_refuses_bad_dates() {
    let f = StatFetch::new(12345, "2024-02-30".to_string(), "2024-03-01".to_string());
    let (f, _) = f.step(StatFetchEvent::Begin);
    let (_, a) = f.step(StatFetchEvent::GoalsLoaded(GoalClient { counter_id: 12345, goals: vec![kept(1, "a", true)] }));
    assert!(matches!(a, StatFetchAction::RejectDates));
}

#[test]
fn statistics_request_reports_the_api_message() {
    let f = StatFetch::new(12345, "2024-01-01".to_string(), "2024-01-31".to_string());
    let (f, _) = f.step(StatFetchEvent::Begin);
    let (f, _) = f.step(StatFetchEvent::GoalsLoaded(GoalClient { counter_id: 12345, goals: vec![kept(1, "a", true)] }));
    let (f, a) = f.step(StatFetchEvent::Paused);
    assert!(matches!(a, StatFetchAction::CallApi(_)));
    let (f, a) = f.step(StatFetchEvent::ApiStatus(400));
    assert!(matches!(a, StatFetchAction::ReadErrorBody));
    let (_, a) = f.step(StatFetchEvent::ErrorBody(api_error("Wrong parameter")));
    match a {
        StatFetchAction::Fail(MetrikaError::Api(m)) => assert_eq!(m, "Wrong parameter"),
        other => panic!("{:?}", other),
    }
}
