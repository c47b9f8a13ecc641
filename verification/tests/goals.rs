use metrika::counter_info::CountInform;
use metrika::goal_client::{Goal as KeptGoal, GoalClient};
use metrika::goals::{Condition, Condition2, Goal, GoalCounter, Step};

fn goal(id: i64, name: &str, kind: &str, steps: Vec<Step>) -> Goal {
    Goal {
        id,
        name: name.to_string(),
        type_field: kind.to_string(),
        conditions: vec![Condition { type_field: "url".to_string(), url: "https://example.org".to_string() }],
        steps,
    }
}

fn step(id: i64, name: &str) -> Step {
    Step {
        id,
        name: name.to_string(),
        type_field: "url".to_string(),
        conditions: vec![Condition2 { type_field: "contain".to_string(), url: "/buy".to_string() }],
    }
}

fn views(c: &GoalClient) -> Vec<(i64, String, bool)> {
    c.goals.iter().map(|g| (g.goal_id, g.name.clone(), g.status)).collect()
}

#[test]
fn transform_keeps_single_kinds_and_expands_steps() {
    let counter = GoalCounter {
        goals: vec![
            goal(1, "Order", "action", vec![]),
            goal(2, "Visit page", "url", vec![]),
            goal(3, "Funnel", "step", vec![step(31, "Cart"), step(32, "Pay")]),
            goal(4, "Form", "form", vec![]),
            goal(5, "Chat", "messenger", vec![]),
            goal(6, "Call me", "phone", vec![]),
            goal(7, "VK", "social", vec![]),
            goal(8, "Calltracking", "call", vec![]),
            goal(9, "Other", "number", vec![]),
        ],
    };
    let r = GoalClient::transform_goals(counter, 12345).unwrap();
    assert_eq!(r.counter_id, 12345);
    assert_eq!(
        views(&r),
        vec![
            (1, "Order".to_string(), false),
            (3, "Funnel".to_string(), false),
            (31, "Funnel -> Cart".to_string(), false),
            (32, "Funnel -> Pay".to_string(), false),
            (4, "Form".to_string(), false),
            (5, "Chat".to_string(), false),
            (6, "Call me".to_string(), false),
            (7, "VK".to_string(), false),
            (8, "Calltracking".to_string(), false),
        ]
    );
}

#[test]
fn transform_of_nothing_is_empty() {
    let r = GoalClient::transform_goals(GoalCounter { goals: vec![] }, -7).unwrap();
    assert_eq!(r.counter_id, -7);
    assert!(r.goals.is_empty());
    let r = GoalClient::transform_goals(GoalCounter { goals: vec![goal(1, "A", "Action", vec![])] }, 1).unwrap();
    assert!(r.goals.is_empty());
}

#[test]
fn composite_goal_without_steps_is_kept_alone() {
    let r = GoalClient::transform_goals(GoalCounter { goals: vec![goal(3, "Funnel", "step", vec![])] }, 1).unwrap();
    assert_eq!(views(&r), vec![(3, "Funnel".to_string(), false)]);
}

#[test]
fn transform_distributes_over_concatenation() {
    let a = vec![goal(1, "A", "action", vec![]), goal(2, "B", "step", vec![step(21, "s")])];
    let b = vec![goal(3, "C", "unknown", vec![]), goal(4, "D", "call", vec![])];
    let whole: Vec<Goal> = a.iter().cloned().chain(b.iter().cloned()).collect();
    let ra = GoalClient::transform_goals(GoalCounter { goals: a }, 1).unwrap();
    let rb = GoalClient::transform_goals(GoalCounter { goals: b }, 1).unwrap();
    let rw = GoalClient::transform_goals(GoalCounter { goals: whole }, 1).unwrap();
    let mut joined = views(&ra);
    joined.extend(views(&rb));
    assert_eq!(views(&rw), joined);
    assert!(rw.goals.iter().all(|g| !g.status));
}

#[test]
fn goal_copies_are_equal() {
    let g = KeptGoal { goal_id: 5, name: "N".to_string(), status: true };
    let d = g.duplicate();
    assert_eq!((d.goal_id, d.name.as_str(), d.status), (5, "N", true));
    let c = GoalClient { counter_id: 9, goals: vec![g] };
    let copy = c.clone_goals();
    assert_eq!(copy.counter_id, 9);
    assert_eq!(views(&copy), views(&c));
}

#[test]
fn api_addresses() {
    assert_eq!(CountInform::counter_url(44147844), "https://api-metrika.yandex.net/management/v1/counter/44147844");
    assert_eq!(CountInform::counter_url(-3), "https://api-metrika.yandex.net/management/v1/counter/-3");
    assert_eq!(GoalCounter::goals_url(44147844), "https://api-metrika.yandex.net/management/v1/counter/44147844/goals");
}
