use metrika::error::MetrikaError;
use metrika::goal_client::Goal;
use metrika::post_model::{GoalsUpdate, RequestGoals, RequestStatatics};
use metrika::requests::{
    check_counter_request, check_goals_request, check_goals_update, check_statistics_request, counter_has_digits,
    outcome_status, Rejection,
};

fn parts(r: Option<Rejection>) -> Option<(u16, String, String)> {
    r.map(|x| (x.http_status, x.status, x.message))
}

const FIVE: &str = "Счетчик не может быть меньше 5 цифр";
const FOUR: &str = "Счетчик не может быть меньше 4 цифр";

#[test]
fn goals_requests_need_five_digits() {
    for id in [10000i64, -10000, 44147844, i64::MAX, i64::MIN + 1] {
        assert!(parts(check_goals_request(&RequestGoals { id_count: id })).is_none(), "{}", id);
    }
    for id in [9999i64, -9999, 0, 1, -1] {
        assert_eq!(
            parts(check_goals_request(&RequestGoals { id_count: id })),
            Some((400, "error".to_string(), FIVE.to_string()))
        );
    }
}

#[test]
fn counter_requests_need_four_digits() {
    assert!(check_counter_request(&RequestGoals { id_count: 1000 }).is_none());
    assert!(check_counter_request(&RequestGoals { id_count: -1000 }).is_none());
    assert_eq!(
        parts(check_counter_request(&RequestGoals { id_count: 999 })),
        Some((400, "error".to_string(), FOUR.to_string()))
    );
    assert!(counter_has_digits(-99999, 5));
    assert!(!counter_has_digits(99, 3));
    assert!(counter_has_digits(0, 1));
}

#[test]
fn updates_need_a_goal() {
    assert_eq!(
        parts(check_goals_update(&GoalsUpdate { goals: vec![] })),
        Some((400, "error".to_string(), "Массив целей пуст".to_string()))
    );
    let one = GoalsUpdate { goals: vec![Goal { goal_id: 1, name: "a".to_string(), status: true }] };
    assert!(check_goals_update(&one).is_none());
}

#[test]
fn statistics_requests_are_refused_with_status_ok() {
    let req = |id: i64, a: &str, b: &str| RequestStatatics { id_count: id, date_start: a.to_string(), date_end: b.to_string() };
    assert_eq!(parts(check_statistics_request(&req(1234, "", ""))), Some((400, "ok".to_string(), FIVE.to_string())));
    let empty = "Время начала и конца не могут быть пустыми".to_string();
    assert_eq!(parts(check_statistics_request(&req(12345, "", "2024-01-01"))), Some((400, "ok".to_string(), empty.clone())));
    assert_eq!(parts(check_statistics_request(&req(12345, "2024-01-01", ""))), Some((400, "ok".to_string(), empty)));
    assert!(check_statistics_request(&req(12345, "x", "y")).is_none());
}

#[test]
fn outcomes_and_error_messages() {
    assert_eq!(outcome_status(true), (200, "ok".to_string()));
    assert_eq!(outcome_status(false), (400, "error".to_string()));
    assert_eq!(MetrikaError::Api("Invalid token".to_string()).message(), "Invalid token");
    assert_eq!(MetrikaError::NoSelectedGoals.message(), "Нет выбранных целей");
}
