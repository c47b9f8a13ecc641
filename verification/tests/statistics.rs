use metrika::dates::{calc_data, format_date, try_calc_data};
use metrika::goal_client::Goal;
use metrika::statistics::{active_goals, resolve_stat_goals, resolve_stat_row, stat_url, Dimension};

fn g(id: i64, name: &str, status: bool) -> Goal {
    Goal { goal_id: id, name: name.to_string(), status }
}

fn dim(id: &str) -> Dimension {
    Dimension { id: id.to_string(), name: format!("goal {}", id) }
}

const PREFIX: &str = "https://api-metrika.yandex.ru/stat/v1/data?date1=2024-01-01&date2=2024-01-31&ids=12345&accuracy=full&dimensions=ym:s:goalDimension&filters=(ym:s:AUTOMATICAdvEngine=='ya_direct' or ym:s:AUTOMATICAdvEngine=='ya_undefined') and (ym:s:isRobot=='No')&metrics=";

#[test]
fn selects_goals_in_order() {
    let goals = vec![g(1, "a", true), g(2, "b", false), g(3, "c", true)];
    let sel = active_goals(&goals);
    assert_eq!(sel.iter().map(|x| x.goal_id).collect::<Vec<_>>(), vec![1, 3]);
    assert!(active_goals(&vec![g(1, "a", false)]).is_empty());
}

#[test]
fn statistics_address_lists_goal_metrics() {
    let d1 = "2024-01-01".to_string();
    let d2 = "2024-01-31".to_string();
    assert_eq!(stat_url(&d1, &d2, 12345, &vec![]), PREFIX.to_string());
    assert_eq!(stat_url(&d1, &d2, 12345, &vec![g(7, "x", true)]), format!("{}ym:s:goal7visits", PREFIX));
    assert_eq!(
        stat_url(&d1, &d2, 12345, &vec![g(7, "x", true), g(-8, "y", true), g(900, "z", true)]),
        format!("{}ym:s:goal7visits,ym:s:goal-8visits,ym:s:goal900visits", PREFIX)
    );
}

#[test]
fn dates_are_read_and_written_as_chrono_does() {
    let (a, b) = calc_data("2024-01-05".to_string(), "2024-1-5".to_string());
    assert_eq!(a, "2024-01-05");
    assert_eq!(b, "2024-01-05");
    assert_eq!(
        try_calc_data("987-2-28".to_string(), "2020-02-29".to_string()),
        Some(("0987-02-28".to_string(), "2020-02-29".to_string()))
    );
    assert_eq!(try_calc_data("2024-13-01".to_string(), "2024-01-01".to_string()), None);
    assert_eq!(try_calc_data("2024-01-01".to_string(), "2023-02-29".to_string()), None);
    assert_eq!(try_calc_data("foo".to_string(), "2024-01-01".to_string()), None);
    assert_eq!(try_calc_data("".to_string(), "".to_string()), None);
}

#[test]
fn dates_are_written_with_padded_fields() {
    assert_eq!(format_date(2024, 3, 9), "2024-03-09");
    assert_eq!(format_date(5, 12, 31), "0005-12-31");
    assert_eq!(format_date(-1, 1, 2), "-0001-01-02");
    assert_eq!(format_date(10000, 12, 31), "+10000-12-31");
    assert_eq!(format_date(-12345, 6, 7), "-12345-06-07");
}

#[test]
fn rows_resolve_to_the_first_goal_with_their_id() {
    let goals = vec![g(7, "seven", true), g(8, "eight", false), g(7, "again", false)];
    let r = resolve_stat_row(&vec![dim("7"), dim("x")], &goals).unwrap();
    assert_eq!((r.goal_id, r.name.as_str(), r.status), (7, "seven", true));
    let r = resolve_stat_row(&vec![dim("8")], &goals).unwrap();
    assert_eq!((r.goal_id, r.name.as_str(), r.status), (8, "eight", false));
}

#[test]
fn rows_that_name_no_goal_do_not_resolve() {
    let goals = vec![g(7, "seven", true)];
    assert!(resolve_stat_row(&vec![], &goals).is_none());
    assert!(resolve_stat_row(&vec![dim("abc")], &goals).is_none());
    assert!(resolve_stat_row(&vec![dim("007")], &goals).is_none());
    assert!(resolve_stat_row(&vec![dim("+7")], &goals).is_none());
    assert!(resolve_stat_row(&vec![dim("9")], &goals).is_none());
    assert!(resolve_stat_row(&vec![dim("7")], &vec![]).is_none());
}

#[test]
fn all_rows_resolve_or_none_does() {
    let goals = vec![g(1, "one", true), g(2, "two", true)];
    let rows = vec![vec![dim("2")], vec![dim("1"), dim("2")]];
    let r = resolve_stat_goals(&rows, &goals).unwrap();
    assert_eq!(r.iter().map(|x| (x.goal_id, x.name.clone())).collect::<Vec<_>>(), vec![(2, "two".to_string()), (1, "one".to_string())]);
    assert!(resolve_stat_goals(&vec![vec![dim("1")], vec![]], &goals).is_none());
    assert!(resolve_stat_goals(&vec![], &goals).unwrap().is_empty());
}
