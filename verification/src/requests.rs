//! Which client requests the service refuses before it does any work, and
//! the answer it gives them.

use vstd::prelude::*;
use crate::decimal::{magnitude, nat_text, u64_text, ten_pow, lemma_digit_count};
use crate::post_model::{GoalsUpdate, RequestGoals, RequestStatatics};

verus! {

/// The answer to a refused request: its HTTP status, the `status` word of
/// its JSON body, and the message it carries.
#[derive(Debug, Clone)]
pub struct Rejection {
    pub http_status: u16,
    pub status: String,
    pub message: String,
}

/// Whether a counter id is written with at least `k` digits, its sign left
/// out.
pub open spec fn has_digits(id: int, k: nat) -> bool {
    nat_text(magnitude(id)).len() >= k
}

/// The HTTP status of a refused request.
pub open spec fn bad_request() -> u16 {
    400
}

/// The message for a counter id shorter than five digits.
pub open spec fn five_digits_text() -> Seq<char> {
    "Счетчик не может быть меньше 5 цифр"@
}

/// The message for a counter id shorter than four digits.
pub open spec fn four_digits_text() -> Seq<char> {
    "Счетчик не может быть меньше 4 цифр"@
}

/// The message for an update with no goal.
pub open spec fn empty_update_text() -> Seq<char> {
    "Массив целей пуст"@
}

/// The message for a statistics request with an empty day.
pub open spec fn empty_period_text() -> Seq<char> {
    "Время начала и конца не могут быть пустыми"@
}

/// Whether a rejection is a bad request with this status word and message.
pub open spec fn is_rejection(r: Rejection, status: Seq<char>, message: Seq<char>) -> bool {
    r.http_status == bad_request() && r.status@ == status && r.message@ == message
}

/// Whether the decimal text of the magnitude of `id` has at least `k`
/// digits. The magnitude of `i64::MIN` overflows an `i64`, so it is left out.
pub fn counter_has_digits(id: i64, k: usize) -> (r: bool)
    requires
        id > i64::MIN,
    ensures
        r == has_digits(id as int, k as nat),
{
    let m: u64 = if id < 0 { (-id) as u64 } else { id as u64 };
    let text = u64_text(m);
    text.as_str().unicode_len() >= k
}

fn rejection(status: &str, message: &str) -> (r: Rejection)
    ensures
        r.http_status == bad_request(),
        r.status@ == status@,
        r.message@ == message@,
{
    Rejection { http_status: 400, status: String::from_str(status), message: String::from_str(message) }
}

/// Checks a request for the goals of a counter from the Metrika API: the
/// counter id must have at least five digits.
pub fn check_goals_request(req: &RequestGoals) -> (r: Option<Rejection>)
    requires
        req.id_count > i64::MIN,
    ensures
        r is None <==> has_digits(req.id_count as int, 5),
        r matches Some(x) ==> is_rejection(x, "error"@, five_digits_text()),
{
    if counter_has_digits(req.id_count, 5) {
        None
    } else {
        Some(rejection("error", "Счетчик не может быть меньше 5 цифр"))
    }
}

/// Checks a request about a counter kept by the service (its goals, or its
/// removal): the counter id must have at least four digits.
pub fn check_counter_request(req: &RequestGoals) -> (r: Option<Rejection>)
    requires
        req.id_count > i64::MIN,
    ensures
        r is None <==> has_digits(req.id_count as int, 4),
        r matches Some(x) ==> is_rejection(x, "error"@, four_digits_text()),
{
    if counter_has_digits(req.id_count, 4) {
        None
    } else {
        Some(rejection("error", "Счетчик не может быть меньше 4 цифр"))
    }
}

/// Checks an update of goal selections: it must hold at least one goal.
pub fn check_goals_update(update: &GoalsUpdate) -> (r: Option<Rejection>)
    ensures
        r is None <==> update.goals@.len() > 0,
        r matches Some(x) ==> is_rejection(x, "error"@, empty_update_text()),
{
    if update.goals.len() == 0 {
        Some(rejection("error", "Массив целей пуст"))
    } else {
        None
    }
}

/// Checks a statistics request: the counter id must have at least five
/// digits, and neither day of the period may be empty. These refusals carry
/// the status word `ok`.
pub fn check_statistics_request(req: &RequestStatatics) -> (r: Option<Rejection>)
    requires
        req.id_count > i64::MIN,
    ensures
        r is None <==> has_digits(req.id_count as int, 5) && req.date_start@.len() > 0 && req.date_end@.len() > 0,
        !has_digits(req.id_count as int, 5) ==> (r matches Some(x) && is_rejection(x, "ok"@, five_digits_text())),
        has_digits(req.id_count as int, 5) ==> (r matches Some(x) ==> is_rejection(x, "ok"@, empty_period_text())),
{
    if !counter_has_digits(req.id_count, 5) {
        return Some(rejection("ok", "Счетчик не может быть меньше 5 цифр"));
    }
    if req.date_start.as_str().is_empty() || req.date_end.as_str().is_empty() {
        return Some(rejection("ok", "Время начала и конца не могут быть пустыми"));
    }
    None
}

/// The HTTP status and `status` word of the answer to a request that was
/// carried out: 200 and `ok` when it succeeded, 400 and `error` when it
/// failed.
pub fn outcome_status(succeeded: bool) -> (r: (u16, String))
    ensures
        succeeded ==> r.0 == 200 && r.1@ == "ok"@,
        !succeeded ==> r.0 == bad_request() && r.1@ == "error"@,
{
    if succeeded {
        (200, String::from_str("ok"))
    } else {
        (400, String::from_str("error"))
    }
}

/// A counter id has at least `k + 1` digits exactly when its magnitude is at
/// least ten to the power `k`; so five digits mean a magnitude of at least
/// 10000 and four digits one of at least 1000, and an id accepted for the
/// Metrika goals is accepted for the kept goals and for removal.
pub proof fn lemma_counter_digits(id: int, k: nat)
    requires
        k >= 1,
    ensures
        has_digits(id, k + 1) <==> magnitude(id) >= ten_pow(k),
        has_digits(id, 5) <==> (id <= -10000 || id >= 10000),
        has_digits(id, 4) <==> (id <= -1000 || id >= 1000),
        has_digits(id, 5) ==> has_digits(id, 4),
{
    lemma_digit_count(magnitude(id), k);
    lemma_digit_count(magnitude(id), 4);
    lemma_digit_count(magnitude(id), 3);
    assert(ten_pow(4) == 10000) by {
        reveal_with_fuel(ten_pow, 5);
    }
    assert(ten_pow(3) == 1000) by {
        reveal_with_fuel(ten_pow, 4);
    }
}

} // verus!
