//! Dates of statistics requests: read as `%Y-%m-%d` by chrono and written
//! back as chrono writes a date.

use vstd::prelude::*;
use chrono::Datelike;
use crate::decimal::{digit_char, digits_value, lemma_digit_count, lemma_nat_text_reads_back, lemma_nat_text_shape, nat_text, u64_text};

verus! {

/// The year, month and day that chrono's `NaiveDate::parse_from_str` reads
/// from a text with the format `%Y-%m-%d`, when it reads a date from it.
pub uninterp spec fn chrono_ymd(s: Seq<char>) -> Option<(i32, u32, u32)>;

/// Calls chrono's `NaiveDate::parse_from_str` with the format `%Y-%m-%d`
/// and hands back the year, month and day of the date it read. The result
/// is named `chrono_ymd` of the text; besides, a date that chrono reads has
/// a month from 1 to 12 and a day from 1 to 31, as its `Datelike`
/// documentation states. Which texts chrono accepts is not stated.
#[verifier::external_body]
fn parse_ymd(s: &str) -> (r: Option<(i32, u32, u32)>)
    ensures
        r == chrono_ymd(s@),
        r matches Some(t) ==> 1 <= t.1 <= 12 && 1 <= t.2 <= 31,
{
    match chrono::NaiveDate::parse_from_str(s, "%Y-%m-%d") {
        Ok(date) => Some((date.year(), date.month(), date.day())),
        Err(_) => None,
    }
}

/// Digits padded on the left with zeros to at least `width` characters.
pub open spec fn zero_padded(digits: Seq<char>, width: nat) -> Seq<char> {
    if digits.len() < width {
        Seq::new((width - digits.len()) as nat, |i: int| '0') + digits
    } else {
        digits
    }
}

/// The year as chrono writes it in a date: four digits for the years 0 to
/// 9999; otherwise a sign and at least four digits.
pub open spec fn year_text(y: int) -> Seq<char> {
    if 0 <= y <= 9999 {
        zero_padded(nat_text(y as nat), 4)
    } else if y < 0 {
        seq!['-'] + zero_padded(nat_text((-y) as nat), 4)
    } else {
        seq!['+'] + zero_padded(nat_text(y as nat), 4)
    }
}

/// A date as chrono writes it: year, month and day, the last two in two
/// digits, joined by dashes.
pub open spec fn date_text(y: int, m: nat, d: nat) -> Seq<char> {
    year_text(y) + seq!['-'] + zero_padded(nat_text(m), 2) + seq!['-'] + zero_padded(nat_text(d), 2)
}

/// The character of a digit is `'0'` moved up by the digit.
proof fn lemma_digit_char(k: int)
    requires
        0 <= k < 10,
    ensures
        digit_char(k) as int == '0' as int + k,
{
}

/// A number below 100 padded to two digits is its tens digit and its units
/// digit.
proof fn lemma_two_digits(n: nat)
    requires
        n < 100,
    ensures
        zero_padded(nat_text(n), 2) == seq![digit_char(n as int / 10), digit_char(n as int % 10)],
{
    if n < 10 {
        assert(zero_padded(nat_text(n), 2) =~= seq!['0', digit_char(n as int)]);
    } else {
        assert(nat_text(n / 10) == seq![digit_char((n / 10) as int)]);
        assert(nat_text(n) =~= seq![digit_char(n as int / 10), digit_char(n as int % 10)]);
    }
}

/// A number below 10000 padded to four digits is its four decimal digits.
proof fn lemma_four_digits(n: nat)
    requires
        n < 10000,
    ensures
        zero_padded(nat_text(n), 4) == seq![
            digit_char(n as int / 1000),
            digit_char(n as int / 100 % 10),
            digit_char(n as int / 10 % 10),
            digit_char(n as int % 10),
        ],
{
    let a = n as int / 1000;
    let b = n as int / 100 % 10;
    let c = n as int / 10 % 10;
    let d = n as int % 10;
    if n < 10 {
        assert(zero_padded(nat_text(n), 4) =~= seq!['0', '0', '0', digit_char(d)]);
    } else if n < 100 {
        assert(nat_text(n / 10) == seq![digit_char((n / 10) as int)]);
        assert(nat_text(n) =~= seq![digit_char(c), digit_char(d)]);
        assert(zero_padded(nat_text(n), 4) =~= seq!['0', '0', digit_char(c), digit_char(d)]);
    } else if n < 1000 {
        assert(nat_text(n / 100) == seq![digit_char((n / 100) as int)]);
        assert((n / 10) / 10 == n / 100);
        assert(nat_text(n / 10) =~= seq![digit_char(b), digit_char(c)]);
        assert(nat_text(n) =~= seq![digit_char(b), digit_char(c), digit_char(d)]);
        assert(zero_padded(nat_text(n), 4) =~= seq!['0', digit_char(b), digit_char(c), digit_char(d)]);
    } else {
        assert(nat_text(n / 1000) == seq![digit_char((n / 1000) as int)]);
        assert((n / 100) / 10 == n / 1000);
        assert((n / 10) / 10 == n / 100);
        assert(nat_text(n / 100) =~= seq![digit_char(a), digit_char(b)]);
        assert(nat_text(n / 10) =~= seq![digit_char(a), digit_char(b), digit_char(c)]);
        assert(nat_text(n) =~= seq![digit_char(a), digit_char(b), digit_char(c), digit_char(d)]);
    }
}

/// The shape of a written date, for any month and day below 100: it ends
/// with a dash, the month's two digits, a dash and the day's two digits.
/// For the years 0 to 9999 it is exactly ten characters, the first four
/// being the year's digits; before other years stands their sign.
pub proof fn lemma_date_text_shape(y: int, m: nat, d: nat)
    requires
        m < 100,
        d < 100,
    ensures
        ({
            let t = date_text(y, m, d);
            let n = t.len();
            &&& n >= 10
            &&& t[n - 6] == '-'
            &&& t[n - 5] as int == '0' as int + m / 10
            &&& t[n - 4] as int == '0' as int + m % 10
            &&& t[n - 3] == '-'
            &&& t[n - 2] as int == '0' as int + d / 10
            &&& t[n - 1] as int == '0' as int + d % 10
            &&& 0 <= y <= 9999 ==> {
                &&& n == 10
                &&& t[0] as int == '0' as int + y / 1000
                &&& t[1] as int == '0' as int + y / 100 % 10
                &&& t[2] as int == '0' as int + y / 10 % 10
                &&& t[3] as int == '0' as int + y % 10
            }
            &&& y < 0 ==> t[0] == '-'
            &&& y > 9999 ==> t[0] == '+'
        }),
{
    lemma_two_digits(m);
    lemma_two_digits(d);
    lemma_digit_char(m as int / 10);
    lemma_digit_char(m as int % 10);
    lemma_digit_char(d as int / 10);
    lemma_digit_char(d as int % 10);
    let yt = year_text(y);
    let t = date_text(y, m, d);
    let mm = zero_padded(nat_text(m), 2);
    let dd = zero_padded(nat_text(d), 2);
    assert(t =~= yt + (seq!['-'] + mm + seq!['-'] + dd));
    if 0 <= y <= 9999 {
        lemma_four_digits(y as nat);
        lemma_digit_char(y / 1000);
        lemma_digit_char(y / 100 % 10);
        lemma_digit_char(y / 10 % 10);
        lemma_digit_char(y % 10);
        assert(yt.len() == 4);
    } else {
        let mag: nat = if y < 0 { (-y) as nat } else { y as nat };
        assert(zero_padded(nat_text(mag), 4).len() >= 4);
        assert(yt.len() >= 5);
    }
}

/// Zeros read as zero.
proof fn lemma_zeros_value(k: nat)
    ensures
        digits_value(Seq::new(k, |i: int| '0')) == 0,
    decreases k,
{
    if k > 0 {
        lemma_zeros_value((k - 1) as nat);
        assert(Seq::new(k, |i: int| '0').drop_last() =~= Seq::new((k - 1) as nat, |i: int| '0'));
    }
}

/// Zeros in front of digits do not change the number they write.
proof fn lemma_leading_zeros_value(k: nat, s: Seq<char>)
    ensures
        digits_value(Seq::new(k, |i: int| '0') + s) == digits_value(s),
    decreases s.len(),
{
    let z = Seq::new(k, |i: int| '0');
    if s.len() == 0 {
        assert(z + s =~= z);
        lemma_zeros_value(k);
    } else {
        lemma_leading_zeros_value(k, s.drop_last());
        assert((z + s).drop_last() =~= z + s.drop_last());
        assert((z + s).last() == s.last());
    }
}

/// The year of a date outside the years 0 to 9999 is written after its
/// sign in at least four digits, which read as the year's magnitude, with
/// no leading zero beyond those four (for any month and day below 100).
pub proof fn lemma_wide_year_text(y: int, m: nat, d: nat)
    requires
        y < 0 || y > 9999,
        m < 100,
        d < 100,
    ensures
        ({
            let t = date_text(y, m, d);
            let n = t.len();
            let digits = t.subrange(1, n - 6);
            &&& n >= 11
            &&& digits.len() >= 4
            &&& forall|i: int| 0 <= i < digits.len() ==> '0' <= #[trigger] digits[i] <= '9'
            &&& digits_value(digits) == if y < 0 { -y } else { y }
            &&& digits.len() > 4 ==> digits[0] != '0'
        }),
{
    let mag: nat = if y < 0 { (-y) as nat } else { y as nat };
    let dt = nat_text(mag);
    lemma_nat_text_reads_back(mag);
    lemma_nat_text_shape(mag);
    let p = zero_padded(dt, 4);
    let t = date_text(y, m, d);
    let mm = zero_padded(nat_text(m), 2);
    let dd = zero_padded(nat_text(d), 2);
    assert(year_text(y) =~= seq![if y < 0 { '-' } else { '+' }] + p);
    assert(t =~= seq![if y < 0 { '-' } else { '+' }] + p + (seq!['-'] + mm + seq!['-'] + dd));
    let digits = t.subrange(1, t.len() - 6);
    lemma_two_digits(m);
    lemma_two_digits(d);
    assert(digits =~= p);
    if dt.len() < 4 {
        lemma_leading_zeros_value((4 - dt.len()) as nat, dt);
        assert forall|i: int| 0 <= i < p.len() implies '0' <= #[trigger] p[i] <= '9' by {
            if i >= 4 - dt.len() {
                assert(p[i] == dt[i - (4 - dt.len())]);
            }
        }
    } else {
        if dt.len() > 4 {
            lemma_digit_count(mag, 4);
        }
    }
}

/// The date that chrono reads from a text, written back as chrono writes it.
pub open spec fn normalized_date(s: Seq<char>) -> Option<Seq<char>> {
    match chrono_ymd(s) {
        Some(t) => Some(date_text(t.0 as int, t.1 as nat, t.2 as nat)),
        None => None,
    }
}

/// The decimal digits of `n`, padded with zeros to at least `width`.
fn zero_padded_text(n: u64, width: usize) -> (s: String)
    ensures
        s@ == zero_padded(nat_text(n as nat), width as nat),
{
    let digits = u64_text(n);
    let len = digits.as_str().unicode_len();
    if len >= width {
        return digits;
    }
    let mut zeros = String::from_str("");
    proof {
        reveal_strlit("");
    }
    let mut k: usize = 0;
    while k < width - len
        invariant
            k <= width - len,
            len == digits@.len(),
            len < width,
            zeros@ =~= Seq::new(k as nat, |i: int| '0'),
        decreases width - len - k,
    {
        proof {
            reveal_strlit("0");
        }
        zeros.append("0");
        k = k + 1;
    }
    zeros.concat(digits.as_str())
}

/// Writes a date as chrono's `NaiveDate` writes itself.
pub fn format_date(y: i32, m: u32, d: u32) -> (s: String)
    ensures
        s@ == date_text(y as int, m as nat, d as nat),
{
    proof {
        reveal_strlit("-");
        reveal_strlit("+");
    }
    let year = if 0 <= y && y <= 9999 {
        zero_padded_text(y as u64, 4)
    } else if y < 0 {
        let magnitude: u64 = (0i64 - y as i64) as u64;
        String::from_str("-").concat(zero_padded_text(magnitude, 4).as_str())
    } else {
        String::from_str("+").concat(zero_padded_text(y as u64, 4).as_str())
    };
    let s = year.concat("-").concat(zero_padded_text(m as u64, 2).as_str()).concat("-");
    s.concat(zero_padded_text(d as u64, 2).as_str())
}

/// Whether chrono reads a date from a text.
pub open spec fn is_date(s: Seq<char>) -> bool {
    chrono_ymd(s) is Some
}

/// Reads the first and the last day of a statistics period and writes them
/// back as chrono writes dates (`YYYY-MM-DD` for the years 0 to 9999).
/// Both texts must be dates that chrono reads with `%Y-%m-%d`.
pub fn calc_data(start: String, end: String) -> (r: (String, String))
    requires
        is_date(start@),
        is_date(end@),
    ensures
        Some(r.0@) == normalized_date(start@),
        Some(r.1@) == normalized_date(end@),
{
    let s = parse_ymd(start.as_str());
    let e = parse_ymd(end.as_str());
    match (s, e) {
        (Some(a), Some(b)) => (format_date(a.0, a.1, a.2), format_date(b.0, b.1, b.2)),
        _ => {
            assert(false);
            (start, end)
        },
    }
}

/// The period of `calc_data` when both texts are dates that chrono reads,
/// and `None` otherwise.
pub fn try_calc_data(start: String, end: String) -> (r: Option<(String, String)>)
    ensures
        r is Some <==> is_date(start@) && is_date(end@),
        r matches Some(p) ==> Some(p.0@) == normalized_date(start@) && Some(p.1@) == normalized_date(end@),
{
    let s = parse_ymd(start.as_str());
    let e = parse_ymd(end.as_str());
    if s.is_some() && e.is_some() {
        Some(calc_data(start, end))
    } else {
        None
    }
}

} // verus!
