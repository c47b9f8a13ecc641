//! Decimal text of integers: how an integer is written and read back.

use vstd::prelude::*;

verus! {

/// The character of a decimal digit.
pub open spec fn digit_char(d: int) -> char {
    if d == 0 { '0' }
    else if d == 1 { '1' }
    else if d == 2 { '2' }
    else if d == 3 { '3' }
    else if d == 4 { '4' }
    else if d == 5 { '5' }
    else if d == 6 { '6' }
    else if d == 7 { '7' }
    else if d == 8 { '8' }
    else { '9' }
}

/// Whether a character is an ASCII decimal digit.
pub open spec fn is_digit(c: char) -> bool {
    '0' <= c && c <= '9'
}

/// The value of a decimal digit character.
pub open spec fn digit_value(c: char) -> int {
    c as int - '0' as int
}

/// The decimal digits of a natural number, most significant first, with no
/// leading zero (zero itself is written `0`).
pub open spec fn nat_text(n: nat) -> Seq<char>
    decreases n,
{
    if n < 10 {
        seq![digit_char(n as int)]
    } else {
        nat_text(n / 10).push(digit_char((n % 10) as int))
    }
}

/// The decimal text of an integer: a minus sign before the digits of its
/// magnitude when it is negative.
pub open spec fn int_text(n: int) -> Seq<char> {
    if n < 0 {
        seq!['-'] + nat_text((-n) as nat)
    } else {
        nat_text(n as nat)
    }
}

/// The magnitude of an integer.
pub open spec fn magnitude(n: int) -> nat {
    if n < 0 { (-n) as nat } else { n as nat }
}

/// Whether every character of a text is a decimal digit.
pub open spec fn all_digits(s: Seq<char>) -> bool {
    forall|i: int| 0 <= i < s.len() ==> #[trigger] is_digit(s[i])
}

/// The number written by a text of decimal digits.
pub open spec fn digits_value(s: Seq<char>) -> nat
    decreases s.len(),
{
    if s.len() == 0 {
        0
    } else {
        (digits_value(s.drop_last()) * 10 + digit_value(s.last())) as nat
    }
}

/// The digits that follow an optional leading sign.
pub open spec fn unsigned_part(s: Seq<char>) -> Seq<char> {
    if s.len() > 0 && (s[0] == '-' || s[0] == '+') { s.drop_first() } else { s }
}

/// Whether a text starts with a minus sign.
pub open spec fn has_minus(s: Seq<char>) -> bool {
    s.len() > 0 && s[0] == '-'
}

/// The signed number that a text writes: an optional `+` or `-`, then one
/// digit or more, and nothing else.
pub open spec fn signed_value(s: Seq<char>) -> int {
    if has_minus(s) { -digits_value(unsigned_part(s)) } else { digits_value(unsigned_part(s)) as int }
}

/// The `i64` that a text writes, when it writes one: the rule by which std
/// reads an `i64` from a string.
pub open spec fn parse_i64_text(s: Seq<char>) -> Option<i64> {
    let body = unsigned_part(s);
    if body.len() > 0 && all_digits(body) && i64::MIN <= signed_value(s) <= i64::MAX {
        Some(signed_value(s) as i64)
    } else {
        None
    }
}

/// The text of one decimal digit.
fn digit_str(d: u64) -> (s: &'static str)
    requires
        d < 10,
    ensures
        s@ == seq![digit_char(d as int)],
{
    if d == 0 {
        proof { reveal_strlit("0"); }
        "0"
    } else if d == 1 {
        proof { reveal_strlit("1"); }
        "1"
    } else if d == 2 {
        proof { reveal_strlit("2"); }
        "2"
    } else if d == 3 {
        proof { reveal_strlit("3"); }
        "3"
    } else if d == 4 {
        proof { reveal_strlit("4"); }
        "4"
    } else if d == 5 {
        proof { reveal_strlit("5"); }
        "5"
    } else if d == 6 {
        proof { reveal_strlit("6"); }
        "6"
    } else if d == 7 {
        proof { reveal_strlit("7"); }
        "7"
    } else if d == 8 {
        proof { reveal_strlit("8"); }
        "8"
    } else {
        proof { reveal_strlit("9"); }
        "9"
    }
}

/// The decimal text of an unsigned number.
pub fn u64_text(n: u64) -> (s: String)
    ensures
        s@ == nat_text(n as nat),
    decreases n,
{
    if n < 10 {
        String::from_str(digit_str(n))
    } else {
        let mut s = u64_text(n / 10);
        s.append(digit_str(n % 10));
        s
    }
}

/// The decimal text of a signed number, as `to_string` writes it.
pub fn i64_text(n: i64) -> (s: String)
    ensures
        s@ == int_text(n as int),
{
    if n < 0 {
        let m: u64 = if n == i64::MIN { 9223372036854775808u64 } else { (-n) as u64 };
        proof { reveal_strlit("-"); }
        let s = String::from_str("-");
        let s = s.concat(u64_text(m).as_str());
        s
    } else {
        u64_text(n as u64)
    }
}

/// The number an `i64` text reads as, before its range is checked; values
/// above the bound are all read as the bound, which lies above every `i64`
/// magnitude.
spec fn capped(v: nat, cap: nat) -> nat {
    if v < cap { v } else { cap }
}

/// Reads an `i64` from its decimal text, as `str::parse::<i64>` does: an
/// optional `+` or `-`, then one digit or more; `None` for any other text
/// and for a number out of range.
pub fn parse_i64(s: &str) -> (r: Option<i64>)
    ensures
        r == parse_i64_text(s@),
{
    let n = s.unicode_len();
    let mut start: usize = 0;
    let mut neg = false;
    if n > 0 {
        let c = s.get_char(0);
        if c == '-' {
            neg = true;
            start = 1;
        } else if c == '+' {
            start = 1;
        }
    }
    let ghost body = unsigned_part(s@);
    assert(body =~= s@.subrange(start as int, n as int));
    assert(neg == has_minus(s@));
    if start == n {
        return None;
    }
    let cap: u128 = 9223372036854775809;
    let mut acc: u128 = 0;
    let mut i: usize = start;
    while i < n
        invariant
            start <= i <= n,
            n == s@.len(),
            body =~= s@.subrange(start as int, n as int),
            body == unsigned_part(s@),
            neg == has_minus(s@),
            all_digits(body.take(i - start)),
            acc == capped(digits_value(body.take(i - start)), cap as nat),
            cap == 9223372036854775809,
        decreases n - i,
    {
        let c = s.get_char(i);
        if !(c >= '0' && c <= '9') {
            assert(!is_digit(body[i - start]));
            return None;
        }
        let d: u128 = (c as u32 - '0' as u32) as u128;
        let ghost k = i - start;
        assert(body.take(k + 1).drop_last() =~= body.take(k));
        assert(body.take(k + 1).last() == c);
        let next: u128 = acc * 10 + d;
        acc = if next > cap { cap } else { next };
        i = i + 1;
        assert(all_digits(body.take(i - start))) by {
            assert forall|j: int| 0 <= j < body.take(i - start).len() implies #[trigger] is_digit(
                body.take(i - start)[j],
            ) by {
                if j < k {
                    assert(body.take(k)[j] == body.take(i - start)[j]);
                }
            }
        }
    }
    assert(body.take(n - start) =~= body);
    if neg {
        if acc <= 9223372036854775808 {
            let v: i128 = 0i128 - acc as i128;
            Some(v as i64)
        } else {
            None
        }
    } else {
        if acc <= 9223372036854775807 {
            Some(acc as i64)
        } else {
            None
        }
    }
}

/// The digits of a natural number are digits, at least one, and read back
/// as the number.
pub proof fn lemma_nat_text_reads_back(n: nat)
    ensures
        nat_text(n).len() >= 1,
        all_digits(nat_text(n)),
        digits_value(nat_text(n)) == n,
    decreases n,
{
    if n < 10 {
        let t = nat_text(n);
        assert(t.drop_last() =~= Seq::<char>::empty());
        assert(digits_value(Seq::<char>::empty()) == 0);
        assert(digit_value(digit_char(n as int)) == n);
    } else {
        lemma_nat_text_reads_back(n / 10);
        let t = nat_text(n);
        assert(t.drop_last() =~= nat_text(n / 10));
        assert forall|i: int| 0 <= i < t.len() implies #[trigger] is_digit(t[i]) by {
            if i < t.len() - 1 {
                assert(t[i] == nat_text(n / 10)[i]);
            }
        }
    }
}

/// How a natural number is written: a number below ten is its one digit;
/// a larger one is the text of its tens followed by its last digit, and
/// never starts with a zero. A negative integer is a minus sign followed by
/// the text of its magnitude; any other integer is the text of the number.
pub proof fn lemma_nat_text_shape(n: nat)
    ensures
        n < 10 ==> nat_text(n).len() == 1 && nat_text(n)[0] as int == '0' as int + n,
        n >= 10 ==> nat_text(n).drop_last() == nat_text(n / 10) && nat_text(n).last() as int == '0' as int + n % 10,
        n >= 10 ==> nat_text(n)[0] != '0',
        forall|i: int| 0 <= i < nat_text(n).len() ==> '0' <= #[trigger] nat_text(n)[i] <= '9',
        int_text(n as int) == nat_text(n),
        n > 0 ==> int_text(-(n as int)) == seq!['-'] + nat_text(n),
    decreases n,
{
    lemma_nat_text_reads_back(n);
    let t = nat_text(n);
    assert forall|i: int| 0 <= i < t.len() implies '0' <= #[trigger] t[i] <= '9' by {
        assert(is_digit(t[i]));
    }
    if n >= 10 {
        lemma_nat_text_shape(n / 10);
        assert(t.drop_last() =~= nat_text(n / 10));
        assert(t[0] == nat_text(n / 10)[0]);
        if n / 10 < 10 {
            assert(n / 10 >= 1);
        }
    }
}

/// How std reads an `i64`: a text with a character that is neither a digit
/// nor a sign in front reads as nothing, so do the empty text and a lone
/// sign; a `+` in front of digits changes nothing; and every text of digits
/// without sign reads as the number it writes when that fits an `i64`.
pub proof fn lemma_parse_i64_rules(s: Seq<char>)
    ensures
        s.len() == 0 ==> parse_i64_text(s) is None,
        s == seq!['-'] || s == seq!['+'] ==> parse_i64_text(s) is None,
        (exists|i: int| 0 < i < s.len() && !('0' <= #[trigger] s[i] <= '9')) ==> parse_i64_text(s) is None,
        s.len() > 0 && !('0' <= s[0] <= '9' || s[0] == '-' || s[0] == '+') ==> parse_i64_text(s) is None,
        s.len() > 0 && ('0' <= s[0] <= '9') ==> parse_i64_text(seq!['+'] + s) == parse_i64_text(s),
        forall|n: nat| n <= i64::MAX ==> parse_i64_text(#[trigger] nat_text(n)) == Some(n as i64),
{
    if exists|i: int| 0 < i < s.len() && !('0' <= #[trigger] s[i] <= '9') {
        let i = choose|i: int| 0 < i < s.len() && !('0' <= #[trigger] s[i] <= '9');
        let body = unsigned_part(s);
        if s[0] == '-' || s[0] == '+' {
            assert(body[i - 1] == s[i]);
            assert(!is_digit(body[i - 1]));
        } else {
            assert(!is_digit(body[i]));
        }
    }
    if s.len() > 0 && !('0' <= s[0] <= '9' || s[0] == '-' || s[0] == '+') {
        assert(!is_digit(unsigned_part(s)[0]));
    }
    if s.len() > 0 && ('0' <= s[0] <= '9') {
        let p = seq!['+'] + s;
        assert(p.drop_first() =~= s);
        assert(unsigned_part(p) =~= s);
        assert(unsigned_part(s) =~= s);
    }
    assert forall|n: nat| n <= i64::MAX implies parse_i64_text(#[trigger] nat_text(n)) == Some(n as i64) by {
        lemma_i64_text_round_trip(n as i64);
    }
}

/// Reading back what `i64_text` writes gives the number that was written.
pub proof fn lemma_i64_text_round_trip(n: i64)
    ensures
        parse_i64_text(int_text(n as int)) == Some(n),
{
    let m = magnitude(n as int);
    lemma_nat_text_reads_back(m);
    let t = nat_text(m);
    let s = int_text(n as int);
    if n < 0 {
        assert(s.drop_first() =~= t);
        assert(unsigned_part(s) =~= t);
    } else {
        assert(is_digit(t[0]));
        assert(unsigned_part(s) =~= t);
    }
}

/// Ten to the power `k`.
pub open spec fn ten_pow(k: nat) -> nat
    decreases k,
{
    if k == 0 { 1 } else { 10 * ten_pow((k - 1) as nat) }
}

/// A natural number is written with more than `k` digits exactly when it
/// is at least ten to the power `k`.
pub proof fn lemma_digit_count(n: nat, k: nat)
    requires
        k >= 1,
    ensures
        nat_text(n).len() > k <==> n >= ten_pow(k),
    decreases k,
{
    lemma_ten_pow_positive((k - 1) as nat);
    assert(ten_pow(k) == 10 * ten_pow((k - 1) as nat));
    if n < 10 {
        assert(nat_text(n).len() == 1);
    } else {
        lemma_nat_text_reads_back(n / 10);
        assert(nat_text(n).len() == nat_text(n / 10).len() + 1);
        if k == 1 {
            assert(ten_pow(0) == 1);
        } else {
            lemma_digit_count(n / 10, (k - 1) as nat);
            lemma_ten_pow_positive((k - 1) as nat);
            let p = ten_pow((k - 1) as nat);
            assert(n / 10 >= p <==> n >= 10 * p);
        }
    }
}

/// Every power of ten is at least one.
pub proof fn lemma_ten_pow_positive(k: nat)
    ensures
        ten_pow(k) >= 1,
    decreases k,
{
    if k > 0 {
        lemma_ten_pow_positive((k - 1) as nat);
    }
}

} // verus!
