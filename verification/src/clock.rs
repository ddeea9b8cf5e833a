//! The local time, which names archives and staging directories.
use vstd::prelude::*;
use crate::decimal::{all_digits, digits_value};

verus! {

/// Whether `s` is two digits whose value lies in `lo..=hi`.
pub open spec fn two_digits_in(s: Seq<char>, lo: nat, hi: nat) -> bool {
    s.len() == 2 && all_digits(s) && lo <= digits_value(s) <= hi
}

/// Whether `y` is a year as strftime's `%Y` writes it: four digits, or a
/// sign followed by at least four digits for years outside 0 to 9999.
pub open spec fn year_text(y: Seq<char>) -> bool {
    (y.len() == 4 && all_digits(y)) || (y.len() >= 5 && (y[0] == '+' || y[0] == '-')
        && all_digits(y.skip(1)))
}

/// Whether `s` is a local time as `%Y%m%d_%H%M%S` writes it: the year, then
/// month (01 to 12), day (01 to 31), `_`, hour (00 to 23), minute (00 to 59)
/// and second (00 to 60), each of two digits.
pub open spec fn is_datetime_stamp(s: Seq<char>) -> bool {
    s.len() >= 15 && {
        let n = s.len() - 11;
        &&& year_text(s.take(n))
        &&& two_digits_in(s.subrange(n, n + 2), 1, 12)
        &&& two_digits_in(s.subrange(n + 2, n + 4), 1, 31)
        &&& s[n + 4] == '_'
        &&& two_digits_in(s.subrange(n + 5, n + 7), 0, 23)
        &&& two_digits_in(s.subrange(n + 7, n + 9), 0, 59)
        &&& two_digits_in(s.subrange(n + 9, n + 11), 0, 60)
    }
}

/// Trusted: calls `chrono::Local::now()` and formats it with
/// `DelayedFormat::to_string` under the strftime pattern `fmt`, which must
/// be `%Y%m%d_%H%M%S` (a pattern chrono cannot read makes `to_string`
/// panic). The time depends on the clock, so the contract states only the
/// shape that chrono's documentation gives for that pattern (`%Y`: the year
/// zero-padded to 4 digits, with a sign outside 0 to 9999; `%m`, `%d`, `%H`,
/// `%M`, `%S`: two digits in 01-12, 01-31, 00-23, 00-59, 00-60).
#[verifier::external_body]
fn local_now_formatted(fmt: &str) -> (r: String)
    requires
        fmt@ == "%Y%m%d_%H%M%S"@,
    ensures
        is_datetime_stamp(r@),
{
    chrono::Local::now().format(fmt).to_string()
}

/// The local date and time as `YYYYmmdd_HHMMSS`.
pub fn get_datetime() -> (r: String)
    ensures
        is_datetime_stamp(r@),
{
    local_now_formatted("%Y%m%d_%H%M%S")
}

/// A time stamp starts with a digit or a sign, never with `/`.
pub proof fn lemma_stamp_is_relative(s: Seq<char>)
    requires
        is_datetime_stamp(s),
    ensures
        s.len() > 0 && s[0] != '/',
{
    let n = s.len() - 11;
    let y = s.take(n);
    assert(y[0] == s[0]);
    if y.len() == 4 && all_digits(y) {
        assert(crate::decimal::is_digit(y[0]));
    }
}

} // verus!
