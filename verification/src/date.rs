use vstd::prelude::*;

verus! {

/// A calendar date as plain values: year, month (1-12), day (1-31).
#[derive(Debug, Clone, Copy, PartialEq, Eq, Structural)]
pub struct Date {
    pub year: i32,
    pub month: u8,
    pub day: u8,
}

/// A well-formed date has its month and day in calendar range.
pub open spec fn date_wf(d: Date) -> bool {
    1 <= d.month <= 12 && 1 <= d.day <= 31
}

/// What the day/month/year parser yields on `s`: a (year, month, day)
/// triple for a valid `DD/MM/YYYY` text, nothing otherwise.
pub uninterp spec fn dmy_parsed(s: Seq<char>) -> Option<(int, int, int)>;

/// What the year-month-day parser yields on `s`: a (year, month, day)
/// triple for a valid `YYYY-MM-DD` text, nothing otherwise.
pub uninterp spec fn ymd_parsed(s: Seq<char>) -> Option<(int, int, int)>;

/// Relies on chrono's NaiveDate::parse_from_str with format `%d/%m/%Y`:
/// the result depends on the text alone, and a parsed date is a valid
/// calendar date, so its month is 1-12 and its day 1-31.
#[verifier::external_body]
fn parse_dmy(s: &str) -> (r: Option<Date>)
    ensures
        match r {
            Some(d) => dmy_parsed(s@) == Some((d.year as int, d.month as int, d.day as int))
                && 1 <= d.month <= 12 && 1 <= d.day <= 31,
            None => dmy_parsed(s@) is None,
        },
{
    match chrono::NaiveDate::parse_from_str(s, "%d/%m/%Y") {
        Ok(d) => Some(
            Date { year: chrono::Datelike::year(&d), month: chrono::Datelike::month(&d) as u8, day: chrono::Datelike::day(&d) as u8 },
        ),
        Err(_) => None,
    }
}

/// Relies on chrono's NaiveDate::parse_from_str with format `%Y-%m-%d`:
/// the result depends on the text alone, and a parsed date is a valid
/// calendar date, so its month is 1-12 and its day 1-31.
#[verifier::external_body]
fn parse_ymd(s: &str) -> (r: Option<Date>)
    ensures
        match r {
            Some(d) => ymd_parsed(s@) == Some((d.year as int, d.month as int, d.day as int))
                && 1 <= d.month <= 12 && 1 <= d.day <= 31,
            None => ymd_parsed(s@) is None,
        },
{
    match chrono::NaiveDate::parse_from_str(s, "%Y-%m-%d") {
        Ok(d) => Some(
            Date { year: chrono::Datelike::year(&d), month: chrono::Datelike::month(&d) as u8, day: chrono::Datelike::day(&d) as u8 },
        ),
        Err(_) => None,
    }
}

/// Whether the text holds a `/`, which selects the day/month/year format.
pub open spec fn has_slash(s: Seq<char>) -> bool {
    exists|i: int| 0 <= i < s.len() && s[i] == '/'
}

/// Whether `s` contains a `/` character.
pub fn contains_slash(s: &str) -> (r: bool)
    ensures
        r == has_slash(s@),
{
    let n = s.unicode_len();
    let mut k: usize = 0;
    while k < n
        invariant
            n == s@.len(),
            k <= n,
            forall|i: int| 0 <= i < k ==> s@[i] != '/',
        decreases n - k,
    {
        let c = s.get_char(k);
        if c == '/' {
            return true;
        }
        k += 1;
    }
    false
}

/// The view of an optional string: the character sequence, if present.
pub open spec fn opt_str_view(s: Option<String>) -> Option<Seq<char>> {
    match s {
        None => None,
        Some(t) => Some(t@),
    }
}

/// What date a free-form optional date text denotes: nothing for no text,
/// the day/month/year reading when the text holds a `/`, the year-month-day
/// reading otherwise; nothing when the selected format rejects the text.
pub open spec fn date_text_parsed(s: Seq<char>) -> Option<(int, int, int)> {
    if has_slash(s) {
        dmy_parsed(s)
    } else {
        ymd_parsed(s)
    }
}

/// The normalized date for an optional date text.
pub open spec fn spec_normalize(s: Option<Seq<char>>) -> Option<Date> {
    match s {
        None => None,
        Some(t) => match date_text_parsed(t) {
            None => None,
            Some((y, m, d)) => Some(Date { year: y as i32, month: m as u8, day: d as u8 }),
        },
    }
}

/// Turns a free-form optional date text into a date, or nothing: absent
/// input and unparseable input both yield nothing, by design.
pub fn normalize_date(input: &Option<String>) -> (r: Option<Date>)
    ensures
        r == spec_normalize(opt_str_view(*input)),
        r matches Some(d) ==> date_wf(d),
{
    match input {
        None => None,
        Some(s) => {
            if contains_slash(s.as_str()) {
                parse_dmy(s.as_str())
            } else {
                parse_ymd(s.as_str())
            }
        }
    }
}

} // verus!
