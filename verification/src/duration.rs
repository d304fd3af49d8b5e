//! ISO 8601 durations (`P1Y2M3DT4H5M6S`, `P2W`) as recipes give their times.
//!
//! A number is kept as it is written; its value is the `f32` that the
//! written form denotes, which is for the caller to compute.

use crate::text::{chars_of, string_of_range};
use vstd::prelude::*;

verus! {

/// One component of a duration.
pub enum Amount {
    /// Not given: zero.
    Zero,
    /// The number as written.
    Number(String),
    /// Seven days for each week, the number of weeks as written.
    Weeks(String),
}

/// The mathematical content of an `Amount`.
pub enum AmountView {
    Zero,
    Number(Seq<char>),
    Weeks(Seq<char>),
}

impl View for Amount {
    type V = AmountView;

    open spec fn view(&self) -> AmountView {
        match self {
            Amount::Zero => AmountView::Zero,
            Amount::Number(s) => AmountView::Number(s@),
            Amount::Weeks(s) => AmountView::Weeks(s@),
        }
    }
}

/// A duration, each component as written.
pub struct Duration {
    pub year: Amount,
    pub month: Amount,
    pub day: Amount,
    pub hour: Amount,
    pub minute: Amount,
    pub second: Amount,
}

/// The mathematical content of a `Duration`.
pub struct DurationView {
    pub year: AmountView,
    pub month: AmountView,
    pub day: AmountView,
    pub hour: AmountView,
    pub minute: AmountView,
    pub second: AmountView,
}

impl View for Duration {
    type V = DurationView;

    open spec fn view(&self) -> DurationView {
        DurationView {
            year: self.year@,
            month: self.month@,
            day: self.day@,
            hour: self.hour@,
            minute: self.minute@,
            second: self.second@,
        }
    }
}

/// The text is not an ISO 8601 duration.
pub enum DurationError {
    Invalid,
}

/// An ASCII decimal digit.
pub open spec fn is_digit(c: char) -> bool {
    '0' <= c <= '9'
}

/// A sign.
pub open spec fn is_sign(c: char) -> bool {
    c == '+' || c == '-'
}

/// The end of the run of digits that starts at `i`.
pub open spec fn digits_end(s: Seq<char>, i: int) -> int
    decreases s.len() - i,
{
    if 0 <= i < s.len() && is_digit(s[i]) {
        digits_end(s, i + 1)
    } else {
        i
    }
}

/// The end of a number's sign and mantissa at `i`: digits with an optional
/// point and optional fraction digits, or a point and fraction digits.
pub open spec fn mantissa_end(s: Seq<char>, i: int) -> Option<int> {
    let j = if 0 <= i < s.len() && is_sign(s[i]) {
        i + 1
    } else {
        i
    };
    let d = digits_end(s, j);
    if d > j {
        if d < s.len() && s[d] == '.' {
            Some(digits_end(s, d + 1))
        } else {
            Some(d)
        }
    } else if 0 <= j < s.len() && s[j] == '.' && digits_end(s, j + 1) > j + 1 {
        Some(digits_end(s, j + 1))
    } else {
        None
    }
}

/// `s[i]` is the letter given in lower and upper case.
pub open spec fn letter_at(s: Seq<char>, i: int, lower: char, upper: char) -> bool {
    0 <= i < s.len() && (s[i] == lower || s[i] == upper)
}

/// `nan` or `inf`, in any case, starts at `i`.
pub open spec fn special_at(s: Seq<char>, i: int) -> bool {
    ||| letter_at(s, i, 'n', 'N') && letter_at(s, i + 1, 'a', 'A') && letter_at(s, i + 2, 'n', 'N')
    ||| letter_at(s, i, 'i', 'I') && letter_at(s, i + 1, 'n', 'N') && letter_at(s, i + 2, 'f', 'F')
}

/// How a number scans at a position.
pub enum NumberScan {
    /// A number ends here.
    Match(int),
    /// No number starts here.
    NoMatch,
    /// An exponent marker without exponent digits: the whole parse fails.
    Cut,
}

/// The number at `i`: sign, mantissa and optional exponent, or `nan` / `inf`.
pub open spec fn number_scan(s: Seq<char>, i: int) -> NumberScan {
    match mantissa_end(s, i) {
        Some(k) => if 0 <= k < s.len() && (s[k] == 'e' || s[k] == 'E') {
            let j = if k + 1 < s.len() && is_sign(s[k + 1]) {
                k + 2
            } else {
                k + 1
            };
            if digits_end(s, j) > j {
                NumberScan::Match(digits_end(s, j))
            } else {
                NumberScan::Cut
            }
        } else {
            NumberScan::Match(k)
        },
        None => if special_at(s, i) {
            NumberScan::Match(i + 3)
        } else {
            NumberScan::NoMatch
        },
    }
}

/// How a number followed by a designator scans at a position.
pub enum Designated {
    /// The number as written, and where the designator ends.
    Value(Seq<char>, int),
    /// Not here.
    Absent,
    /// The whole parse fails.
    Failure,
}

/// The number followed by designator `d` at `i`.
pub open spec fn designated(s: Seq<char>, i: int, d: char) -> Designated {
    match number_scan(s, i) {
        NumberScan::Cut => Designated::Failure,
        NumberScan::NoMatch => Designated::Absent,
        NumberScan::Match(k) => if 0 <= k < s.len() && s[k] == d {
            Designated::Value(s.subrange(i, k), k + 1)
        } else {
            Designated::Absent
        },
    }
}

/// The amount an optional component gives.
pub open spec fn amount_of(d: Designated) -> AmountView {
    match d {
        Designated::Value(v, _) => AmountView::Number(v),
        _ => AmountView::Zero,
    }
}

/// Where scanning goes on after an optional component at `i`.
pub open spec fn after(d: Designated, i: int) -> int {
    match d {
        Designated::Value(_, e) => e,
        _ => i,
    }
}

/// How a duration format scans.
pub enum FormatScan {
    Parsed(DurationView, int),
    Error,
    Failure,
}

/// `{n}W`: `n` weeks.
pub open spec fn week_format(s: Seq<char>, i: int) -> FormatScan {
    match designated(s, i, 'W') {
        Designated::Value(w, e) => FormatScan::Parsed(
            DurationView {
                year: AmountView::Zero,
                month: AmountView::Zero,
                day: AmountView::Weeks(w),
                hour: AmountView::Zero,
                minute: AmountView::Zero,
                second: AmountView::Zero,
            },
            e,
        ),
        Designated::Absent => FormatScan::Error,
        Designated::Failure => FormatScan::Failure,
    }
}

/// `[{y}Y][{m}M][{d}D][T[{h}H][{m}M][{s}S]]`, at least one component given.
pub open spec fn basic_format(s: Seq<char>, i: int) -> FormatScan {
    let y = designated(s, i, 'Y');
    let i1 = after(y, i);
    let mo = designated(s, i1, 'M');
    let i2 = after(mo, i1);
    let d = designated(s, i2, 'D');
    let i3 = after(d, i2);
    let has_time = 0 <= i3 < s.len() && s[i3] == 'T';
    let h = designated(s, i3 + 1, 'H');
    let i4 = after(h, i3 + 1);
    let mi = designated(s, i4, 'M');
    let i5 = after(mi, i4);
    let se = designated(s, i5, 'S');
    let i6 = after(se, i5);
    if y is Failure || mo is Failure || d is Failure {
        FormatScan::Failure
    } else if has_time && (h is Failure || mi is Failure || se is Failure) {
        FormatScan::Failure
    } else {
        let v = DurationView {
            year: amount_of(y),
            month: amount_of(mo),
            day: amount_of(d),
            hour: if has_time {
                amount_of(h)
            } else {
                AmountView::Zero
            },
            minute: if has_time {
                amount_of(mi)
            } else {
                AmountView::Zero
            },
            second: if has_time {
                amount_of(se)
            } else {
                AmountView::Zero
            },
        };
        if v.year is Zero && v.month is Zero && v.day is Zero && v.hour is Zero && v.minute is Zero
            && v.second is Zero {
            FormatScan::Error
        } else {
            FormatScan::Parsed(
                v,
                if has_time {
                    i6
                } else {
                    i3
                },
            )
        }
    }
}

/// The duration that `s` writes: `P` followed by the week format or, where
/// that does not apply, the basic format, with nothing left over.
pub open spec fn iso_duration(s: Seq<char>) -> Option<DurationView> {
    if s.len() > 0 && s[0] == 'P' {
        let r = match week_format(s, 1) {
            FormatScan::Error => basic_format(s, 1),
            other => other,
        };
        match r {
            FormatScan::Parsed(v, e) => if e == s.len() {
                Some(v)
            } else {
                None
            },
            _ => None,
        }
    } else {
        None
    }
}

/// The end of the run of digits at `i`.
fn digits_end_exec(cs: &Vec<char>, i: usize) -> (r: usize)
    requires
        i <= cs.len(),
    ensures
        r == digits_end(cs@, i as int),
        i <= r <= cs.len(),
    decreases cs.len() - i,
{
    if i < cs.len() && '0' <= cs[i] && cs[i] <= '9' {
        digits_end_exec(cs, i + 1)
    } else {
        i
    }
}

/// The end of the sign and mantissa at `i`.
fn mantissa_end_exec(cs: &Vec<char>, i: usize) -> (r: Option<usize>)
    requires
        i <= cs.len(),
    ensures
        match r {
            Some(k) => mantissa_end(cs@, i as int) == Some(k as int) && i <= k <= cs.len(),
            None => mantissa_end(cs@, i as int) is None,
        },
{
    let j = if i < cs.len() && (cs[i] == '+' || cs[i] == '-') {
        i + 1
    } else {
        i
    };
    let d = digits_end_exec(cs, j);
    if d > j {
        if d < cs.len() && cs[d] == '.' {
            Some(digits_end_exec(cs, d + 1))
        } else {
            Some(d)
        }
    } else if j < cs.len() && cs[j] == '.' && digits_end_exec(cs, j + 1) > j + 1 {
        Some(digits_end_exec(cs, j + 1))
    } else {
        None
    }
}

/// Whether `cs[i]` is the letter given in lower and upper case.
fn letter_at_exec(cs: &Vec<char>, i: usize, lower: char, upper: char) -> (r: bool)
    ensures
        r == letter_at(cs@, i as int, lower, upper),
{
    i < cs.len() && (cs[i] == lower || cs[i] == upper)
}

/// The number at `i`: `Err` for a cut, else where a number there ends.
fn number_scan_exec(cs: &Vec<char>, i: usize) -> (r: Result<Option<usize>, ()>)
    requires
        i <= cs.len(),
    ensures
        match number_scan(cs@, i as int) {
            NumberScan::Cut => r is Err,
            NumberScan::NoMatch => r == Ok::<Option<usize>, ()>(None),
            NumberScan::Match(k) => r matches Ok(Some(e)) && e == k,
        },
        r matches Ok(Some(e)) ==> i <= e <= cs.len(),
{
    match mantissa_end_exec(cs, i) {
        Some(k) => {
            if k < cs.len() && (cs[k] == 'e' || cs[k] == 'E') {
                let j = if k + 1 < cs.len() && (cs[k + 1] == '+' || cs[k + 1] == '-') {
                    k + 2
                } else {
                    k + 1
                };
                let e = digits_end_exec(cs, j);
                if e > j {
                    Ok(Some(e))
                } else {
                    Err(())
                }
            } else {
                Ok(Some(k))
            }
        },
        None => {
            let nan = letter_at_exec(cs, i, 'n', 'N') && letter_at_exec(cs, i + 1, 'a', 'A')
                && letter_at_exec(cs, i + 2, 'n', 'N');
            let inf = letter_at_exec(cs, i, 'i', 'I') && letter_at_exec(cs, i + 1, 'n', 'N')
                && letter_at_exec(cs, i + 2, 'f', 'F');
            if nan || inf {
                Ok(Some(i + 3))
            } else {
                Ok(None)
            }
        },
    }
}

/// The number followed by designator `d` at `i`: `Err` when the whole parse
/// fails, else the number as written (if there) and where scanning goes on.
fn designated_exec(cs: &Vec<char>, i: usize, d: char) -> (r: Result<(Option<String>, usize), ()>)
    requires
        i <= cs.len(),
    ensures
        match designated(cs@, i as int, d) {
            Designated::Failure => r is Err,
            Designated::Absent => r matches Ok((None, end)) && end == i,
            Designated::Value(v, e) => r matches Ok((Some(lex), end)) && lex@ == v && end == e,
        },
        r matches Ok((_, end)) ==> i <= end <= cs.len(),
{
    match number_scan_exec(cs, i) {
        Err(()) => Err(()),
        Ok(None) => Ok((None, i)),
        Ok(Some(k)) => {
            if k < cs.len() && cs[k] == d {
                Ok((Some(string_of_range(cs, i, k)), k + 1))
            } else {
                Ok((None, i))
            }
        },
    }
}

/// The amount of an optional component.
fn amount(o: Option<String>) -> (r: Amount)
    ensures
        r@ == match o {
            Some(v) => AmountView::Number(v@),
            None => AmountView::Zero,
        },
{
    match o {
        Some(v) => Amount::Number(v),
        None => Amount::Zero,
    }
}

/// `{n}W` at `i`: `Err` when the whole parse fails, nothing when the format
/// does not apply, else the duration and where it ends.
fn week_format_exec(cs: &Vec<char>, i: usize) -> (r: Result<Option<(Duration, usize)>, ()>)
    requires
        i <= cs.len(),
    ensures
        match week_format(cs@, i as int) {
            FormatScan::Failure => r is Err,
            FormatScan::Error => r matches Ok(None),
            FormatScan::Parsed(v, e) => r matches Ok(Some((d, end))) && d@ == v && end == e,
        },
{
    match designated_exec(cs, i, 'W') {
        Err(()) => Err(()),
        Ok((None, _)) => Ok(None),
        Ok((Some(week), end)) => Ok(
            Some(
                (
                    Duration {
                        year: Amount::Zero,
                        month: Amount::Zero,
                        day: Amount::Weeks(week),
                        hour: Amount::Zero,
                        minute: Amount::Zero,
                        second: Amount::Zero,
                    },
                    end,
                ),
            ),
        ),
    }
}

/// `[{y}Y][{m}M][{d}D][T[{h}H][{m}M][{s}S]]` at `i`: `Err` when the whole
/// parse fails, nothing when no component is given, else the duration and
/// where it ends.
fn basic_format_exec(cs: &Vec<char>, i: usize) -> (r: Result<Option<(Duration, usize)>, ()>)
    requires
        i <= cs.len(),
    ensures
        match basic_format(cs@, i as int) {
            FormatScan::Failure => r is Err,
            FormatScan::Error => r matches Ok(None),
            FormatScan::Parsed(v, e) => r matches Ok(Some((d, end))) && d@ == v && end == e,
        },
{
    let (year, i1) = match designated_exec(cs, i, 'Y') {
        Err(()) => {
            return Err(());
        },
        Ok(p) => p,
    };
    let (month, i2) = match designated_exec(cs, i1, 'M') {
        Err(()) => {
            return Err(());
        },
        Ok(p) => p,
    };
    let (day, i3) = match designated_exec(cs, i2, 'D') {
        Err(()) => {
            return Err(());
        },
        Ok(p) => p,
    };
    let has_time = i3 < cs.len() && cs[i3] == 'T';
    let (hour, minute, second, end) = if has_time {
        let (hour, i4) = match designated_exec(cs, i3 + 1, 'H') {
            Err(()) => {
                return Err(());
            },
            Ok(p) => p,
        };
        let (minute, i5) = match designated_exec(cs, i4, 'M') {
            Err(()) => {
                return Err(());
            },
            Ok(p) => p,
        };
        let (second, i6) = match designated_exec(cs, i5, 'S') {
            Err(()) => {
                return Err(());
            },
            Ok(p) => p,
        };
        (hour, minute, second, i6)
    } else {
        (None, None, None, i3)
    };
    if year.is_none() && month.is_none() && day.is_none() && hour.is_none() && minute.is_none()
        && second.is_none() {
        Ok(None)
    } else {
        Ok(
            Some(
                (
                    Duration {
                        year: amount(year),
                        month: amount(month),
                        day: amount(day),
                        hour: amount(hour),
                        minute: amount(minute),
                        second: amount(second),
                    },
                    end,
                ),
            ),
        )
    }
}

/// The duration that `s` writes, if it writes one.
fn scan_duration(s: &str) -> (r: Option<Duration>)
    ensures
        match iso_duration(s@) {
            Some(v) => r matches Some(d) && d@ == v,
            None => r is None,
        },
{
    let cs = chars_of(s);
    if cs.len() == 0 || cs[0] != 'P' {
        return None;
    }
    let scanned = match week_format_exec(&cs, 1) {
        Ok(None) => basic_format_exec(&cs, 1),
        other => other,
    };
    match scanned {
        Ok(Some((d, end))) => {
            if end == cs.len() {
                Some(d)
            } else {
                None
            }
        },
        _ => None,
    }
}

impl Duration {
    /// Whether `input` is an ISO 8601 duration: `P` followed by `{n}W`, or by
    /// `[{y}Y][{m}M][{d}D][T[{h}H][{m}M][{s}S]]` with at least one component,
    /// with nothing left over.
    pub fn is_duration(input: &str) -> (r: bool)
        ensures
            r == iso_duration(input@) is Some,
    {
        scan_duration(input).is_some()
    }

    /// The ISO 8601 duration that `input` writes.
    pub fn parse(input: &str) -> (r: Result<Duration, DurationError>)
        requires
            iso_duration(input@) is Some,
        ensures
            r matches Ok(d) && d@ == iso_duration(input@)->0,
    {
        match scan_duration(input) {
            Some(d) => Ok(d),
            None => Err(DurationError::Invalid),
        }
    }
}

/// A non-empty run of ASCII digits.
pub open spec fn all_digits(t: Seq<char>) -> bool {
    t.len() > 0 && forall|k: int| 0 <= k < t.len() ==> is_digit(#[trigger] t[k])
}

proof fn lemma_digits_end(s: Seq<char>, i: int, j: int)
    requires
        0 <= i <= j <= s.len(),
        forall|k: int| i <= k < j ==> is_digit(#[trigger] s[k]),
        j == s.len() || !is_digit(s[j]),
    ensures
        digits_end(s, i) == j,
    decreases j - i,
{
    if i < j {
        lemma_digits_end(s, i + 1, j);
    }
}

/// `PT{h}H{m}M`, the hours and minutes written in digits, is a duration of
/// `h` hours and `m` minutes and nothing else.
pub proof fn lemma_hours_and_minutes(h: Seq<char>, m: Seq<char>)
    requires
        all_digits(h),
        all_digits(m),
    ensures
        iso_duration(seq!['P', 'T'] + h + seq!['H'] + m + seq!['M']) == Some(
            DurationView {
                year: AmountView::Zero,
                month: AmountView::Zero,
                day: AmountView::Zero,
                hour: AmountView::Number(h),
                minute: AmountView::Number(m),
                second: AmountView::Zero,
            },
        ),
{
    let s = seq!['P', 'T'] + h + seq!['H'] + m + seq!['M'];
    let a: int = 2 + h.len() as int;
    let b: int = a + 1 + m.len();
    assert(s.len() == b + 1);
    assert(s[0] == 'P');
    assert(s[1] == 'T');
    assert forall|k: int| 2 <= k < a implies is_digit(#[trigger] s[k]) by {
        assert(s[k] == h[k - 2]);
    }
    assert(s[a] == 'H');
    assert forall|k: int| a + 1 <= k < b implies is_digit(#[trigger] s[k]) by {
        assert(s[k] == m[k - a - 1]);
    }
    assert(s[b] == 'M');
    lemma_digits_end(s, 1, 1);
    lemma_digits_end(s, 2, a);
    lemma_digits_end(s, a + 1, b);
    lemma_digits_end(s, s.len() as int, s.len() as int);
    assert(number_scan(s, 1) == NumberScan::NoMatch);
    assert(number_scan(s, 2) == NumberScan::Match(a));
    assert(number_scan(s, a + 1) == NumberScan::Match(b));
    assert(number_scan(s, s.len() as int) == NumberScan::NoMatch);
    assert(s.subrange(2, a) =~= h);
    assert(s.subrange(a + 1, b) =~= m);
}

/// `P{n}W`, the weeks written in digits, is a duration of `7 n` days and
/// nothing else.
pub proof fn lemma_weeks(n: Seq<char>)
    requires
        all_digits(n),
    ensures
        iso_duration(seq!['P'] + n + seq!['W']) == Some(
            DurationView {
                year: AmountView::Zero,
                month: AmountView::Zero,
                day: AmountView::Weeks(n),
                hour: AmountView::Zero,
                minute: AmountView::Zero,
                second: AmountView::Zero,
            },
        ),
{
    let s = seq!['P'] + n + seq!['W'];
    let a: int = 1 + n.len() as int;
    assert(s.len() == a + 1);
    assert(s[0] == 'P');
    assert forall|k: int| 1 <= k < a implies is_digit(#[trigger] s[k]) by {
        assert(s[k] == n[k - 1]);
    }
    assert(s[a] == 'W');
    lemma_digits_end(s, 1, a);
    assert(number_scan(s, 1) == NumberScan::Match(a));
    assert(s.subrange(1, a) =~= n);
}

/// A date part alone is a duration: `P{n}Y`, `P{n}M` and `P{n}D`, the
/// number written in digits, give `n` years, months or days and nothing
/// else; no time part is needed.
pub proof fn lemma_date_component(n: Seq<char>, designator: char)
    requires
        all_digits(n),
        designator == 'Y' || designator == 'M' || designator == 'D',
    ensures
        iso_duration(seq!['P'] + n + seq![designator]) == Some(
            DurationView {
                year: if designator == 'Y' {
                    AmountView::Number(n)
                } else {
                    AmountView::Zero
                },
                month: if designator == 'M' {
                    AmountView::Number(n)
                } else {
                    AmountView::Zero
                },
                day: if designator == 'D' {
                    AmountView::Number(n)
                } else {
                    AmountView::Zero
                },
                hour: AmountView::Zero,
                minute: AmountView::Zero,
                second: AmountView::Zero,
            },
        ),
{
    let s = seq!['P'] + n + seq![designator];
    let a: int = 1 + n.len() as int;
    assert(s.len() == a + 1);
    assert(s[0] == 'P');
    assert forall|k: int| 1 <= k < a implies is_digit(#[trigger] s[k]) by {
        assert(s[k] == n[k - 1]);
    }
    assert(s[a] == designator);
    lemma_digits_end(s, 1, a);
    lemma_digits_end(s, s.len() as int, s.len() as int);
    assert(number_scan(s, 1) == NumberScan::Match(a));
    assert(number_scan(s, s.len() as int) == NumberScan::NoMatch);
    assert(number_scan(s, s.len() + 1int) == NumberScan::NoMatch);
    assert(s.subrange(1, a) =~= n);
}

} // verus!
