//! Cron schedules turned into systemd calendar expressions.
use vstd::prelude::*;
use vstd::string::StrSliceExecFns;
use crate::errors::SkateError;
use crate::text::{decimal, join2, owned, push_char, push_decimal};
#[allow(unused_imports)]
use cron::TimeUnitSpec;

verus! {

/// The values one field of a parsed schedule allows, and whether it allows every value.
#[derive(Debug)]
pub struct TimeUnitValues {
    pub all: bool,
    pub values: Vec<u32>,
}

/// The fields of a parsed cron schedule that a systemd timer needs.
#[derive(Debug)]
pub struct CronSchedule {
    pub days_of_week: TimeUnitValues,
    pub months: TimeUnitValues,
    pub days_of_month: TimeUnitValues,
    pub hours: TimeUnitValues,
    pub minutes: TimeUnitValues,
}

/// A field of a schedule as plain values.
pub struct TimeUnitView {
    pub all: bool,
    pub values: Seq<u32>,
}

/// A schedule as plain values.
pub struct CronScheduleView {
    pub days_of_week: TimeUnitView,
    pub months: TimeUnitView,
    pub days_of_month: TimeUnitView,
    pub hours: TimeUnitView,
    pub minutes: TimeUnitView,
}

impl View for TimeUnitValues {
    type V = TimeUnitView;

    open spec fn view(&self) -> TimeUnitView {
        TimeUnitView { all: self.all, values: self.values@ }
    }
}

impl View for CronSchedule {
    type V = CronScheduleView;

    open spec fn view(&self) -> CronScheduleView {
        CronScheduleView {
            days_of_week: self.days_of_week@,
            months: self.months@,
            days_of_month: self.days_of_month@,
            hours: self.hours@,
            minutes: self.minutes@,
        }
    }
}

/// The values of a field come in strictly increasing order.
pub open spec fn strictly_increasing(s: Seq<u32>) -> bool {
    forall|i: int, j: int| 0 <= i < j < s.len() ==> s[i] < s[j]
}

/// What `cron::Schedule::from_str` gives for a text, as plain values (`None` where it reports an
/// error).
pub uninterp spec fn cron_schedule_of(expr: Seq<char>) -> Option<CronScheduleView>;

/// Parses a cron expression with the `cron` crate (`Schedule::from_str`), keeping, for the
/// fields a timer needs, whether the field allows everything (`is_all`) and the allowed values
/// (`iter`). The result is a function of the text alone; the crate's source gives that the values
/// come from an ordered set, lowest first.
#[verifier::external_body]
fn parse_cron_schedule(expr: &str) -> (res: Option<CronSchedule>)
    ensures
        match res {
            Some(s) => cron_schedule_of(expr@) == Some(s@),
            None => cron_schedule_of(expr@) is None,
        },
        res matches Some(s) ==> strictly_increasing(s.days_of_week.values@) && strictly_increasing(
            s.months.values@,
        ) && strictly_increasing(s.days_of_month.values@) && strictly_increasing(s.hours.values@)
            && strictly_increasing(s.minutes.values@),
{
    let s = <cron::Schedule as std::str::FromStr>::from_str(expr).ok()?;
    Some(CronSchedule {
        days_of_week: TimeUnitValues { all: s.days_of_week().is_all(), values: s.days_of_week().iter().collect() },
        months: TimeUnitValues { all: s.months().is_all(), values: s.months().iter().collect() },
        days_of_month: TimeUnitValues { all: s.days_of_month().is_all(), values: s.days_of_month().iter().collect() },
        hours: TimeUnitValues { all: s.hours().is_all(), values: s.hours().iter().collect() },
        minutes: TimeUnitValues { all: s.minutes().is_all(), values: s.minutes().iter().collect() },
    })
}

/// Decimal renderings of a list of numbers, separated by commas.
pub open spec fn comma_list(vals: Seq<u32>) -> Seq<char>
    decreases vals.len(),
{
    if vals.len() == 0 {
        Seq::empty()
    } else if vals.len() == 1 {
        decimal(vals[0] as nat)
    } else {
        comma_list(vals.drop_last()) + seq![','] + decimal(vals.last() as nat)
    }
}

/// A field of a timer: `star` when the field allows every value, else its values.
pub open spec fn linearized(u: TimeUnitView, star: Seq<char>) -> Seq<char> {
    if u.all {
        star
    } else {
        comma_list(u.values)
    }
}

/// The characters that `str::trim` takes off (Unicode `White_Space`).
pub open spec fn is_whitespace(c: char) -> bool {
    ||| ('\u{9}' <= c && c <= '\u{d}')
    ||| c == ' '
    ||| c == '\u{85}'
    ||| c == '\u{a0}'
    ||| c == '\u{1680}'
    ||| ('\u{2000}' <= c && c <= '\u{200a}')
    ||| c == '\u{2028}'
    ||| c == '\u{2029}'
    ||| c == '\u{202f}'
    ||| c == '\u{205f}'
    ||| c == '\u{3000}'
}

/// The text without its leading and trailing whitespace (`str::trim`).
pub open spec fn trimmed(s: Seq<char>) -> Seq<char> {
    let start = if exists|i: int| 0 <= i < s.len() && !is_whitespace(s[i]) {
        choose|i: int|
            0 <= i < s.len() && !is_whitespace(s[i]) && forall|j: int| 0 <= j < i ==> is_whitespace(s[j])
    } else {
        s.len() as int
    };
    let end = if exists|i: int| 0 <= i < s.len() && !is_whitespace(s[i]) {
        choose|i: int|
            0 <= i < s.len() && !is_whitespace(s[i]) && forall|j: int| i < j < s.len() ==> is_whitespace(s[j])
    } else {
        s.len() as int - 1
    };
    s.subrange(start, end + 1)
}

pub(crate) fn whitespace(c: char) -> (res: bool)
    ensures
        res == is_whitespace(c),
{
    ('\u{9}' <= c && c <= '\u{d}') || c == ' ' || c == '\u{85}' || c == '\u{a0}' || c == '\u{1680}'
        || ('\u{2000}' <= c && c <= '\u{200a}') || c == '\u{2028}' || c == '\u{2029}' || c == '\u{202f}'
        || c == '\u{205f}' || c == '\u{3000}'
}

/// Takes leading and trailing whitespace off a text.
pub fn trim(s: &str) -> (res: String)
    ensures
        res@ == trimmed(s@),
{
    let n = s.unicode_len();
    let mut start: usize = 0;
    while start < n && whitespace(s.get_char(start))
        invariant
            n == s@.len(),
            start <= n,
            forall|j: int| 0 <= j < start ==> is_whitespace(s@[j]),
        decreases n - start,
    {
        start = start + 1;
    }
    if start == n {
        assert(!(exists|i: int| 0 <= i < s@.len() && !is_whitespace(s@[i])));
        assert(s@.subrange(n as int, n as int) =~= Seq::<char>::empty());
        return String::new();
    }
    let mut end: usize = n;
    while end > start && whitespace(s.get_char(end - 1))
        invariant
            n == s@.len(),
            start < n,
            !is_whitespace(s@[start as int]),
            start < end <= n,
            forall|j: int| end <= j < n ==> is_whitespace(s@[j]),
        decreases end,
    {
        end = end - 1;
    }
    proof {
        let a = choose|i: int|
            0 <= i < s@.len() && !is_whitespace(s@[i]) && forall|j: int| 0 <= j < i ==> is_whitespace(s@[j]);
        assert(0 <= a < s@.len() && !is_whitespace(s@[a]) && forall|j: int| 0 <= j < a ==> is_whitespace(s@[j]));
        if a < start {
            assert(is_whitespace(s@[a]));
        }
        if a > start {
            assert(is_whitespace(s@[start as int]));
        }
        let b = choose|i: int|
            0 <= i < s@.len() && !is_whitespace(s@[i]) && forall|j: int| i < j < s@.len() ==> is_whitespace(s@[j]);
        assert(0 <= b < s@.len() && !is_whitespace(s@[b]) && forall|j: int| b < j < s@.len() ==> is_whitespace(s@[j]));
        assert(!is_whitespace(s@[end - 1]));
        if b < end - 1 {
            assert(is_whitespace(s@[end - 1]));
        }
        if b > end - 1 {
            assert(is_whitespace(s@[b]));
        }
    }
    owned(s.substring_char(start, end))
}

/// Appends a field of a timer to `out`.
pub fn linearize_time_unit(out: &mut String, input: &TimeUnitValues, star: &str)
    ensures
        final(out)@ == old(out)@ + linearized(input@, star@),
{
    if input.all {
        out.append(star);
    } else {
        let mut i: usize = 0;
        let ghost start = out@;
        while i < input.values.len()
            invariant
                i <= input.values@.len(),
                out@ == start + comma_list(input.values@.take(i as int)),
            decreases input.values.len() - i,
        {
            proof {
                assert(input.values@.take(i + 1).drop_last() =~= input.values@.take(i as int));
                assert(input.values@.take(i + 1).last() == input.values@[i as int]);
            }
            if i > 0 {
                push_char(out, ',');
            } else {
                assert(comma_list(input.values@.take(0)) =~= Seq::<char>::empty());
            }
            push_decimal(out, input.values[i] as u64);
            proof {
                if i == 0 {
                    assert(out@ =~= start + decimal(input.values@[0] as nat));
                } else {
                    assert(out@ =~= start + (comma_list(input.values@.take(i as int)) + seq![','] + decimal(
                        input.values@[i as int] as nat,
                    )));
                }
            }
            i = i + 1;
        }
        assert(input.values@.take(input.values@.len() as int) =~= input.values@);
    }
}

/// The systemd calendar expression, before trimming, for a schedule and a time zone:
/// `DOW *-MONTH-DAY HOUR:MINUTE:00 TZ`.
pub open spec fn timer_text(s: CronScheduleView, tz: Seq<char>) -> Seq<char> {
    linearized(s.days_of_week, Seq::empty()) + " *-"@ + linearized(s.months, "*"@) + "-"@ + linearized(
        s.days_of_month,
        "*"@,
    ) + " "@ + linearized(s.hours, "*"@) + ":"@ + linearized(s.minutes, "*"@) + ":00 "@ + tz
}

/// The systemd calendar expression for a parsed schedule and a time zone.
pub fn systemd_timer_for(schedule: &CronSchedule, time_zone: &str) -> (res: String)
    ensures
        res@ == trimmed(timer_text(schedule@, time_zone@)),
{
    let mut s = String::new();
    linearize_time_unit(&mut s, &schedule.days_of_week, "");
    s.append(" *-");
    linearize_time_unit(&mut s, &schedule.months, "*");
    s.append("-");
    linearize_time_unit(&mut s, &schedule.days_of_month, "*");
    s.append(" ");
    linearize_time_unit(&mut s, &schedule.hours, "*");
    s.append(":");
    linearize_time_unit(&mut s, &schedule.minutes, "*");
    s.append(":00 ");
    s.append(time_zone);
    proof {
        reveal_strlit("");
        assert(""@ =~= Seq::<char>::empty());
    }
    trim(s.as_str())
}

/// The systemd timer expression for a cron expression (five fields) in a time zone. The
/// expression gets a seconds field of `0` in front before it is parsed; one that does not
/// parse is an error.
pub fn cron_to_systemd(cron_expr: &str, time_zone: &str) -> (res: Result<String, SkateError>)
    ensures
        match cron_schedule_of("0 "@ + cron_expr@) {
            Some(s) => res matches Ok(t) && t@ == trimmed(timer_text(s, time_zone@)),
            None => res is Err,
        },
{
    let schedule = join2("0 ", cron_expr);
    match parse_cron_schedule(schedule.as_str()) {
        Some(s) => Ok(systemd_timer_for(&s, time_zone)),
        None => Err(SkateError::String(join2("failed to parse schedule from ", schedule.as_str()))),
    }
}

} // verus!
