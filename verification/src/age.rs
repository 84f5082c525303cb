//! Relative wall-clock ages for session rows: `now`, `23m`, `3h`, `7d`,
//! `2w`, `4mo`.
use vstd::prelude::*;
use crate::model::Workspace;

verus! {

/// The decimal digit `d`.
pub open spec fn digit_char(d: nat) -> char {
    if d == 0 { '0' } else if d == 1 { '1' } else if d == 2 { '2' } else if d == 3 { '3' }
    else if d == 4 { '4' } else if d == 5 { '5' } else if d == 6 { '6' } else if d == 7 { '7' }
    else if d == 8 { '8' } else { '9' }
}

/// `n` written in decimal, without leading zeros.
pub open spec fn decimal(n: nat) -> Seq<char>
    decreases n,
{
    if n < 10 {
        seq![digit_char(n)]
    } else {
        decimal(n / 10) + seq![digit_char(n % 10)]
    }
}

/// Seconds in a minute, hour, day, week and (31-day) month.
pub open spec fn minute() -> int { 60 }
pub open spec fn hour() -> int { 3600 }
pub open spec fn day() -> int { 86400 }
pub open spec fn week() -> int { 604800 }
pub open spec fn month() -> int { 2678400 }

/// The age label of a stamp `then` seen at `now`: under a minute (or in
/// the future) reads `now`; otherwise whole minutes, hours, days, weeks or
/// months, each unit used until the next one is reached.
pub open spec fn age_label(now: int, then: int) -> Seq<char> {
    let d = if now - then > 0 { now - then } else { 0 };
    if d < minute() {
        seq!['n', 'o', 'w']
    } else if d < hour() {
        decimal((d / minute()) as nat) + seq!['m']
    } else if d < day() {
        decimal((d / hour()) as nat) + seq!['h']
    } else if d < week() {
        decimal((d / day()) as nat) + seq!['d']
    } else if d < month() {
        decimal((d / week()) as nat) + seq!['w']
    } else {
        decimal((d / month()) as nat) + seq!['m', 'o']
    }
}

fn digit_str(d: u64) -> (r: &'static str)
    requires
        d < 10,
    ensures
        r@ == seq![digit_char(d as nat)],
{
    if d == 0 {
        proof { reveal_strlit("0"); }
        "0"
    } else if d == 1 {
        proof { reveal_strlit("1"); }
        "1"
    } else if d == 2 {
        proof { reveal_strlit("2"); }
        "2"
    } else if d == 3 {
        proof { reveal_strlit("3"); }
        "3"
    } else if d == 4 {
        proof { reveal_strlit("4"); }
        "4"
    } else if d == 5 {
        proof { reveal_strlit("5"); }
        "5"
    } else if d == 6 {
        proof { reveal_strlit("6"); }
        "6"
    } else if d == 7 {
        proof { reveal_strlit("7"); }
        "7"
    } else if d == 8 {
        proof { reveal_strlit("8"); }
        "8"
    } else {
        proof { reveal_strlit("9"); }
        "9"
    }
}

/// Appends `n` in decimal.
pub fn push_decimal(s: &mut String, n: u64)
    ensures
        final(s)@ == old(s)@ + decimal(n as nat),
    decreases n,
{
    if n >= 10 {
        push_decimal(s, n / 10);
    }
    s.append(digit_str(n % 10));
    assert(n < 10 ==> n % 10 == n);
}

fn count_with_unit(count: u64, unit: &str) -> (r: String)
    ensures
        r@ == decimal(count as nat) + unit@,
{
    let mut s = String::new();
    push_decimal(&mut s, count);
    s.append(unit);
    s
}

/// Relative age of `then_secs` seen at `now_secs`.
pub fn relative_time(now_secs: i64, then_secs: i64) -> (label: String)
    requires
        i64::MIN <= now_secs - then_secs <= i64::MAX,
    ensures
        label@ == age_label(now_secs as int, then_secs as int),
{
    let raw = now_secs - then_secs;
    let diff: i64 = if raw > 0 { raw } else { 0 };
    if diff <= 59 {
        proof { reveal_strlit("now"); }
        String::from_str("now")
    } else if diff <= 3599 {
        proof { reveal_strlit("m"); }
        count_with_unit((diff / 60) as u64, "m")
    } else if diff <= 86399 {
        proof { reveal_strlit("h"); }
        count_with_unit((diff / 3600) as u64, "h")
    } else if diff <= 604799 {
        proof { reveal_strlit("d"); }
        count_with_unit((diff / 86400) as u64, "d")
    } else if diff <= 2678399 {
        proof { reveal_strlit("w"); }
        count_with_unit((diff / 604800) as u64, "w")
    } else {
        proof { reveal_strlit("mo"); }
        count_with_unit((diff / 2678400) as u64, "mo")
    }
}

/// The stamp a row's age counts from: the settled stamp of a settled
/// session, the last activity otherwise.
pub open spec fn row_stamp(ws: Workspace) -> Option<i64> {
    match ws.settled {
        Some(t) => Some(t),
        None => ws.last_activity,
    }
}

/// The row age of `ws` seen at `now_secs`; `None` when the session has
/// neither stamp.
pub fn session_row_age_at(ws: &Workspace, now_secs: i64) -> (age: Option<String>)
    requires
        row_stamp(*ws) matches Some(t) ==> i64::MIN <= now_secs - t <= i64::MAX,
    ensures
        match row_stamp(*ws) {
            None => age is None,
            Some(t) => age matches Some(label) && label@ == age_label(now_secs as int, t as int),
        },
{
    let then = match ws.settled {
        Some(t) => t,
        None => match ws.last_activity {
            Some(t) => t,
            None => return None,
        },
    };
    Some(relative_time(now_secs, then))
}

/// The clock's reading, as std's type.
#[verifier::external_type_specification]
#[verifier::external_body]
pub struct ExSystemTime(std::time::SystemTime);

/// The error of a clock reading before the Unix epoch, as std's type.
#[verifier::external_type_specification]
#[verifier::external_body]
pub struct ExSystemTimeError(std::time::SystemTimeError);

/// Calls `std::time::SystemTime::now`.  Nothing is promised of the value:
/// it is the machine's clock.
#[verifier::external_body]
fn system_time_now() -> (t: std::time::SystemTime) {
    std::time::SystemTime::now()
}

/// Calls `SystemTime::duration_since` with the Unix epoch: the time since
/// the epoch, or an error for a reading before it.  Which one comes back
/// depends on the clock's reading, which is opaque here, so nothing is
/// promised.
#[verifier::external_body]
fn since_unix_epoch(t: &std::time::SystemTime) -> (r: Result<std::time::Duration, std::time::SystemTimeError>) {
    t.duration_since(std::time::UNIX_EPOCH)
}

/// Calls `Duration::as_secs`: the whole seconds of the duration.  The
/// duration is opaque here, so nothing is promised of the number.
#[verifier::external_body]
fn whole_seconds(d: &std::time::Duration) -> (secs: u64) {
    d.as_secs()
}

/// A number of seconds as an `i64`, capped at `i64::MAX`.
pub fn clamp_unix_secs(raw: u64) -> (secs: i64)
    ensures
        secs == (if raw > i64::MAX { i64::MAX as int } else { raw as int }),
{
    if raw > 9223372036854775807u64 {
        i64::MAX
    } else {
        raw as i64
    }
}

/// The current wall-clock time in whole seconds since the Unix epoch, at
/// most `i64::MAX`; zero for a clock set before the epoch.
pub fn now_unix_secs() -> (secs: i64)
    ensures
        secs >= 0,
{
    let now = system_time_now();
    match since_unix_epoch(&now) {
        Ok(elapsed) => clamp_unix_secs(whole_seconds(&elapsed)),
        Err(_) => 0,
    }
}

/// The age label of a session row at the current time: time since settled
/// for a settled session, time since last activity otherwise.
pub fn session_row_age(ws: &Workspace) -> (age: Option<String>)
    requires
        row_stamp(*ws) matches Some(t) ==> t >= 0,
    ensures
        row_stamp(*ws) is None <==> age is None,
        row_stamp(*ws) matches Some(t) ==> age matches Some(label)
            && exists|now: int| 0 <= now <= i64::MAX && #[trigger] age_label(now, t as int) == label@,
{
    let now = now_unix_secs();
    session_row_age_at(ws, now)
}


/// `n` in decimal has a digit in front, and it is one character long
/// exactly when `n` is under ten.
pub proof fn lemma_decimal_shape(n: nat)
    ensures
        decimal(n).len() >= 1,
        decimal(n).len() == 1 <==> n < 10,
        decimal(n)[0] != 'n',
    decreases n,
{
    if n >= 10 {
        lemma_decimal_shape(n / 10);
    }
}

/// A stamp reads `now` exactly when it is less than a minute old, or in the
/// future; otherwise its label is a count followed by a unit.
pub proof fn law_now_iff_under_a_minute(now: int, then: int)
    ensures
        (age_label(now, then) == seq!['n', 'o', 'w']) <==> now - then < minute(),
{
    let d = if now - then > 0 { now - then } else { 0 };
    if d >= minute() {
        let n: nat = (if d < hour() { d / minute() } else if d < day() { d / hour() } else if d < week() { d / day() }
            else if d < month() { d / week() } else { d / month() }) as nat;
        lemma_decimal_shape(n);
        assert(age_label(now, then)[0] == decimal(n)[0]);
    }
}

/// The count shown is the number of whole units elapsed, and at least one.
pub proof fn law_count_is_whole_units(now: int, then: int)
    requires
        now - then >= minute(),
    ensures
        ({
            let d = now - then;
            let unit = if d < hour() { minute() } else if d < day() { hour() } else if d < week() { day() }
                else if d < month() { week() } else { month() };
            &&& d / unit >= 1
            &&& (d / unit) * unit <= d < (d / unit + 1) * unit
            &&& age_label(now, then).take(decimal((d / unit) as nat).len() as int) == decimal((d / unit) as nat)
        }),
{
    let d = now - then;
    let unit = if d < hour() { minute() } else if d < day() { hour() } else if d < week() { day() }
        else if d < month() { week() } else { month() };
    assert(unit > 0);
    vstd::arithmetic::div_mod::lemma_fundamental_div_mod(d, unit);
    vstd::arithmetic::div_mod::lemma_div_is_ordered(unit, d, unit);
    vstd::arithmetic::div_mod::lemma_div_basics(unit);
    let q = d / unit;
    let r = d % unit;
    vstd::arithmetic::div_mod::lemma_mod_bound(d, unit);
    assert(q * unit <= d < (q + 1) * unit) by (nonlinear_arith)
        requires
            d == unit * q + r,
            0 <= r < unit,
    ;
    let n = (d / unit) as nat;
    assert(age_label(now, then).take(decimal(n).len() as int) =~= decimal(n));
}
} // verus!
