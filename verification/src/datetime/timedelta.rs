//! A signed interval of time, counted in nanoseconds.

use core::cmp::Ordering;
use vstd::arithmetic::div_mod::lemma_mod_mod;
use vstd::prelude::*;
use vstd::std_specs::cmp::PartialOrdIs;
use vstd::std_specs::ops::{AddSpec, SubSpec};
use super::decimal::{decimal, push_decimal, push_zero_padded, zero_padded};

verus! {

/// The units of time, in nanoseconds.
pub const NANOSECONDS_PER_MICROSECOND: i128 = 1000;

pub const NANOSECONDS_PER_MILLISECOND: i128 = 1000 * NANOSECONDS_PER_MICROSECOND;

pub const NANOSECONDS_PER_SECOND: i128 = 1000 * NANOSECONDS_PER_MILLISECOND;

pub const NANOSECONDS_PER_MINUTE: i128 = 60 * NANOSECONDS_PER_SECOND;

pub const NANOSECONDS_PER_HOUR: i128 = 60 * NANOSECONDS_PER_MINUTE;

pub const NANOSECONDS_PER_DAY: i128 = 24 * NANOSECONDS_PER_HOUR;

/// The absolute value of a nanosecond count. Every component of an interval
/// is taken from it, so that an interval and its negation have the same ones.
pub open spec fn magnitude(nanoseconds: int) -> int {
    if nanoseconds < 0 {
        -nanoseconds
    } else {
        nanoseconds
    }
}

/// The whole days in a nanosecond count.
pub open spec fn days_of(nanoseconds: int) -> int {
    magnitude(nanoseconds) / (NANOSECONDS_PER_DAY as int)
}

/// The whole hours left after the whole days.
pub open spec fn hours_of(nanoseconds: int) -> int {
    (magnitude(nanoseconds) % (NANOSECONDS_PER_DAY as int)) / (NANOSECONDS_PER_HOUR as int)
}

/// The whole minutes left after the whole hours.
pub open spec fn minutes_of(nanoseconds: int) -> int {
    (magnitude(nanoseconds) % (NANOSECONDS_PER_HOUR as int)) / (NANOSECONDS_PER_MINUTE as int)
}

/// The whole seconds left after the whole minutes.
pub open spec fn seconds_of(nanoseconds: int) -> int {
    (magnitude(nanoseconds) % (NANOSECONDS_PER_MINUTE as int)) / (NANOSECONDS_PER_SECOND as int)
}

/// The nanoseconds left after the whole seconds.
pub open spec fn nanoseconds_of(nanoseconds: int) -> int {
    magnitude(nanoseconds) % (NANOSECONDS_PER_SECOND as int)
}

/// The five components make up the magnitude again, and all but the days
/// stay below the unit above them.
pub proof fn lemma_components_recompose(nanoseconds: int)
    ensures
        days_of(nanoseconds) * NANOSECONDS_PER_DAY + hours_of(nanoseconds) * NANOSECONDS_PER_HOUR
            + minutes_of(nanoseconds) * NANOSECONDS_PER_MINUTE + seconds_of(nanoseconds)
            * NANOSECONDS_PER_SECOND + nanoseconds_of(nanoseconds) == magnitude(nanoseconds),
        0 <= days_of(nanoseconds),
        0 <= hours_of(nanoseconds) < 24,
        0 <= minutes_of(nanoseconds) < 60,
        0 <= seconds_of(nanoseconds) < 60,
        0 <= nanoseconds_of(nanoseconds) < NANOSECONDS_PER_SECOND,
{
    let m: int = magnitude(nanoseconds);
    let day: int = NANOSECONDS_PER_DAY as int;
    let hour: int = NANOSECONDS_PER_HOUR as int;
    let minute: int = NANOSECONDS_PER_MINUTE as int;
    let second: int = NANOSECONDS_PER_SECOND as int;
    assert((m % day) % hour == m % hour) by {
        lemma_mod_mod(m, hour, 24);
    }
    assert((m % hour) % minute == m % minute) by {
        lemma_mod_mod(m, minute, 60);
    }
    assert((m % minute) % second == m % second) by {
        lemma_mod_mod(m, second, 60);
    }
}

/// A time of day as `HH:MM:SS.nnnnnnnnn`: hours, minutes and seconds in two
/// digits, the nanoseconds in nine.
pub open spec fn clock_text(hours: nat, minutes: nat, seconds: nat, nanoseconds: nat) -> Seq<char> {
    zero_padded(hours, 2) + seq![':'] + zero_padded(minutes, 2) + seq![':'] + zero_padded(
        seconds,
        2,
    ) + seq!['.'] + zero_padded(nanoseconds, 9)
}

/// The sign that opens the text of a negative count.
pub open spec fn sign_text(nanoseconds: int) -> Seq<char> {
    if nanoseconds < 0 {
        seq!['-']
    } else {
        Seq::empty()
    }
}

/// The whole days with their label, `1 day ` or `2 days `, as they stand
/// before the time of day. Nothing stands there for less than a day.
pub open spec fn days_text(days: nat) -> Seq<char> {
    if days > 1 {
        decimal(days) + seq![' ', 'd', 'a', 'y', 's', ' ']
    } else if days == 1 {
        decimal(days) + seq![' ', 'd', 'a', 'y', ' ']
    } else {
        Seq::empty()
    }
}

/// A nanosecond count as text: the sign where it is negative, the days where
/// there are any, and the time of day that lies beyond them.
pub open spec fn interval_text(nanoseconds: int) -> Seq<char> {
    sign_text(nanoseconds) + days_text(days_of(nanoseconds) as nat) + clock_text(
        hours_of(nanoseconds) as nat,
        minutes_of(nanoseconds) as nat,
        seconds_of(nanoseconds) as nat,
        nanoseconds_of(nanoseconds) as nat,
    )
}

/// Appends the sign of a negative count to `text`.
fn push_sign(text: &mut String, nanoseconds: i128)
    ensures
        final(text)@ == old(text)@ + sign_text(nanoseconds as int),
{
    if nanoseconds < 0 {
        proof {
            reveal_strlit("-");
        }
        text.append("-");
    }
    assert(text@ =~= old(text)@ + sign_text(nanoseconds as int));
}

/// Appends the whole days and their label to `text`, where there are any.
fn push_days(text: &mut String, days: u128)
    ensures
        final(text)@ == old(text)@ + days_text(days as nat),
{
    if days > 0 {
        proof {
            reveal_strlit(" day");
            reveal_strlit("s");
            reveal_strlit(" ");
        }
        push_decimal(text, days);
        text.append(" day");
        if days > 1 {
            text.append("s");
        }
        text.append(" ");
    }
    assert(text@ =~= old(text)@ + days_text(days as nat));
}

/// Appends a time of day to `text`.
fn push_clock(text: &mut String, hours: u128, minutes: u128, seconds: u128, nanoseconds: u128)
    ensures
        final(text)@ == old(text)@ + clock_text(
            hours as nat,
            minutes as nat,
            seconds as nat,
            nanoseconds as nat,
        ),
{
    proof {
        reveal_strlit(":");
        reveal_strlit(".");
    }
    push_zero_padded(text, hours, 2);
    text.append(":");
    push_zero_padded(text, minutes, 2);
    text.append(":");
    push_zero_padded(text, seconds, 2);
    text.append(".");
    push_zero_padded(text, nanoseconds, 9);
    assert(text@ =~= old(text)@ + clock_text(
        hours as nat,
        minutes as nat,
        seconds as nat,
        nanoseconds as nat,
    ));
}

/// A difference in time, or an interval, in nanoseconds.
#[derive(Debug, PartialEq, Eq, Ord, Structural)]
pub struct TimeDelta {
    pub nanoseconds: i128,
}

impl View for TimeDelta {
    type V = int;

    /// An interval stands for its nanosecond count.
    open spec fn view(&self) -> int {
        self.nanoseconds as int
    }
}

impl TimeDelta {
    /// The interval of `nanoseconds` nanoseconds. Every count is accepted.
    pub fn new(nanoseconds: i128) -> (delta: Self)
        ensures
            delta@ == nanoseconds,
    {
        TimeDelta { nanoseconds }
    }

    /// The magnitude of the count. It is taken in `u128`, where that of the
    /// least `i128` fits too.
    fn magnitude(&self) -> (m: u128)
        ensures
            m == magnitude(self@),
    {
        if self.nanoseconds >= 0 {
            self.nanoseconds as u128
        } else {
            (-(self.nanoseconds + 1)) as u128 + 1
        }
    }

    /// The whole days of the interval's magnitude.
    pub fn days_component(&self) -> (days: i128)
        ensures
            days == days_of(self@),
            0 <= days,
    {
        let days: u128 = self.magnitude() / (NANOSECONDS_PER_DAY as u128);
        proof {
            lemma_components_recompose(self@);
        }
        days as i128
    }

    /// The whole hours of the magnitude beyond its whole days: 0 to 23.
    pub fn hours_component(&self) -> (hours: i128)
        ensures
            hours == hours_of(self@),
            0 <= hours < 24,
    {
        let within_day: u128 = self.magnitude() % (NANOSECONDS_PER_DAY as u128);
        let hours: u128 = within_day / (NANOSECONDS_PER_HOUR as u128);
        proof {
            lemma_components_recompose(self@);
        }
        hours as i128
    }

    /// The whole minutes of the magnitude beyond its whole hours: 0 to 59.
    pub fn minutes_component(&self) -> (minutes: i128)
        ensures
            minutes == minutes_of(self@),
            0 <= minutes < 60,
    {
        let within_hour: u128 = self.magnitude() % (NANOSECONDS_PER_HOUR as u128);
        let minutes: u128 = within_hour / (NANOSECONDS_PER_MINUTE as u128);
        proof {
            lemma_components_recompose(self@);
        }
        minutes as i128
    }

    /// The whole seconds of the magnitude beyond its whole minutes: 0 to 59.
    pub fn seconds_component(&self) -> (seconds: i128)
        ensures
            seconds == seconds_of(self@),
            0 <= seconds < 60,
    {
        let within_minute: u128 = self.magnitude() % (NANOSECONDS_PER_MINUTE as u128);
        let seconds: u128 = within_minute / (NANOSECONDS_PER_SECOND as u128);
        proof {
            lemma_components_recompose(self@);
        }
        seconds as i128
    }

    /// The nanoseconds of the magnitude beyond its whole seconds.
    pub fn nanoseconds_component(&self) -> (nanoseconds: i128)
        ensures
            nanoseconds == nanoseconds_of(self@),
            0 <= nanoseconds < NANOSECONDS_PER_SECOND,
    {
        let nanoseconds: u128 = self.magnitude() % (NANOSECONDS_PER_SECOND as u128);
        proof {
            lemma_components_recompose(self@);
        }
        nanoseconds as i128
    }

    /// The interval as text, such as `-3 days 06:43:13.123456789`, or
    /// `06:43:13.123456789` for less than a day.
    pub fn to_string(&self) -> (text: String)
        ensures
            text@ == interval_text(self@),
    {
        let mut text: String = String::new();
        push_sign(&mut text, self.nanoseconds);
        push_days(&mut text, self.days_component() as u128);
        push_clock(
            &mut text,
            self.hours_component() as u128,
            self.minutes_component() as u128,
            self.seconds_component() as u128,
            self.nanoseconds_component() as u128,
        );
        assert(text@ =~= interval_text(self@));
        text
    }
}

impl PartialOrd for TimeDelta {
    /// Intervals are ordered as their nanosecond counts are.
    fn partial_cmp(&self, other: &TimeDelta) -> (order: Option<Ordering>) {
        if self.nanoseconds < other.nanoseconds {
            Some(Ordering::Less)
        } else if self.nanoseconds > other.nanoseconds {
            Some(Ordering::Greater)
        } else {
            Some(Ordering::Equal)
        }
    }
}

impl vstd::std_specs::cmp::PartialOrdSpecImpl for TimeDelta {
    open spec fn obeys_partial_cmp_spec() -> bool {
        true
    }

    open spec fn partial_cmp_spec(&self, other: &TimeDelta) -> Option<Ordering> {
        if self.nanoseconds < other.nanoseconds {
            Some(Ordering::Less)
        } else if self.nanoseconds > other.nanoseconds {
            Some(Ordering::Greater)
        } else {
            Some(Ordering::Equal)
        }
    }
}

impl core::ops::Add<TimeDelta> for TimeDelta {
    type Output = TimeDelta;

    /// The interval of both counts together. The sum has to be an `i128`.
    fn add(self, rhs: TimeDelta) -> (sum: TimeDelta)
        ensures
            sum@ == self@ + rhs@,
    {
        TimeDelta { nanoseconds: self.nanoseconds + rhs.nanoseconds }
    }
}

impl vstd::std_specs::ops::AddSpecImpl<TimeDelta> for TimeDelta {
    open spec fn obeys_add_spec() -> bool {
        true
    }

    open spec fn add_req(self, rhs: TimeDelta) -> bool {
        i128::MIN <= self@ + rhs@ <= i128::MAX
    }

    open spec fn add_spec(self, rhs: TimeDelta) -> TimeDelta {
        TimeDelta { nanoseconds: (self.nanoseconds + rhs.nanoseconds) as i128 }
    }
}

impl core::ops::Sub<TimeDelta> for TimeDelta {
    type Output = TimeDelta;

    /// The interval of the first count less the second. The difference has to
    /// be an `i128`.
    fn sub(self, rhs: TimeDelta) -> (difference: TimeDelta)
        ensures
            difference@ == self@ - rhs@,
    {
        TimeDelta { nanoseconds: self.nanoseconds - rhs.nanoseconds }
    }
}

impl vstd::std_specs::ops::SubSpecImpl<TimeDelta> for TimeDelta {
    open spec fn obeys_sub_spec() -> bool {
        true
    }

    open spec fn sub_req(self, rhs: TimeDelta) -> bool {
        i128::MIN <= self@ - rhs@ <= i128::MAX
    }

    open spec fn sub_spec(self, rhs: TimeDelta) -> TimeDelta {
        TimeDelta { nanoseconds: (self.nanoseconds - rhs.nanoseconds) as i128 }
    }
}

/// Of "less", "equal" and "greater" exactly one holds of two intervals: the
/// one that holds of their nanosecond counts.
pub proof fn lemma_order_follows_counts(a: TimeDelta, b: TimeDelta)
    ensures
        a.is_lt(&b) <==> a@ < b@,
        a == b <==> a@ == b@,
        a.is_gt(&b) <==> a@ > b@,
        a.is_lt(&b) || a == b || a.is_gt(&b),
        !(a.is_lt(&b) && a == b),
        !(a.is_lt(&b) && a.is_gt(&b)),
        !(a == b && a.is_gt(&b)),
        a.is_le(&b) <==> a@ <= b@,
        a.is_ge(&b) <==> a@ >= b@,
{
}

/// A sum does not depend on the order of its two intervals.
pub proof fn lemma_add_commutes(a: TimeDelta, b: TimeDelta)
    requires
        a.add_req(b),
    ensures
        b.add_req(a),
        a.add_spec(b) == b.add_spec(a),
{
}

/// Three intervals add up to the same whichever two are added first, where
/// both ways stay within `i128`.
pub proof fn lemma_add_associates(a: TimeDelta, b: TimeDelta, c: TimeDelta)
    requires
        a.add_req(b),
        a.add_spec(b).add_req(c),
        b.add_req(c),
        a.add_req(b.add_spec(c)),
    ensures
        a.add_spec(b).add_spec(c) == a.add_spec(b.add_spec(c)),
{
}

/// To subtract an interval is to add its negation, `negated`.
pub proof fn lemma_sub_adds_negation(a: TimeDelta, b: TimeDelta, negated: TimeDelta)
    requires
        a.sub_req(b),
        negated@ == -b@,
    ensures
        a.add_req(negated),
        a.sub_spec(b) == a.add_spec(negated),
{
}

} // verus!
