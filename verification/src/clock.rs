//! The clock: hours above minutes.

use vstd::prelude::*;

verus! {

/// The hour on a clock with twelve hours.
pub open spec fn hour12(hour: nat) -> nat {
    if hour % 12 == 0 {
        12
    } else {
        hour % 12
    }
}

/// A number below a hundred in two digits.
pub open spec fn two_digits(n: nat) -> Seq<char> {
    seq![crate::number::digit_char(n / 10), crate::number::digit_char(n % 10)]
}

/// What the clock shows: the hour on a twelve-hour clock and, on a line below,
/// the minute, both in two digits.
pub open spec fn clock_face(hour: nat, minute: nat) -> Seq<char> {
    two_digits(hour12(hour)).push('\n') + two_digits(minute)
}

/// Formats a time of day by `chrono::NaiveTime::format`.
///
/// Of the format that is asked for, chrono documents `%I` as the hour number
/// in twelve-hour clocks from 01 to 12, and `%M` as the minute number from 00
/// to 59, each padded with a zero to two digits. Other characters stand for
/// themselves.
#[verifier::external_body]
fn format_time(hour: u32, minute: u32, format: &str) -> (text: String)
    requires
        hour < 24,
        minute < 60,
        format@ == "%I\n%M"@,
    ensures
        text@ == clock_face(hour as nat, minute as nat),
{
    chrono::NaiveTime::from_hms_opt(hour, minute, 0).unwrap().format(format).to_string()
}

/// What the clock shows at a time of day.
pub fn clock_text(hour: u32, minute: u32) -> (text: String)
    requires
        hour < 24,
        minute < 60,
    ensures
        text@ == clock_face(hour as nat, minute as nat),
{
    format_time(hour, minute, "%I\n%M")
}

/// Morning and afternoon look the same.
pub proof fn clock_repeats_after_twelve_hours(hour: nat, minute: nat)
    ensures
        clock_face(hour + 12, minute) == clock_face(hour, minute),
{
}

/// Within half a day, no two minutes look the same.
pub proof fn clock_tells_minutes_apart(hour: nat, minute: nat, other_hour: nat, other_minute: nat)
    requires
        hour < 12,
        other_hour < 12,
        minute < 60,
        other_minute < 60,
        clock_face(hour, minute) == clock_face(other_hour, other_minute),
    ensures
        hour == other_hour,
        minute == other_minute,
{
    let face = clock_face(hour, minute);
    let other = clock_face(other_hour, other_minute);
    assert(face[0] == other[0]);
    assert(face[1] == other[1]);
    assert(face[3] == other[3]);
    assert(face[4] == other[4]);
}

/// The clock shows two digits, a line break and two digits. The upper ones are
/// an hour from one to twelve that agrees with the hour of the day up to
/// twelve hours, and the lower ones the minute.
pub proof fn clock_shows_hour_and_minute(hour: nat, minute: nat)
    requires
        hour < 24,
        minute < 60,
    ensures
        ({
            let face = clock_face(hour, minute);
            let upper = 10 * (face[0] as int - '0' as int) + (face[1] as int - '0' as int);
            let lower = 10 * (face[3] as int - '0' as int) + (face[4] as int - '0' as int);
            &&& face.len() == 5
            &&& '0' <= face[0] && face[0] <= '1'
            &&& '0' <= face[1] && face[1] <= '9'
            &&& face[2] == '\n'
            &&& '0' <= face[3] && face[3] <= '5'
            &&& '0' <= face[4] && face[4] <= '9'
            &&& 1 <= upper <= 12
            &&& upper == hour || upper == hour + 12 || upper == hour - 12
            &&& lower == minute
        }),
{
}

} // verus!
