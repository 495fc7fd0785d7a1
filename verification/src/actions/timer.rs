//! What the timer action says.
use vstd::prelude::*;

use crate::text::{chars_of, decimal, push_decimal, push_str, string_of};

verus! {

/// The label of a timer set without one.
pub const DEFAULT_LABEL: &'static str = "timer";

/// The label a timer is kept under.
pub fn timer_label(label: Option<&str>) -> (r: String)
    ensures
        r@ == match label {
            Some(l) => l@,
            None => DEFAULT_LABEL@,
        },
{
    match label {
        Some(l) => string_of(&chars_of(l)),
        None => string_of(&chars_of(DEFAULT_LABEL)),
    }
}

/// The reply once a timer of `secs` seconds is set: whole minutes and the
/// remaining seconds, each mentioned only when non-zero (seconds when both are).
pub fn set_message(label: &str, secs: u64) -> (r: String)
    ensures
        ({
            let mins = secs / 60;
            let rem = secs % 60;
            let head = "Timer set for "@ + label@ + ": "@;
            r@ == if mins > 0 && rem > 0 {
                head + decimal(mins as nat) + " minutes "@ + decimal(rem as nat) + " seconds"@
            } else if mins > 0 {
                head + decimal(mins as nat) + " minutes"@
            } else {
                head + decimal(rem as nat) + " seconds"@
            }
        }),
{
    let mins = secs / 60;
    let rem = secs % 60;
    let mut m = chars_of("Timer set for ");
    push_str(&mut m, label);
    push_str(&mut m, ": ");
    if mins > 0 && rem > 0 {
        push_decimal(&mut m, mins);
        push_str(&mut m, " minutes ");
        push_decimal(&mut m, rem);
        push_str(&mut m, " seconds");
    } else if mins > 0 {
        push_decimal(&mut m, mins);
        push_str(&mut m, " minutes");
    } else {
        push_decimal(&mut m, rem);
        push_str(&mut m, " seconds");
    }
    string_of(&m)
}

/// The reply to cancelling the timer `label`, found or not.
pub fn cancel_message(label: &str, found: bool) -> (r: String)
    ensures
        found ==> r@ == "Cancelled timer: "@ + label@,
        !found ==> r@ == "No timer named '"@ + label@ + "' found"@,
{
    let mut m = if found {
        chars_of("Cancelled timer: ")
    } else {
        chars_of("No timer named '")
    };
    push_str(&mut m, label);
    if !found {
        push_str(&mut m, "' found");
    }
    string_of(&m)
}

/// The reply to cancelling every timer.
pub fn cancel_all_message(count: u64) -> (r: String)
    ensures
        r@ == "Cancelled "@ + decimal(count as nat) + " timer(s)"@,
{
    let mut m = chars_of("Cancelled ");
    push_decimal(&mut m, count);
    push_str(&mut m, " timer(s)");
    string_of(&m)
}

} // verus!
