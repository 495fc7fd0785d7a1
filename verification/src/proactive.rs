//! Proactive suggestions: what to offer at each hour, at most once per cooldown.
use vstd::prelude::*;

use crate::text::{chars_of, string_of};

verus! {

/// The suggestion offered at `hour` (0-23), if any.
pub open spec fn suggestion_text(hour: u32) -> Option<Seq<char>> {
    if 6 <= hour <= 9 {
        Some("Good morning! Would you like me to check your schedule or the weather?"@)
    } else if 11 <= hour <= 13 {
        Some("It's lunchtime. Want me to set a reminder for anything?"@)
    } else if 17 <= hour <= 19 {
        Some("Heading home? Want me to set a reminder for anything tonight?"@)
    } else if 22 <= hour <= 23 {
        Some("It's getting late. Want me to set an alarm for tomorrow?"@)
    } else {
        None
    }
}

/// Offers a suggestion at most once per cooldown.
#[derive(Debug, Clone, Copy)]
pub struct ProactiveEngine {
    /// When the last suggestion was offered, in Unix seconds.
    pub last_suggestion: Option<i64>,
    pub cooldown_minutes: i64,
}

/// Whole minutes from `last` to `now`, truncated toward zero.
pub open spec fn minutes_between(last: int, now: int) -> int {
    let d = now - last;
    if d >= 0 {
        d / 60
    } else {
        -((-d) / 60)
    }
}

/// The engine is still within the cooldown of its last suggestion at `now`.
pub open spec fn cooling(e: ProactiveEngine, now: int) -> bool {
    match e.last_suggestion {
        Some(last) => minutes_between(last as int, now) < e.cooldown_minutes,
        None => false,
    }
}

/// What `check` offers at `now` and `hour`.
pub open spec fn offer(e: ProactiveEngine, now: int, hour: u32) -> Option<Seq<char>> {
    if cooling(e, now) {
        None
    } else {
        suggestion_text(hour)
    }
}

/// The engine after `check` at `now` and `hour`: an offer records `now`.
pub open spec fn after_check(e: ProactiveEngine, now: i64, hour: u32) -> ProactiveEngine {
    if offer(e, now as int, hour) is Some {
        ProactiveEngine { last_suggestion: Some(now), cooldown_minutes: e.cooldown_minutes }
    } else {
        e
    }
}

impl ProactiveEngine {
    pub fn new() -> (r: Self)
        ensures
            r.last_suggestion is None,
            r.cooldown_minutes == 30,
    {
        ProactiveEngine { last_suggestion: None, cooldown_minutes: 30 }
    }

    /// The suggestion for the moment `now` (Unix seconds) at local `hour`:
    /// none within the cooldown of the last one; otherwise the hour's
    /// suggestion, which then becomes the last one.
    pub fn check(&mut self, now: i64, hour: u32) -> (r: Option<String>)
        ensures
            match offer(*old(self), now as int, hour) {
                Some(t) => r matches Some(s) && s@ == t,
                None => r is None,
            },
            *final(self) == after_check(*old(self), now, hour),
    {
        if let Some(last) = self.last_suggestion {
            let d: i128 = now as i128 - last as i128;
            let mins: i128 = if d >= 0 {
                d / 60
            } else {
                -((-d) / 60)
            };
            if mins < self.cooldown_minutes as i128 {
                return None;
            }
        }
        let s = if 6 <= hour && hour <= 9 {
            Some("Good morning! Would you like me to check your schedule or the weather?")
        } else if 11 <= hour && hour <= 13 {
            Some("It's lunchtime. Want me to set a reminder for anything?")
        } else if 17 <= hour && hour <= 19 {
            Some("Heading home? Want me to set a reminder for anything tonight?")
        } else if 22 <= hour && hour <= 23 {
            Some("It's getting late. Want me to set an alarm for tomorrow?")
        } else {
            None
        };
        match s {
            Some(t) => {
                self.last_suggestion = Some(now);
                Some(string_of(&chars_of(t)))
            },
            None => None,
        }
    }
}


/// At most one suggestion per cooldown: once `check` has offered something at
/// `t1`, no `check` at a later moment less than the cooldown (in whole
/// minutes) after `t1` offers anything, whatever the hour.
pub proof fn law_one_offer_per_cooldown(e: ProactiveEngine, t1: i64, h1: u32, t2: i64, h2: u32)
    requires
        offer(e, t1 as int, h1) is Some,
        minutes_between(t1 as int, t2 as int) < e.cooldown_minutes,
    ensures
        offer(after_check(e, t1, h1), t2 as int, h2) is None,
{
}

} // verus!
