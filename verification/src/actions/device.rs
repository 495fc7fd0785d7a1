//! What the device actions reply, given what the device command printed.
use vstd::prelude::*;

use crate::scan::{contains_chars, contains_seq, has_prefix, starts_with};
use crate::text::{chars_of, decimal, lowercase, push_str, string_of, to_lowercase};

verus! {

/// Output of a device command that reports failure or nothing.
pub open spec fn failed_or_empty(out: Seq<char>) -> bool {
    out.len() == 0 || has_prefix(out, "failed"@)
}

/// The reply to setting an alarm for `time`, given the notification command's output.
pub fn alarm_reply(time: &str, output: &str) -> (r: String)
    ensures
        ({
            let o = output@;
            if o.len() == 0 || has_prefix(o, "command failed"@) || has_prefix(o, "failed to"@) {
                r@ == "Alarm set for "@ + time@ + " (notification scheduled)"@
            } else {
                r@ == "Alarm set for "@ + time@
            }
        }),
{
    let o = chars_of(output);
    let mut v = chars_of("Alarm set for ");
    push_str(&mut v, time);
    if o.len() == 0 || starts_with(&o, "command failed") || starts_with(&o, "failed to") {
        push_str(&mut v, " (notification scheduled)");
    }
    string_of(&v)
}

/// The text the alarm notification carries.
pub fn alarm_content(time: &str) -> (r: String)
    ensures
        r@ == "Alarm set for "@ + time@,
{
    let mut v = chars_of("Alarm set for ");
    push_str(&mut v, time);
    string_of(&v)
}

/// What serde_json reads from a battery report: the `percentage` as an
/// integer, and `status` and `health` as strings, each when present with that
/// type; `None` when the report is not JSON.
pub uninterp spec fn battery_json(output: Seq<char>) -> Option<(Option<i64>, Option<Seq<char>>, Option<Seq<char>>)>;

/// Calls `serde_json::from_str::<serde_json::Value>` on the battery report and
/// reads its `percentage` (`as_i64`), `status` and `health` (`as_str`).
/// Contract: the result is `battery_json` of the report; the JSON grammar is not stated.
#[verifier::external_body]
fn read_battery_json(output: &str) -> (r: Option<(Option<i64>, Option<String>, Option<String>)>)
    ensures
        field_views(r) == battery_json(output@),
{
    match serde_json::from_str::<serde_json::Value>(output) {
        Ok(json) => Some((
            json["percentage"].as_i64(),
            json["status"].as_str().map(|s| s.to_string()),
            json["health"].as_str().map(|s| s.to_string()),
        )),
        Err(_) => None,
    }
}

/// The decimal numeral of a signed integer.
pub open spec fn signed_decimal(n: int) -> Seq<char> {
    if n < 0 {
        "-"@ + decimal((-n) as nat)
    } else {
        decimal(n as nat)
    }
}

fn push_signed(v: &mut Vec<char>, n: i64)
    ensures
        final(v)@ == old(v)@ + signed_decimal(n as int),
{
    if n < 0 {
        push_str(v, "-");
        let m: u64 = if n == i64::MIN {
            9223372036854775808u64
        } else {
            (-n) as u64
        };
        crate::text::push_decimal(v, m);
    } else {
        crate::text::push_decimal(v, n as u64);
    }
}

/// The fields read from a battery report, texts as sequences.
pub open spec fn field_views(f: Option<(Option<i64>, Option<String>, Option<String>)>) -> Option<
    (Option<i64>, Option<Seq<char>>, Option<Seq<char>>),
> {
    match f {
        Some((p, s, h)) => Some(
            (
                p,
                match s {
                    Some(x) => Some(x@),
                    None => None,
                },
                match h {
                    Some(x) => Some(x@),
                    None => None,
                },
            ),
        ),
        None => None,
    }
}

/// The battery reply for the report `output` whose JSON held `fields`.
pub open spec fn battery_text(
    output: Seq<char>,
    fields: Option<(Option<i64>, Option<Seq<char>>, Option<Seq<char>>)>,
) -> Seq<char> {
    if failed_or_empty(output) {
        "Failed to get battery status."@
    } else {
        match fields {
            Some((p, s, h)) => "Battery: "@ + signed_decimal(
                match p {
                    Some(n) => n as int,
                    None => 0,
                },
            ) + "% ("@ + (match s {
                Some(x) => x,
                None => "unknown"@,
            }) + "), Health: "@ + (match h {
                Some(x) => x,
                None => "unknown"@,
            }),
            None => "Battery info: "@ + output,
        }
    }
}

/// The battery reply from the report and what its JSON held.
pub fn battery_reply(output: &str, fields: Option<(Option<i64>, Option<String>, Option<String>)>) -> (r:
    String)
    ensures
        r@ == battery_text(output@, field_views(fields)),
{
    let o = chars_of(output);
    if o.len() == 0 || starts_with(&o, "failed") {
        return string_of(&chars_of("Failed to get battery status."));
    }
    match fields {
        Some((p, s, h)) => {
            let mut v = chars_of("Battery: ");
            push_signed(
                &mut v,
                match p {
                    Some(n) => n,
                    None => 0,
                },
            );
            push_str(&mut v, "% (");
            match &s {
                Some(x) => push_str(&mut v, x.as_str()),
                None => push_str(&mut v, "unknown"),
            }
            push_str(&mut v, "), Health: ");
            match &h {
                Some(x) => push_str(&mut v, x.as_str()),
                None => push_str(&mut v, "unknown"),
            }
            string_of(&v)
        },
        None => {
            let mut v = chars_of("Battery info: ");
            push_str(&mut v, output);
            string_of(&v)
        },
    }
}

/// The battery reply for a report, its JSON read by serde_json (only when the
/// report does not signal a failure).
pub fn battery_status_text(output: &str) -> (r: String)
    ensures
        failed_or_empty(output@) ==> r@ == "Failed to get battery status."@,
        !failed_or_empty(output@) ==> r@ == battery_text(output@, battery_json(output@)),
{
    let o = chars_of(output);
    if o.len() == 0 || starts_with(&o, "failed") {
        return battery_reply(output, None);
    }
    let fields = read_battery_json(output);
    battery_reply(output, fields)
}

/// The reply to a call attempt to `contact`, given the call command's output.
pub fn call_reply(contact: &str, output: &str) -> (r: String)
    ensures
        output@.len() == 0 || !has_prefix(output@, "failed"@) ==> r@ == "Calling "@ + contact@ + "..."@,
        output@.len() > 0 && has_prefix(output@, "failed"@) ==> r@ == "Failed to call "@ + contact@ + ": "@
            + output@,
{
    let o = chars_of(output);
    if o.len() == 0 || !starts_with(&o, "failed") {
        let mut v = chars_of("Calling ");
        push_str(&mut v, contact);
        push_str(&mut v, "...");
        string_of(&v)
    } else {
        let mut v = chars_of("Failed to call ");
        push_str(&mut v, contact);
        push_str(&mut v, ": ");
        push_str(&mut v, output);
        string_of(&v)
    }
}

/// The reply when no contact matches `name`.
pub fn no_contact_reply(name: &str) -> (r: String)
    ensures
        r@ == "I couldn't find a contact named '"@ + name@ + "' in your contacts."@,
{
    let mut v = chars_of("I couldn't find a contact named '");
    push_str(&mut v, name);
    push_str(&mut v, "' in your contacts.");
    string_of(&v)
}

/// Where the camera saves first, and where it tries next.
pub const PRIMARY_PHOTO: &'static str = "/sdcard/Download/lai-photo.jpg";

pub const FALLBACK_PHOTO: &'static str = "/tmp/lai-photo.jpg";

/// The photo reply, given the output of the first attempt and, when it
/// failed, of the second.
pub fn photo_reply(first: &str, second: Option<&str>) -> (r: String)
    ensures
        !failed_or_empty(first@) ==> r@ == "Photo saved to /sdcard/Download/lai-photo.jpg"@,
        failed_or_empty(first@) ==> match second {
            Some(s) => if failed_or_empty(s@) {
                r@ == "Failed to take photo. Make sure camera permission is granted."@
            } else {
                r@ == "Photo saved to /tmp/lai-photo.jpg"@
            },
            None => r@ == "Failed to take photo. Make sure camera permission is granted."@,
        },
{
    let f = chars_of(first);
    if !(f.len() == 0 || starts_with(&f, "failed")) {
        return string_of(&chars_of("Photo saved to /sdcard/Download/lai-photo.jpg"));
    }
    match second {
        Some(s) => {
            let t = chars_of(s);
            if t.len() == 0 || starts_with(&t, "failed") {
                string_of(&chars_of("Failed to take photo. Make sure camera permission is granted."))
            } else {
                string_of(&chars_of("Photo saved to /tmp/lai-photo.jpg"))
            }
        },
        None => string_of(&chars_of("Failed to take photo. Make sure camera permission is granted.")),
    }
}

/// The reply to setting the clipboard, given the command's output.
pub fn set_clipboard_reply(output: &str) -> (r: String)
    ensures
        output@.len() == 0 || !has_prefix(output@, "failed"@) ==> r@ == "Copied to clipboard"@,
        output@.len() > 0 && has_prefix(output@, "failed"@) ==> r@ == "Failed to set clipboard: "@ + output@,
{
    let o = chars_of(output);
    if o.len() == 0 || !starts_with(&o, "failed") {
        string_of(&chars_of("Copied to clipboard"))
    } else {
        let mut v = chars_of("Failed to set clipboard: ");
        push_str(&mut v, output);
        string_of(&v)
    }
}

/// The reply to reading the clipboard, given the command's output.
pub fn get_clipboard_reply(output: &str) -> (r: String)
    ensures
        failed_or_empty(output@) ==> r@ == "Clipboard is empty"@,
        !failed_or_empty(output@) ==> r@ == "Clipboard: "@ + output@,
{
    let o = chars_of(output);
    if o.len() == 0 || starts_with(&o, "failed") {
        string_of(&chars_of("Clipboard is empty"))
    } else {
        let mut v = chars_of("Clipboard: ");
        push_str(&mut v, output);
        string_of(&v)
    }
}

/// The reply to sending `message` to `contact`, given the command's output.
pub fn sms_reply(contact: &str, message: &str, output: &str) -> (r: String)
    ensures
        output@.len() == 0 || !has_prefix(output@, "failed"@) ==> r@ == "Message sent to "@ + contact@
            + ": \""@ + message@ + "\""@,
        output@.len() > 0 && has_prefix(output@, "failed"@) ==> r@ == "Failed to send message to "@
            + contact@ + ": "@ + output@,
{
    let o = chars_of(output);
    if o.len() == 0 || !starts_with(&o, "failed") {
        let mut v = chars_of("Message sent to ");
        push_str(&mut v, contact);
        push_str(&mut v, ": \"");
        push_str(&mut v, message);
        push_str(&mut v, "\"");
        string_of(&v)
    } else {
        let mut v = chars_of("Failed to send message to ");
        push_str(&mut v, contact);
        push_str(&mut v, ": ");
        push_str(&mut v, output);
        string_of(&v)
    }
}

/// A device contact.
#[derive(Debug, Clone)]
pub struct Contact {
    pub name: String,
    pub number: String,
}

/// Output of the contact-list command that holds no list.
pub fn contacts_unavailable(output: &str) -> (r: bool)
    ensures
        r == (output@.len() == 0 || has_prefix(output@, "command failed"@) || has_prefix(
            output@,
            "failed to"@,
        )),
{
    let o = chars_of(output);
    o.len() == 0 || starts_with(&o, "command failed") || starts_with(&o, "failed to")
}

/// The index of the first of `names` that contains `needle`.
pub fn first_containing(names: &Vec<String>, needle: &str) -> (r: Option<usize>)
    ensures
        match r {
            Some(i) => i < names@.len() && contains_seq(names@[i as int]@, needle@) && forall|j: int|
                0 <= j < i ==> !contains_seq((#[trigger] names@[j])@, needle@),
            None => forall|j: int| 0 <= j < names@.len() ==> !contains_seq((#[trigger] names@[j])@, needle@),
        },
{
    let n = chars_of(needle);
    let mut i: usize = 0;
    while i < names.len()
        invariant
            i <= names@.len(),
            n@ == needle@,
            forall|j: int| 0 <= j < i ==> !contains_seq((#[trigger] names@[j])@, needle@),
        decreases names@.len() - i,
    {
        if contains_chars(&chars_of(names[i].as_str()), &n) {
            return Some(i);
        }
        i = i + 1;
    }
    None
}

/// The first contact whose lowercased name contains the lowercased `name`
/// (both lowercased by std's `to_lowercase`).
pub fn find_contact(contacts: &Vec<Contact>, name: &str) -> (r: Option<usize>)
    ensures
        match r {
            Some(i) => i < contacts@.len() && contains_seq(lowercase(contacts@[i as int].name@), lowercase(name@))
                && forall|j: int| 0 <= j < i ==> !contains_seq(lowercase((#[trigger] contacts@[j]).name@), lowercase(name@)),
            None => forall|j: int| 0 <= j < contacts@.len() ==> !contains_seq(lowercase((#[trigger] contacts@[j]).name@), lowercase(name@)),
        },
{
    let mut names: Vec<String> = Vec::new();
    let mut i: usize = 0;
    while i < contacts.len()
        invariant
            i <= contacts@.len(),
            names@.len() == i,
            forall|j: int| 0 <= j < i ==> (#[trigger] names@[j])@ == lowercase(contacts@[j].name@),
        decreases contacts@.len() - i,
    {
        names.push(string_of(&to_lowercase(&chars_of(contacts[i].name.as_str()))));
        i = i + 1;
    }
    let needle = string_of(&to_lowercase(&chars_of(name)));
    let r = first_containing(&names, needle.as_str());
    proof {
        assert(names@.len() == contacts@.len());
        match r {
            Some(k) => {
                assert(names@[k as int]@ == lowercase(contacts@[k as int].name@));
                assert forall|j: int| 0 <= j < k implies !contains_seq(lowercase((#[trigger] contacts@[j]).name@), lowercase(name@)) by {
                    assert(names@[j]@ == lowercase(contacts@[j].name@));
                }
            },
            None => {
                assert forall|j: int| 0 <= j < contacts@.len() implies !contains_seq(lowercase((#[trigger] contacts@[j]).name@), lowercase(name@)) by {
                    assert(names@[j]@ == lowercase(contacts@[j].name@));
                }
            },
        }
    }
    r
}


/// The reply that stops a text message without a body; `None` when there is one.
pub fn sms_missing_message(message: &str) -> (r: Option<String>)
    ensures
        message@.len() == 0 ==> (r matches Some(m) && m@ == "What message should I send?"@),
        message@.len() > 0 ==> r is None,
{
    if chars_of(message).len() == 0 {
        Some(string_of(&chars_of("What message should I send?")))
    } else {
        None
    }
}


/// The reply to playing `query`, given the media player's output and, when it
/// failed, the output of opening the query as audio.
pub fn music_reply(query: &str, player: &str, opener: Option<&str>) -> (r: String)
    ensures
        !has_prefix(player@, "failed"@) ==> r@ == "Playing: "@ + query@,
        has_prefix(player@, "failed"@) ==> match opener {
            Some(o) => if has_prefix(o@, "failed"@) {
                r@ == "I can't control music playback on this device yet."@
            } else {
                r@ == "Opening: "@ + query@
            },
            None => r@ == "I can't control music playback on this device yet."@,
        },
{
    if !starts_with(&chars_of(player), "failed") {
        let mut v = chars_of("Playing: ");
        push_str(&mut v, query);
        return string_of(&v);
    }
    match opener {
        Some(o) => if starts_with(&chars_of(o), "failed") {
            string_of(&chars_of("I can't control music playback on this device yet."))
        } else {
            let mut v = chars_of("Opening: ");
            push_str(&mut v, query);
            string_of(&v)
        },
        None => string_of(&chars_of("I can't control music playback on this device yet.")),
    }
}

/// `ok` unless the command's output reports a failure, then `failed`.
fn unless_failed(output: &str, ok: &str, failed: &str) -> (r: String)
    ensures
        !has_prefix(output@, "failed"@) ==> r@ == ok@,
        has_prefix(output@, "failed"@) ==> r@ == failed@,
{
    if starts_with(&chars_of(output), "failed") {
        string_of(&chars_of(failed))
    } else {
        string_of(&chars_of(ok))
    }
}

/// The reply to pausing the music, given the player's output.
pub fn pause_reply(output: &str) -> (r: String)
    ensures
        !has_prefix(output@, "failed"@) ==> r@ == "Music paused"@,
        has_prefix(output@, "failed"@) ==> r@ == "Can't pause music"@,
{
    unless_failed(output, "Music paused", "Can't pause music")
}

/// The reply to stopping the music, given the player's output.
pub fn stop_reply(output: &str) -> (r: String)
    ensures
        !has_prefix(output@, "failed"@) ==> r@ == "Music stopped"@,
        has_prefix(output@, "failed"@) ==> r@ == "Can't stop music"@,
{
    unless_failed(output, "Music stopped", "Can't stop music")
}

/// The reply to opening maps for `query`, given the opener's output.
pub fn maps_reply(query: &str, output: &str) -> (r: String)
    ensures
        !has_prefix(output@, "failed"@) ==> r@ == "Opening maps for: "@ + query@,
        has_prefix(output@, "failed"@) ==> r@ == "Can't open maps"@,
{
    if starts_with(&chars_of(output), "failed") {
        string_of(&chars_of("Can't open maps"))
    } else {
        let mut v = chars_of("Opening maps for: ");
        push_str(&mut v, query);
        string_of(&v)
    }
}

/// Where a photo for analysis is saved.
pub const ANALYSIS_PHOTO: &'static str = "/tmp/lai-analysis.jpg";

/// The path of the photo taken for analysis, or the failure, given the
/// camera command's output.
pub fn analysis_photo(output: &str) -> (r: Result<String, String>)
    ensures
        !has_prefix(output@, "failed"@) ==> (r matches Ok(p) && p@ == ANALYSIS_PHOTO@),
        has_prefix(output@, "failed"@) ==> (r matches Err(e) && e@ == "Failed to take photo: "@ + output@),
{
    if starts_with(&chars_of(output), "failed") {
        let mut v = chars_of("Failed to take photo: ");
        push_str(&mut v, output);
        Err(string_of(&v))
    } else {
        Ok(string_of(&chars_of(ANALYSIS_PHOTO)))
    }
}

} // verus!
