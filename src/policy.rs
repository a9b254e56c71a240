//! Notification policy: urgency ranking, quiet hours, focus mode, reason
//! labels and the shape of native alerts.

use vstd::prelude::*;
use crate::models::Notification;
use crate::store::{Database, DbView, settings_wf};
use crate::text::{
    join_strings, join_with, owned, seq_le, seq_lt, split_at_char, split_on, str_eq, str_le, trim,
    trim_spec,
};

verus! {

/// `critical(4) > high(3) > medium(2) > low(1) > anything else(0)`.
pub open spec fn urgency_rank(u: Seq<char>) -> u8 {
    if u == "critical"@ {
        4
    } else if u == "high"@ {
        3
    } else if u == "medium"@ {
        2
    } else if u == "low"@ {
        1
    } else {
        0
    }
}

/// The rank of an urgency label.
pub fn urgency_level(urgency: &str) -> (r: u8)
    ensures
        r == urgency_rank(urgency@),
{
    if str_eq(urgency, "critical") {
        4
    } else if str_eq(urgency, "high") {
        3
    } else if str_eq(urgency, "medium") {
        2
    } else if str_eq(urgency, "low") {
        1
    } else {
        0
    }
}

/// Whether `urgency` ranks at least as high as `threshold`.
pub fn urgency_meets_threshold(urgency: &str, threshold: &str) -> (r: bool)
    ensures
        r == (urgency_rank(urgency@) >= urgency_rank(threshold@)),
{
    urgency_level(urgency) >= urgency_level(threshold)
}

/// Whether the wall-clock time `now` lies in the quiet window from `start`
/// to `end` (all `HH:MM`); a window with `start > end` wraps past midnight.
pub open spec fn in_quiet_window(start: Seq<char>, end: Seq<char>, now: Seq<char>) -> bool {
    if seq_le(start, end) {
        seq_le(start, now) && seq_lt(now, end)
    } else {
        seq_le(start, now) || seq_lt(now, end)
    }
}

/// Whether `now` lies in the quiet window from `start` to `end`.
pub fn quiet_hours_contain(start: &str, end: &str, now: &str) -> (r: bool)
    ensures
        r == in_quiet_window(start@, end@, now@),
{
    let lt_end = str_le(now, end) && !str_eq(now, end);
    if str_le(start, end) {
        str_le(start, now) && lt_end
    } else {
        str_le(start, now) || lt_end
    }
}

/// A wall-clock time of day `HH:MM`, from `00:00` to `23:59`.
pub open spec fn is_clock_text(t: Seq<char>) -> bool {
    &&& t.len() == 5
    &&& t[2] == ':'
    &&& ('0' <= t[0] <= '1' && '0' <= t[1] <= '9' || t[0] == '2' && '0' <= t[1] <= '3')
    &&& '0' <= t[3] <= '5'
    &&& '0' <= t[4] <= '9'
}

/// Relies on chrono's `Local::now` formatted as `%H:%M`: the local time of day
/// as zero-padded hour (00 to 23) and minute (00 to 59) around a colon.
#[verifier::external_body]
pub(crate) fn local_clock_hhmm() -> (r: String)
    ensures
        is_clock_text(r@),
{
    chrono::Local::now().format("%H:%M").to_string()
}

/// Whether the current local time lies in the quiet window.
pub fn is_in_quiet_hours(start: &str, end: &str) -> (r: bool)
    ensures
        exists|now: Seq<char>| is_clock_text(now) && r == in_quiet_window(start@, end@, now),
{
    let now = local_clock_hhmm();
    quiet_hours_contain(start, end, now.as_str())
}

/// The settings that gate alerts, as stored under their keys.
pub struct AlertSettings {
    pub quiet_hours_start: Option<String>,
    pub quiet_hours_end: Option<String>,
    pub focus_mode_enabled: Option<String>,
    pub focus_mode_threshold: Option<String>,
}

pub open spec fn opt_view(o: Option<String>) -> Option<Seq<char>> {
    match o {
        Some(s) => Some(s@),
        None => None,
    }
}

/// The value stored under `key`, if any.
pub open spec fn setting_value(v: DbView, key: Seq<char>) -> Option<Seq<char>> {
    if exists|k: int| 0 <= k < v.settings.len() && v.settings[k].0@ == key {
        let k = choose|k: int| 0 <= k < v.settings.len() && v.settings[k].0@ == key;
        Some(v.settings[k].1@)
    } else {
        None
    }
}

/// Whether an alert of `urgency` goes out at wall-clock time `now`: never
/// inside quiet hours; with focus mode on (`"1"`), only at or above the
/// threshold (`high` where none is set); otherwise always.
pub open spec fn alert_allowed(
    start: Option<Seq<char>>,
    end: Option<Seq<char>>,
    focus: Option<Seq<char>>,
    threshold: Option<Seq<char>>,
    urgency: Seq<char>,
    now: Seq<char>,
) -> bool {
    if start is Some && end is Some && in_quiet_window(start->0, end->0, now) {
        false
    } else if focus == Some("1"@) {
        urgency_rank(urgency) >= urgency_rank(
            match threshold {
                Some(t) => t,
                None => "high"@,
            },
        )
    } else {
        true
    }
}

pub open spec fn settings_allow(s: AlertSettings, urgency: Seq<char>, now: Seq<char>) -> bool {
    alert_allowed(
        opt_view(s.quiet_hours_start),
        opt_view(s.quiet_hours_end),
        opt_view(s.focus_mode_enabled),
        opt_view(s.focus_mode_threshold),
        urgency,
        now,
    )
}

pub open spec fn db_allows(v: DbView, urgency: Seq<char>, now: Seq<char>) -> bool {
    alert_allowed(
        setting_value(v, "quiet_hours_start"@),
        setting_value(v, "quiet_hours_end"@),
        setting_value(v, "focus_mode_enabled"@),
        setting_value(v, "focus_mode_threshold"@),
        urgency,
        now,
    )
}

/// Whether an alert of `urgency` goes out at wall-clock time `now`.
pub fn admits_alert(settings: &AlertSettings, urgency: &str, now: &str) -> (r: bool)
    ensures
        r == settings_allow(*settings, urgency@, now@),
{
    if let (Some(start), Some(end)) = (&settings.quiet_hours_start, &settings.quiet_hours_end) {
        if quiet_hours_contain(start.as_str(), end.as_str(), now) {
            return false;
        }
    }
    let focus = match &settings.focus_mode_enabled {
        Some(f) => str_eq(f.as_str(), "1"),
        None => false,
    };
    if focus {
        return match &settings.focus_mode_threshold {
            Some(t) => urgency_meets_threshold(urgency, t.as_str()),
            None => urgency_meets_threshold(urgency, "high"),
        };
    }
    true
}

fn read_setting(db: &Database, key: &str) -> (r: Option<String>)
    requires
        db.wf(),
    ensures
        opt_view(r) == setting_value(db@, key@),
{
    let got = db.get_app_setting(key);
    let r = match got {
        Ok(o) => o,
        Err(_) => None,
    };
    proof {
        let v = db@;
        assert(settings_wf(v.settings));
        if let Some(val) = &r {
            let k = choose|k: int| 0 <= k < v.settings.len() && v.settings[k].0@ == key@ && v.settings[k].1@ == val@;
            let c = choose|c: int| 0 <= c < v.settings.len() && v.settings[c].0@ == key@;
            if c != k {
                assert(v.settings[c].0@ != v.settings[k].0@);
            }
        }
    }
    r
}

/// The alert settings stored in `db`.
pub fn alert_settings(db: &Database) -> (r: AlertSettings)
    requires
        db.wf(),
    ensures
        opt_view(r.quiet_hours_start) == setting_value(db@, "quiet_hours_start"@),
        opt_view(r.quiet_hours_end) == setting_value(db@, "quiet_hours_end"@),
        opt_view(r.focus_mode_enabled) == setting_value(db@, "focus_mode_enabled"@),
        opt_view(r.focus_mode_threshold) == setting_value(db@, "focus_mode_threshold"@),
{
    AlertSettings {
        quiet_hours_start: read_setting(db, "quiet_hours_start"),
        quiet_hours_end: read_setting(db, "quiet_hours_end"),
        focus_mode_enabled: read_setting(db, "focus_mode_enabled"),
        focus_mode_threshold: read_setting(db, "focus_mode_threshold"),
    }
}

/// Whether a native alert of `urgency` may go out now, by the quiet hours
/// and focus mode stored in `db`. The local clock is read only where both
/// quiet-hour bounds are set.
pub fn should_send_notification(db: &Database, urgency: &str) -> (r: bool)
    requires
        db.wf(),
    ensures
        exists|now: Seq<char>| is_clock_text(now) && r == db_allows(db@, urgency@, now),
{
    let settings = alert_settings(db);
    if settings.quiet_hours_start.is_some() && settings.quiet_hours_end.is_some() {
        let now = local_clock_hhmm();
        let r = admits_alert(&settings, urgency, now.as_str());
        assert(is_clock_text(now@) && r == db_allows(db@, urgency@, now@));
        r
    } else {
        let r = admits_alert(&settings, urgency, "00:00");
        proof {
            reveal_strlit("00:00");
        }
        assert(is_clock_text("00:00"@) && r == db_allows(db@, urgency@, "00:00"@));
        r
    }
}

/// The label shown for one reason code; unknown codes pass through.
pub open spec fn reason_label(code: Seq<char>) -> Seq<char> {
    if code == "assigned_to_me"@ || code == "assigned"@ {
        "Assigned to you"@
    } else if code == "high_priority"@ || code == "priority_p1_blocker"@ {
        "High priority"@
    } else if code == "deadline_approaching"@ || code == "deadline_24h"@ {
        "Deadline approaching"@
    } else if code == "mentioned_in_comment"@ || code == "mentioned"@ {
        "You were mentioned"@
    } else if code == "vip_sender"@ {
        "VIP sender"@
    } else if code == "unread_over_4h"@ {
        "Unread for 4+ hours"@
    } else if code == "has_attachment"@ {
        "Has attachment"@
    } else if code == "pr_review_requested"@ {
        "Review requested"@
    } else if code == "ci_failed"@ {
        "CI failed"@
    } else if code == "pr_comment"@ {
        "Comment on your PR"@
    } else {
        code
    }
}

/// The labels of the codes, joined with `", "`.
pub open spec fn humanized(codes: Seq<Seq<char>>) -> Seq<char> {
    join_with(codes.map_values(|c: Seq<char>| reason_label(c)), ", "@)
}

/// A reason field made readable: each comma-separated code, trimmed, is
/// replaced by its label.
pub open spec fn humanize_spec(reason: Seq<char>) -> Seq<char> {
    humanized(split_on(reason, ',').map_values(|p: Seq<char>| trim_spec(p)))
}

/// The label of one code.
pub fn reason_label_of(code: &str) -> (r: String)
    ensures
        r@ == reason_label(code@),
{
    if str_eq(code, "assigned_to_me") || str_eq(code, "assigned") {
        String::from_str("Assigned to you")
    } else if str_eq(code, "high_priority") || str_eq(code, "priority_p1_blocker") {
        String::from_str("High priority")
    } else if str_eq(code, "deadline_approaching") || str_eq(code, "deadline_24h") {
        String::from_str("Deadline approaching")
    } else if str_eq(code, "mentioned_in_comment") || str_eq(code, "mentioned") {
        String::from_str("You were mentioned")
    } else if str_eq(code, "vip_sender") {
        String::from_str("VIP sender")
    } else if str_eq(code, "unread_over_4h") {
        String::from_str("Unread for 4+ hours")
    } else if str_eq(code, "has_attachment") {
        String::from_str("Has attachment")
    } else if str_eq(code, "pr_review_requested") {
        String::from_str("Review requested")
    } else if str_eq(code, "ci_failed") {
        String::from_str("CI failed")
    } else if str_eq(code, "pr_comment") {
        String::from_str("Comment on your PR")
    } else {
        owned(code)
    }
}

/// The labels of already trimmed codes, joined with `", "`.
pub fn humanize_codes(codes: &Vec<String>) -> (r: String)
    ensures
        r@ == humanized(codes@.map_values(|c: String| c@)),
{
    let mut labels: Vec<String> = Vec::new();
    let mut i: usize = 0;
    while i < codes.len()
        invariant
            i <= codes.len(),
            labels@.map_values(|l: String| l@) == codes@.subrange(0, i as int).map_values(
                |c: String| reason_label(c@),
            ),
        decreases codes.len() - i,
    {
        let l = reason_label_of(codes[i].as_str());
        labels.push(l);
        assert(codes@.subrange(0, i + 1).map_values(|c: String| reason_label(c@)) == codes@.subrange(
            0,
            i as int,
        ).map_values(|c: String| reason_label(c@)).push(reason_label(codes@[i as int]@)));
        i = i + 1;
    }
    assert(codes@.subrange(0, codes@.len() as int) == codes@);
    assert(codes@.map_values(|c: String| c@).map_values(|c: Seq<char>| reason_label(c)) == labels@.map_values(
        |l: String| l@,
    ));
    join_strings(&labels, ", ")
}

/// A reason field made readable: each comma-separated code is trimmed and
/// replaced by its label; the labels are joined with `", "`.
pub fn humanize_reason(reason: &str) -> (r: String)
    ensures
        r@ == humanize_spec(reason@),
{
    let pieces = split_at_char(reason, ',');
    let mut codes: Vec<String> = Vec::new();
    let mut i: usize = 0;
    while i < pieces.len()
        invariant
            i <= pieces.len(),
            codes@.map_values(|c: String| c@) == pieces@.subrange(0, i as int).map_values(
                |p: String| trim_spec(p@),
            ),
        decreases pieces.len() - i,
    {
        let c = trim(pieces[i].as_str());
        codes.push(c);
        assert(pieces@.subrange(0, i + 1).map_values(|p: String| trim_spec(p@)) == pieces@.subrange(
            0,
            i as int,
        ).map_values(|p: String| trim_spec(p@)).push(trim_spec(pieces@[i as int]@)));
        i = i + 1;
    }
    assert(pieces@.subrange(0, pieces@.len() as int) == pieces@);
    assert(pieces@.map_values(|p: String| p@).map_values(|p: Seq<char>| trim_spec(p)) == codes@.map_values(
        |c: String| c@,
    ));
    humanize_codes(&codes)
}

/// The title of the native alert for a notification of `urgency` about an
/// item titled `title`: tagged for `critical` and `high`, bare for
/// `medium`; no alert below `medium`.
pub open spec fn alert_title(urgency: Seq<char>, title: Seq<char>) -> Option<Seq<char>> {
    if urgency == "critical"@ {
        Some("[CRITICAL] "@ + title)
    } else if urgency == "high"@ {
        Some("[HIGH] "@ + title)
    } else if urgency == "medium"@ {
        Some(title)
    } else {
        None
    }
}

/// A native OS alert: a title and a body.
pub struct NativeAlert {
    pub title: String,
    pub body: String,
}

/// The native alert for `notif` about an item titled `title`, if its
/// urgency calls for one; the body is the readable reason.
pub fn native_alert(notif: &Notification, title: &str) -> (r: Option<NativeAlert>)
    ensures
        match alert_title(notif.urgency@, title@) {
            None => r is None,
            Some(t) => r matches Some(a) && a.title@ == t && a.body@ == humanize_spec(notif.reason@),
        },
{
    let u = notif.urgency.as_str();
    let t = if str_eq(u, "critical") {
        String::from_str("[CRITICAL] ").concat(title)
    } else if str_eq(u, "high") {
        String::from_str("[HIGH] ").concat(title)
    } else if str_eq(u, "medium") {
        owned(title)
    } else {
        return None;
    };
    Some(NativeAlert { title: t, body: humanize_reason(notif.reason.as_str()) })
}

} // verus!
