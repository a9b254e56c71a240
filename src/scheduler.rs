//! The polling scheduler: which plugins are due, the read phase of a poll,
//! and the persist phase that stores what a plugin returned.

use vstd::prelude::*;
use std::path::PathBuf;
use crate::models::{NexusItem, Notification, PluginConfig};
use crate::plugin_runtime::{PluginItem, PluginNotification, PluginResult};
use crate::policy::{
    NativeAlert, admits_alert, alert_settings, alert_title, db_allows, humanize_spec, is_clock_text,
    local_clock_hhmm, native_alert, opt_view, setting_value,
};
use crate::json::{json_of_strings, strings_to_json, strings_view};
use crate::models::clone_opt;
use crate::store::{
    Database, DbView, StoreError, active_for, has_active, insert_notifications, item_stored,
    notification_id_taken, upsert_items, upsert_refused,
};

verus! {

#[verifier::external_type_specification]
#[verifier::external_body]
pub struct ExPathBuf(PathBuf);

/// The path of the file named `file` inside directory `dir`.
pub uninterp spec fn joined_path(dir: PathBuf, file: Seq<char>) -> PathBuf;

/// Relies on `Path::join`: the path of `file` inside `dir`, a function of
/// the two alone.
#[verifier::external_body]
fn join_path(dir: &PathBuf, file: &str) -> (r: PathBuf)
    ensures
        r == joined_path(*dir, file@),
{
    dir.join(file)
}

/// Why a poll did not complete.
#[derive(Debug, PartialEq, Eq)]
pub enum PollError {
    /// No configuration is stored for the plugin.
    NotConfigured(String),
    /// The plugin is switched off.
    Disabled(String),
    /// The plugin has no credentials.
    MissingCredentials(String),
    /// The plugin's file does not exist (its path as text).
    PluginNotFound(String),
    /// The plugin's path could not be resolved.
    PathResolution(String),
    /// The plugin process failed; the text is its diagnostics.
    Execution(String),
    /// The plugin's output could not be decoded.
    Parse(String),
    /// The store refused a write.
    Store(StoreError),
}

impl PollError {
    /// Whether this is an ordinary unconfigured state rather than a fault:
    /// such outcomes are neither reported nor counted.
    pub fn is_expected(&self) -> (r: bool)
        ensures
            r == (self is NotConfigured || self is Disabled || self is MissingCredentials),
    {
        match self {
            PollError::NotConfigured(_) | PollError::Disabled(_) | PollError::MissingCredentials(_) => true,
            _ => false,
        }
    }

    /// Whether this is an ordinary unconfigured state.
    pub open spec fn expected(&self) -> bool {
        self is NotConfigured || self is Disabled || self is MissingCredentials
    }

    /// The one-line description.
    pub open spec fn text(&self) -> Seq<char> {
        match self {
            PollError::NotConfigured(id) => "Plugin '"@ + id@ + "' not configured"@,
            PollError::Disabled(id) => "Plugin '"@ + id@ + "' is disabled"@,
            PollError::MissingCredentials(id) => "Plugin '"@ + id@ + "' has no credentials"@,
            PollError::PluginNotFound(path) => "Plugin file not found: "@ + path@,
            PollError::PathResolution(m) => m@,
            PollError::Execution(m) => m@,
            PollError::Parse(m) => m@,
            PollError::Store(e) => e.text(),
        }
    }

    /// A one-line description.
    pub fn message(&self) -> (r: String)
        ensures
            r@ == self.text(),
            match self {
                PollError::NotConfigured(id) => r@ == "Plugin '"@ + id@ + "' not configured"@,
                PollError::Disabled(id) => r@ == "Plugin '"@ + id@ + "' is disabled"@,
                PollError::MissingCredentials(id) => r@ == "Plugin '"@ + id@ + "' has no credentials"@,
                PollError::PluginNotFound(path) => r@ == "Plugin file not found: "@ + path@,
                PollError::PathResolution(m) => r@ == m@,
                PollError::Execution(m) => r@ == m@,
                PollError::Parse(m) => r@ == m@,
                PollError::Store(e) => r@ == e.text(),
            },
    {
        match self {
            PollError::NotConfigured(id) => String::from_str("Plugin '").concat(id.as_str()).concat(
                "' not configured",
            ),
            PollError::Disabled(id) => String::from_str("Plugin '").concat(id.as_str()).concat(
                "' is disabled",
            ),
            PollError::MissingCredentials(id) => String::from_str("Plugin '").concat(id.as_str()).concat(
                "' has no credentials",
            ),
            PollError::PluginNotFound(path) => String::from_str("Plugin file not found: ").concat(
                path.as_str(),
            ),
            PollError::PathResolution(m) => m.clone(),
            PollError::Execution(m) => m.clone(),
            PollError::Parse(m) => m.clone(),
            PollError::Store(e) => e.message(),
        }
    }
}

/// Whether a plugin is due at `now` (seconds): enabled, with credentials,
/// and never polled or polled at least `poll_interval_secs` ago.
pub open spec fn due(c: PluginConfig, now: i64) -> bool {
    &&& c.is_enabled
    &&& c.credentials is Some
    &&& match c.last_poll_at {
        None => true,
        Some(last) => now as int - last as int >= c.poll_interval_secs as int,
    }
}

/// Whether `config` is due at `now`.
pub fn is_due(config: &PluginConfig, now: i64) -> (r: bool)
    ensures
        r == due(*config, now),
{
    if !config.is_enabled || config.credentials.is_none() {
        return false;
    }
    match config.last_poll_at {
        None => true,
        Some(last) => (now as i128) - (last as i128) >= config.poll_interval_secs as i128,
    }
}

/// The ids of the due configurations, in order.
pub open spec fn due_ids(cs: Seq<PluginConfig>, now: i64) -> Seq<Seq<char>>
    decreases cs.len(),
{
    if cs.len() == 0 {
        seq![]
    } else if due(cs.last(), now) {
        due_ids(cs.drop_last(), now).push(cs.last().plugin_id@)
    } else {
        due_ids(cs.drop_last(), now)
    }
}

/// The plugins to poll in this tick, in order.
pub fn due_plugins(configs: &Vec<PluginConfig>, now: i64) -> (r: Vec<String>)
    ensures
        r@.map_values(|s: String| s@) == due_ids(configs@, now),
{
    let mut out: Vec<String> = Vec::new();
    let mut i: usize = 0;
    while i < configs.len()
        invariant
            i <= configs.len(),
            out@.map_values(|s: String| s@) == due_ids(configs@.subrange(0, i as int), now),
        decreases configs.len() - i,
    {
        assert(configs@.subrange(0, i + 1).drop_last() == configs@.subrange(0, i as int));
        if is_due(&configs[i], now) {
            out.push(configs[i].plugin_id.clone());
            assert(out@.map_values(|s: String| s@) == out@.drop_last().map_values(|s: String| s@).push(
                out@.last()@,
            ));
        }
        i = i + 1;
    }
    assert(configs@.subrange(0, configs@.len() as int) == configs@);
    out
}

/// The notification stored for candidate `pn` under `id` at `now`.
pub open spec fn notice_for(pn: PluginNotification, id: String, now: i64) -> Notification {
    Notification {
        id,
        item_id: pn.item_id,
        reason: pn.reason,
        urgency: pn.urgency,
        is_dismissed: false,
        created_at: now,
    }
}

/// The notifications after recording candidate `pn` under `id`: skipped
/// where an active notification exists for its `(item_id, reason)`, refused
/// where `id` is taken, inserted otherwise.
pub open spec fn candidate_step(v: DbView, pn: PluginNotification, id: String, now: i64) -> Result<
    Seq<Notification>,
    StoreError,
> {
    if has_active(v.notifications, pn.item_id@, pn.reason@) {
        Ok(v.notifications)
    } else if notification_id_taken(v.notifications, id@) {
        Err(StoreError::DuplicateNotificationId)
    } else {
        insert_notifications(v, notice_for(pn, id, now))
    }
}

/// No two active notifications share `(item_id, reason)`.
pub open spec fn active_pairs_unique(ns: Seq<Notification>) -> bool {
    forall|i: int, j: int|
        #![trigger ns[i], ns[j]]
        0 <= i < ns.len() && 0 <= j < ns.len() && i != j && !ns[j].is_dismissed ==> !active_for(
            ns[i],
            ns[j].item_id@,
            ns[j].reason@,
        )
}

/// A candidate whose `(item_id, reason)` already has an active notification
/// changes nothing.
pub proof fn duplicate_candidate_is_skipped(v: DbView, pn: PluginNotification, id: String, now: i64)
    requires
        has_active(v.notifications, pn.item_id@, pn.reason@),
    ensures
        candidate_step(v, pn, id, now) == Ok::<Seq<Notification>, StoreError>(v.notifications),
{
}

/// A candidate for a stored item whose `(item_id, reason)` has no active
/// notification, such as another reason for the same item, is stored as a
/// new active notification.
pub proof fn new_reason_is_recorded(v: DbView, pn: PluginNotification, id: String, now: i64)
    requires
        !has_active(v.notifications, pn.item_id@, pn.reason@),
        item_stored(v.items, pn.item_id@),
        !notification_id_taken(v.notifications, id@),
    ensures
        candidate_step(v, pn, id, now) == Ok::<Seq<Notification>, StoreError>(
            v.notifications.push(notice_for(pn, id, now)),
        ),
        has_active(v.notifications.push(notice_for(pn, id, now)), pn.item_id@, pn.reason@),
{
    let ns = v.notifications.push(notice_for(pn, id, now));
    assert(active_for(ns[v.notifications.len() as int], pn.item_id@, pn.reason@));
}

/// Recording candidates keeps at most one active notification per
/// `(item_id, reason)`.
pub proof fn recording_keeps_active_pairs_unique(v: DbView, pn: PluginNotification, id: String, now: i64)
    requires
        active_pairs_unique(v.notifications),
    ensures
        candidate_step(v, pn, id, now) matches Ok(ns) ==> active_pairs_unique(ns),
{
    let ns0 = v.notifications;
    if !has_active(ns0, pn.item_id@, pn.reason@) && !notification_id_taken(ns0, id@) && item_stored(
        v.items,
        pn.item_id@,
    ) {
        let ns = ns0.push(notice_for(pn, id, now));
        let last = ns0.len() as int;
        assert forall|i: int, j: int|
            #![trigger ns[i], ns[j]]
            0 <= i < ns.len() && 0 <= j < ns.len() && i != j && !ns[j].is_dismissed implies !active_for(
                ns[i],
                ns[j].item_id@,
                ns[j].reason@,
            ) by {
            if i == last {
                assert(ns[j] == ns0[j]);
                if active_for(ns[i], ns[j].item_id@, ns[j].reason@) {
                    assert(active_for(ns0[j], pn.item_id@, pn.reason@));
                }
            } else if j == last {
                assert(ns[i] == ns0[i]);
                if active_for(ns[i], ns[j].item_id@, ns[j].reason@) {
                    assert(active_for(ns0[i], pn.item_id@, pn.reason@));
                }
            } else {
                assert(ns[i] == ns0[i] && ns[j] == ns0[j]);
            }
        }
    }
}

/// Recording a whole batch of candidates, repeated pairs included, keeps at
/// most one active notification per `(item_id, reason)`.
pub proof fn recording_batch_keeps_active_pairs_unique(
    v: DbView,
    pns: Seq<PluginNotification>,
    ids: Seq<String>,
    now: i64,
)
    requires
        active_pairs_unique(v.notifications),
        ids.len() == pns.len(),
    ensures
        record_batch(v, pns, ids, now) matches Ok(ns) ==> active_pairs_unique(ns),
    decreases pns.len(),
{
    if pns.len() > 0 {
        recording_batch_keeps_active_pairs_unique(v, pns.drop_last(), ids.drop_last(), now);
        if let Ok(ns) = record_batch(v, pns.drop_last(), ids.drop_last(), now) {
            recording_keeps_active_pairs_unique(DbView { notifications: ns, ..v }, pns.last(), ids.last(), now);
        }
    }
}

/// Records candidate `pn` under `id`; the result tells whether a
/// notification was stored.
pub fn record_candidate(db: &mut Database, pn: &PluginNotification, id: String, now: i64) -> (r: Result<
    bool,
    StoreError,
>)
    requires
        old(db).wf(),
    ensures
        final(db).wf(),
        match candidate_step(old(db)@, *pn, id, now) {
            Ok(ns) => r is Ok && final(db)@ == (DbView { notifications: ns, ..old(db)@ }),
            Err(e) => r == Err::<bool, StoreError>(e) && final(db)@ == old(db)@,
        },
        r matches Ok(b) ==> b == !has_active(old(db)@.notifications, pn.item_id@, pn.reason@),
{
    let active = db.has_active_notification(pn.item_id.as_str(), pn.reason.as_str());
    if let Ok(true) = active {
        return Ok(false);
    }
    if db.notification_id_in_use(id.as_str()) {
        return Err(StoreError::DuplicateNotificationId);
    }
    let notif = Notification {
        id,
        item_id: pn.item_id.clone(),
        reason: pn.reason.clone(),
        urgency: pn.urgency.clone(),
        is_dismissed: false,
        created_at: now,
    };
    let out = db.insert_notification(&notif);
    match out {
        Ok(()) => Ok(true),
        Err(e) => Err(e),
    }
}

/// The tags of a reported item as stored: its JSON array text, or `[]`
/// where writing it failed.
pub open spec fn tags_text(pi: PluginItem) -> Seq<char> {
    match json_of_strings(strings_view(pi.tags@)) {
        Some(t) => t,
        None => "[]"@,
    }
}

/// Whether `it` is the stored form of the reported item `pi` ingested at
/// `now`: unread, priority 0, metadata and tags as JSON text.
pub open spec fn stored_as(it: NexusItem, pi: PluginItem, now: i64) -> bool {
    &&& it.id == pi.id
    &&& it.source == pi.source
    &&& it.source_id == pi.source_id
    &&& it.item_type == pi.item_type
    &&& it.title == pi.title
    &&& it.summary == pi.summary
    &&& it.url == pi.url
    &&& it.author == pi.author
    &&& it.timestamp == pi.timestamp
    &&& it.priority == 0
    &&& it.metadata == Some(pi.metadata)
    &&& it.tags matches Some(t) && t@ == tags_text(pi)
    &&& !it.is_read
    &&& it.created_at == now
    &&& it.updated_at == now
}

/// The stored form of a reported item.
pub fn stored_item(pi: &PluginItem, now: i64) -> (r: NexusItem)
    ensures
        stored_as(r, *pi, now),
{
    let tags = match strings_to_json(&pi.tags) {
        Some(t) => t,
        None => String::from_str("[]"),
    };
    NexusItem {
        id: pi.id.clone(),
        source: pi.source.clone(),
        source_id: pi.source_id.clone(),
        item_type: pi.item_type.clone(),
        title: pi.title.clone(),
        summary: clone_opt(&pi.summary),
        url: pi.url.clone(),
        author: clone_opt(&pi.author),
        timestamp: pi.timestamp,
        priority: 0,
        metadata: Some(pi.metadata.clone()),
        tags: Some(tags),
        is_read: false,
        created_at: now,
        updated_at: now,
    }
}

/// The items after upserting a batch in order; the first refusal stops it.
pub open spec fn upsert_batch(items: Seq<NexusItem>, batch: Seq<NexusItem>) -> Result<Seq<NexusItem>, StoreError>
    decreases batch.len(),
{
    if batch.len() == 0 {
        Ok(items)
    } else {
        match upsert_batch(items, batch.drop_last()) {
            Err(e) => Err(e),
            Ok(s) => if upsert_refused(s, batch.last()) {
                Err(StoreError::DuplicateItemId)
            } else {
                Ok(upsert_items(s, batch.last()))
            },
        }
    }
}

/// The notifications after recording the candidates in order under `ids`;
/// the first refusal stops it.
pub open spec fn record_batch(
    v: DbView,
    pns: Seq<PluginNotification>,
    ids: Seq<String>,
    now: i64,
) -> Result<Seq<Notification>, StoreError>
    decreases pns.len(),
{
    if pns.len() == 0 {
        Ok(v.notifications)
    } else {
        match record_batch(v, pns.drop_last(), ids.drop_last(), now) {
            Err(e) => Err(e),
            Ok(ns) => candidate_step(DbView { notifications: ns, ..v }, pns.last(), ids.last(), now),
        }
    }
}

/// `v` with its items replaced.
pub open spec fn with_items(v: DbView, items: Seq<NexusItem>) -> DbView {
    DbView { items, ..v }
}

/// The configuration row after a successful poll at `now`: poll time set,
/// error cleared, error count reset.
pub open spec fn polled(c: PluginConfig, now: i64) -> PluginConfig {
    PluginConfig { last_poll_at: Some(now), last_error: None, error_count: 0, ..c }
}

/// The title of the first reported item with id `id`.
pub open spec fn title_for(items: Seq<PluginItem>, id: Seq<char>) -> Option<Seq<char>>
    decreases items.len(),
{
    if items.len() == 0 {
        None
    } else if items[0].id@ == id {
        Some(items[0].title@)
    } else {
        title_for(items.drop_first(), id)
    }
}

/// The native alerts of a poll, as `(title, body)`, in candidate order: one
/// for each candidate that was recorded (not skipped as a duplicate), whose
/// item is among the reported items, that the alert settings of `v` admit
/// at wall-clock time `clock`, and whose urgency calls for an alert.
pub open spec fn poll_alerts(
    v: DbView,
    pns: Seq<PluginNotification>,
    ids: Seq<String>,
    items: Seq<PluginItem>,
    now: i64,
    clock: Seq<char>,
) -> Seq<(Seq<char>, Seq<char>)>
    decreases pns.len(),
{
    if pns.len() == 0 {
        seq![]
    } else {
        let prev = poll_alerts(v, pns.drop_last(), ids.drop_last(), items, now, clock);
        let pn = pns.last();
        let before = record_batch(v, pns.drop_last(), ids.drop_last(), now);
        let title = title_for(items, pn.item_id@);
        if before is Ok && !has_active(before->Ok_0, pn.item_id@, pn.reason@) && title is Some
            && db_allows(v, pn.urgency@, clock) && alert_title(pn.urgency@, title->0) is Some {
            prev.push((alert_title(pn.urgency@, title->0)->0, humanize_spec(pn.reason@)))
        } else {
            prev
        }
    }
}

pub open spec fn alerts_view(a: Seq<NativeAlert>) -> Seq<(Seq<char>, Seq<char>)> {
    a.map_values(|x: NativeAlert| (x.title@, x.body@))
}

/// The configuration rows after stamping the row of `c`'s plugin as polled
/// (or adding `c`, stamped, where no row is stored).
pub open spec fn config_after(cs: Seq<PluginConfig>, c: PluginConfig, now: i64) -> Seq<PluginConfig> {
    if exists|k: int| 0 <= k < cs.len() && cs[k].plugin_id@ == c.plugin_id@ {
        let k = choose|k: int| 0 <= k < cs.len() && cs[k].plugin_id@ == c.plugin_id@;
        cs.update(k, polled(cs[k], now))
    } else {
        cs.push(polled(c, now))
    }
}

/// The outcome of the persist phase from store `old` to store `new`: the
/// stored items `batch` are upserted in order, then the candidates `pns` are
/// recorded under `ids` in order; the first refusal ends the poll with that
/// error. Otherwise the plugin's row is stamped as polled and the report
/// counts the reported items and lists the alerts owed.
pub open spec fn persisted(
    old: DbView,
    new: DbView,
    config: PluginConfig,
    batch: Seq<NexusItem>,
    pns: Seq<PluginNotification>,
    ids: Seq<String>,
    items: Seq<PluginItem>,
    now: i64,
    clock: Seq<char>,
    r: Result<PollReport, PollError>,
) -> bool {
    &&& new.settings == old.settings
    &&& new.weights == old.weights
    &&& match upsert_batch(old.items, batch) {
        Err(e) => r == Err::<PollReport, PollError>(PollError::Store(e)),
        Ok(items1) => match record_batch(with_items(old, items1), pns, ids, now) {
            Err(e) => r == Err::<PollReport, PollError>(PollError::Store(e)),
            Ok(ns) => r matches Ok(rep) && rep.item_count == items.len() && alerts_view(rep.alerts@)
                == poll_alerts(with_items(old, items1), pns, ids, items, now, clock) && new == (DbView {
                items: items1,
                notifications: ns,
                configs: config_after(old.configs, config, now),
                ..old
            }),
        },
    }
}

/// Ids that are not stored and differ from one another.
pub open spec fn fresh_ids(ns: Seq<Notification>, ids: Seq<String>) -> bool {
    &&& forall|j: int| 0 <= j < ids.len() ==> !notification_id_taken(ns, (#[trigger] ids[j])@)
    &&& forall|i: int, j: int|
        #![trigger ids[i], ids[j]]
        0 <= i < ids.len() && 0 <= j < ids.len() && i != j ==> ids[i]@ != ids[j]@
}

/// What a completed poll reports.
pub struct PollReport {
    /// How many items the plugin returned.
    pub item_count: usize,
    /// The native alerts to raise, in order.
    pub alerts: Vec<NativeAlert>,
}

/// Relies on uuid's `Uuid::new_v4` written in its hyphenated form: a random
/// id of 36 characters.
#[verifier::external_body]
fn fresh_notification_id() -> (r: String)
    ensures
        r@.len() == 36,
{
    uuid::Uuid::new_v4().to_string()
}

/// The stored forms of the reported items.
pub fn stored_items(result: &PluginResult, now: i64) -> (r: Vec<NexusItem>)
    ensures
        r@.len() == result.items@.len(),
        forall|j: int| 0 <= j < r@.len() ==> stored_as(#[trigger] r@[j], result.items@[j], now),
{
    let mut batch: Vec<NexusItem> = Vec::new();
    let mut i: usize = 0;
    while i < result.items.len()
        invariant
            i <= result.items@.len(),
            batch@.len() == i,
            forall|j: int| 0 <= j < i ==> stored_as(#[trigger] batch@[j], result.items@[j], now),
        decreases result.items.len() - i,
    {
        batch.push(stored_item(&result.items[i], now));
        i = i + 1;
    }
    batch
}

/// The index of the first item with id `id`.
fn title_index(items: &Vec<PluginItem>, id: &String) -> (r: Option<usize>)
    ensures
        match title_for(items@, id@) {
            None => r is None,
            Some(t) => r matches Some(k) && k < items@.len() && items@[k as int].title@ == t,
        },
{
    let mut k: usize = 0;
    assert(items@.skip(0) == items@);
    while k < items.len()
        invariant
            k <= items@.len(),
            title_for(items@, id@) == title_for(items@.skip(k as int), id@),
        decreases items.len() - k,
    {
        assert(items@.skip(k as int)[0] == items@[k as int]);
        if items[k].id == *id {
            return Some(k);
        }
        assert(items@.skip(k as int).drop_first() == items@.skip(k + 1));
        k = k + 1;
    }
    None
}

/// `drawn`, or where it equals one of `taken`, `drawn` lengthened with `~`
/// past the longest of them.
fn unused_id(drawn: String, taken: &Vec<String>) -> (r: String)
    ensures
        forall|k: int| 0 <= k < taken@.len() ==> (#[trigger] taken@[k])@ != r@,
        r@.len() >= drawn@.len(),
{
    let mut clash = false;
    let mut longest: usize = 0;
    let mut k: usize = 0;
    while k < taken.len()
        invariant
            k <= taken@.len(),
            forall|j: int| 0 <= j < k ==> (#[trigger] taken@[j])@.len() <= longest,
            !clash ==> forall|j: int| 0 <= j < k ==> (#[trigger] taken@[j])@ != drawn@,
        decreases taken.len() - k,
    {
        let n = taken[k].as_str().unicode_len();
        if n > longest {
            longest = n;
        }
        if taken[k] == drawn {
            clash = true;
        }
        k = k + 1;
    }
    if !clash {
        return drawn;
    }
    let ghost d = drawn@;
    let mut id = drawn;
    while id.as_str().unicode_len() <= longest
        invariant
            forall|j: int| 0 <= j < taken@.len() ==> (#[trigger] taken@[j])@.len() <= longest,
            id@.len() >= d.len(),
        decreases longest + 1 - id@.len(),
    {
        id.append("~");
        proof {
            reveal_strlit("~");
        }
    }
    id
}

/// One new notification id per candidate: none stored, all different.
fn draw_fresh_ids(db: &Database, n: usize) -> (r: Vec<String>)
    ensures
        r@.len() == n,
        fresh_ids(db@.notifications, r@),
{
    let stored = db.all_notifications();
    let mut taken: Vec<String> = Vec::new();
    let mut i: usize = 0;
    while i < stored.len()
        invariant
            i <= stored@.len(),
            taken@.len() == i,
            forall|j: int| 0 <= j < i ==> (#[trigger] taken@[j])@ == stored@[j].id@,
        decreases stored.len() - i,
    {
        taken.push(stored[i].id.clone());
        i = i + 1;
    }
    let m = taken.len();
    let mut out: Vec<String> = Vec::new();
    let mut j: usize = 0;
    while j < n
        invariant
            j <= n,
            out@.len() == j,
            m == stored@.len(),
            stored@ == db@.notifications,
            taken@.len() == m + j,
            forall|k: int| 0 <= k < m ==> (#[trigger] taken@[k])@ == stored@[k].id@,
            forall|k: int| 0 <= k < j ==> taken@[m + k] == #[trigger] out@[k],
            fresh_ids(db@.notifications, out@),
        decreases n - j,
    {
        let id = unused_id(fresh_notification_id(), &taken);
        proof {
            assert forall|k: int| 0 <= k < db@.notifications.len() implies db@.notifications[k].id@ != id@ by {
                assert(taken@[k]@ == stored@[k].id@);
            }
            assert forall|k: int| 0 <= k < j implies out@[k]@ != id@ by {
                assert(taken@[m + k] == out@[k]);
            }
        }
        taken.push(id.clone());
        out.push(id);
        j = j + 1;
    }
    out
}

proof fn lemma_record_batch_stays_err(
    v: DbView,
    pns: Seq<PluginNotification>,
    ids: Seq<String>,
    now: i64,
    n: int,
)
    requires
        0 <= n <= pns.len(),
        pns.len() == ids.len(),
        record_batch(v, pns.take(n), ids.take(n), now) is Err,
    ensures
        record_batch(v, pns, ids, now) == record_batch(v, pns.take(n), ids.take(n), now),
    decreases pns.len() - n,
{
    if n < pns.len() {
        assert(pns.take(n + 1).drop_last() == pns.take(n));
        assert(ids.take(n + 1).drop_last() == ids.take(n));
        lemma_record_batch_stays_err(v, pns, ids, now, n + 1);
    } else {
        assert(pns.take(n) == pns);
        assert(ids.take(n) == ids);
    }
}

fn upsert_all(db: &mut Database, batch: &Vec<NexusItem>) -> (r: Result<(), StoreError>)
    requires
        old(db).wf(),
    ensures
        final(db).wf(),
        match upsert_batch(old(db)@.items, batch@) {
            Ok(s) => r is Ok && final(db)@ == (DbView { items: s, ..old(db)@ }),
            Err(e) => r == Err::<(), StoreError>(e),
        },
        final(db)@ == with_items(old(db)@, final(db)@.items),
{
    let ghost v0 = db@;
    let mut i: usize = 0;
    while i < batch.len()
        invariant
            i <= batch.len(),
            db.wf(),
            upsert_batch(v0.items, batch@.subrange(0, i as int)) == Ok::<Seq<NexusItem>, StoreError>(
                db@.items,
            ),
            db@ == (DbView { items: db@.items, ..v0 }),
            v0 == old(db)@,
        decreases batch.len() - i,
    {
        assert(batch@.subrange(0, i + 1).drop_last() == batch@.subrange(0, i as int));
        match db.upsert_item(&batch[i]) {
            Ok(()) => {},
            Err(e) => {
                proof {
                    assert(batch@.subrange(0, i + 1).last() == batch@[i as int]);
                    assert(upsert_batch(v0.items, batch@.subrange(0, i + 1)) == Err::<
                        Seq<NexusItem>,
                        StoreError,
                    >(StoreError::DuplicateItemId));
                    lemma_upsert_batch_stays_err(v0.items, batch@, i as int + 1);
                }
                return Err(e);
            },
        }
        i = i + 1;
    }
    assert(batch@.subrange(0, batch@.len() as int) == batch@);
    Ok(())
}

proof fn lemma_upsert_batch_stays_err(items: Seq<NexusItem>, batch: Seq<NexusItem>, n: int)
    requires
        0 <= n <= batch.len(),
        upsert_batch(items, batch.subrange(0, n)) == Err::<Seq<NexusItem>, StoreError>(
            StoreError::DuplicateItemId,
        ),
    ensures
        upsert_batch(items, batch) == Err::<Seq<NexusItem>, StoreError>(StoreError::DuplicateItemId),
    decreases batch.len() - n,
{
    if n < batch.len() {
        assert(batch.subrange(0, n + 1).drop_last() == batch.subrange(0, n));
        lemma_upsert_batch_stays_err(items, batch, n + 1);
    } else {
        assert(batch.subrange(0, n) == batch);
    }
}

/// The error count after one more failure, saturating at `i32::MAX`.
pub open spec fn bumped(n: i32) -> i32 {
    if n < i32::MAX {
        (n + 1) as i32
    } else {
        n
    }
}

/// Records a failed poll of `plugin_id` on its configuration row: a real
/// fault sets `last_error` to its description and counts one more error;
/// an expected outcome, or a plugin without a row, changes nothing.
pub fn record_failure(db: &mut Database, plugin_id: &str, err: &PollError) -> (r: Result<(), StoreError>)
    requires
        old(db).wf(),
    ensures
        r is Ok,
        final(db).wf(),
        err.expected() || (forall|k: int|
            0 <= k < old(db)@.configs.len() ==> old(db)@.configs[k].plugin_id@ != plugin_id@) ==> final(db)@
            == old(db)@,
        !err.expected() ==> forall|k: int|
            0 <= k < old(db)@.configs.len() && old(db)@.configs[k].plugin_id@ == plugin_id@ ==> {
                &&& final(db)@ == (DbView { configs: final(db)@.configs, ..old(db)@ })
                &&& final(db)@.configs.len() == old(db)@.configs.len()
                &&& forall|m: int|
                    0 <= m < old(db)@.configs.len() && m != k ==> final(db)@.configs[m] == old(db)@.configs[m]
                &&& final(db)@.configs[k] == (PluginConfig {
                    last_error: final(db)@.configs[k].last_error,
                    error_count: bumped(old(db)@.configs[k].error_count),
                    ..old(db)@.configs[k]
                })
                &&& final(db)@.configs[k].last_error matches Some(t) && t@ == err.text()
            },
{
    if err.is_expected() {
        return Ok(());
    }
    let found = db.get_plugin_config(plugin_id);
    let cur = match found {
        Ok(Some(c)) => c,
        _ => {
            return Ok(());
        },
    };
    let ghost v0 = db@;
    proof {
        let k0 = choose|k0: int|
            0 <= k0 < v0.configs.len() && v0.configs[k0].plugin_id@ == plugin_id@ && v0.configs[k0] == cur;
        assert forall|k: int| 0 <= k < v0.configs.len() && v0.configs[k].plugin_id@ == plugin_id@ implies k
            == k0 by {
            if k != k0 {
                assert(v0.configs[k].plugin_id@ != v0.configs[k0].plugin_id@);
            }
        }
    }
    let count = if cur.error_count < i32::MAX {
        cur.error_count + 1
    } else {
        cur.error_count
    };
    let updated = PluginConfig { last_error: Some(err.message()), error_count: count, ..cur };
    let r = db.upsert_plugin_config(&updated);
    proof {
        let k0 = choose|k0: int|
            0 <= k0 < v0.configs.len() && v0.configs[k0].plugin_id@ == plugin_id@ && v0.configs[k0] == cur;
        assert(updated.plugin_id@ == plugin_id@);
        assert(db@.configs == v0.configs.update(k0, updated));
        assert(count == bumped(cur.error_count));
        assert(db@ == (DbView { configs: db@.configs, ..v0 }));
    }
    r
}

/// What the read phase hands to the execute phase.
pub struct PollPlan {
    pub plugin_id: String,
    pub config: PluginConfig,
    pub credentials: String,
    pub plugin_path: PathBuf,
}

/// Plugins live in their directory as `<id>.ts`.
pub fn plugin_file_name(plugin_id: &str) -> (r: String)
    ensures
        r@ == plugin_id@ + ".ts"@,
{
    String::from_str(plugin_id).concat(".ts")
}

/// Schedules plugin polls from one directory of plugins.
pub struct Scheduler {
    plugins_dir: PathBuf,
}

impl Scheduler {
    /// The directory that plugins are looked up in.
    pub closed spec fn dir(&self) -> PathBuf {
        self.plugins_dir
    }

    pub fn new(plugins_dir: PathBuf) -> (r: Self)
        ensures
            r.dir() == plugins_dir,
    {
        Scheduler { plugins_dir }
    }

    /// The read phase: the stored configuration of `plugin_id`, refused
    /// where it is missing, disabled or without credentials.
    pub fn begin_poll(&self, db: &Database, plugin_id: &str) -> (r: Result<PollPlan, PollError>)
        ensures
            (forall|k: int| 0 <= k < db@.configs.len() ==> db@.configs[k].plugin_id@ != plugin_id@) ==> (
            r matches Err(PollError::NotConfigured(id)) && id@ == plugin_id@),
            forall|k: int|
                0 <= k < db@.configs.len() && db@.configs[k].plugin_id@ == plugin_id@ && db.wf() ==> {
                    let c = db@.configs[k];
                    if !c.is_enabled {
                        r matches Err(PollError::Disabled(id)) && id@ == plugin_id@
                    } else if c.credentials is None {
                        r matches Err(PollError::MissingCredentials(id)) && id@ == plugin_id@
                    } else {
                        r matches Ok(plan) && plan.config == c && plan.credentials == c.credentials->0
                            && plan.plugin_id@ == plugin_id@ && plan.plugin_path == joined_path(
                            self.dir(),
                            plugin_id@ + ".ts"@,
                        )
                    }
                },
    {
        let found = db.get_plugin_config(plugin_id);
        let config = match found {
            Ok(Some(c)) => c,
            _ => {
                return Err(PollError::NotConfigured(String::from_str(plugin_id)));
            },
        };
        proof {
            if db.wf() {
                let k0 = choose|k: int|
                    0 <= k < db@.configs.len() && db@.configs[k].plugin_id@ == plugin_id@ && db@.configs[k]
                        == config;
                assert forall|k: int|
                    0 <= k < db@.configs.len() && db@.configs[k].plugin_id@ == plugin_id@ implies db@.configs[k]
                    == config by {
                    if k != k0 {
                        assert(db@.configs[k].plugin_id@ != db@.configs[k0].plugin_id@);
                    }
                }
            }
        }
        if !config.is_enabled {
            return Err(PollError::Disabled(String::from_str(plugin_id)));
        }
        let credentials = match &config.credentials {
            Some(c) => c.clone(),
            None => {
                return Err(PollError::MissingCredentials(String::from_str(plugin_id)));
            },
        };
        let file = plugin_file_name(plugin_id);
        let plugin_path = join_path(&self.plugins_dir, file.as_str());
        Ok(PollPlan { plugin_id: String::from_str(plugin_id), config, credentials, plugin_path })
    }
    /// The persist phase at `now`, with the local wall-clock time `clock`
    /// and one notification id per candidate: upserts `batch` (the stored
    /// forms of the reported items), records each candidate unless an active
    /// notification exists for its `(item_id, reason)`, collects the alerts
    /// owed and stamps the plugin's row as polled.
    pub fn persist_poll(
        &self,
        db: &mut Database,
        plan: &PollPlan,
        result: &PluginResult,
        batch: &Vec<NexusItem>,
        ids: &Vec<String>,
        now: i64,
        clock: &str,
    ) -> (r: Result<PollReport, PollError>)
        requires
            old(db).wf(),
            ids@.len() == result.notifications@.len(),
        ensures
            final(db).wf(),
            persisted(
                old(db)@,
                final(db)@,
                plan.config,
                batch@,
                result.notifications@,
                ids@,
                result.items@,
                now,
                clock@,
                r,
            ),
    {
        let ghost v0 = db@;
        let settings = alert_settings(db);
        match upsert_all(db, batch) {
            Ok(()) => {},
            Err(e) => {
                return Err(PollError::Store(e));
            },
        }
        let ghost v1 = db@;
        let pns = &result.notifications;
        let mut alerts: Vec<NativeAlert> = Vec::new();
        let mut c: usize = 0;
        while c < pns.len()
            invariant
                c <= pns@.len(),
                pns@ == result.notifications@,
                ids@.len() == pns@.len(),
                db.wf(),
                db@ == (DbView { notifications: db@.notifications, ..v1 }),
                v1 == with_items(v0, v1.items),
                v0 == old(db)@,
                upsert_batch(v0.items, batch@) == Ok::<Seq<NexusItem>, StoreError>(v1.items),
                opt_view(settings.quiet_hours_start) == setting_value(v0, "quiet_hours_start"@),
                opt_view(settings.quiet_hours_end) == setting_value(v0, "quiet_hours_end"@),
                opt_view(settings.focus_mode_enabled) == setting_value(v0, "focus_mode_enabled"@),
                opt_view(settings.focus_mode_threshold) == setting_value(v0, "focus_mode_threshold"@),
                record_batch(v1, pns@.take(c as int), ids@.take(c as int), now) == Ok::<
                    Seq<Notification>,
                    StoreError,
                >(db@.notifications),
                alerts_view(alerts@) == poll_alerts(
                    v1,
                    pns@.take(c as int),
                    ids@.take(c as int),
                    result.items@,
                    now,
                    clock@,
                ),
            decreases pns.len() - c,
        {
            let pn = &pns[c];
            let ghost pre = db@;
            let ghost sub = pns@.take(c + 1);
            let ghost sid = ids@.take(c + 1);
            assert(sub.drop_last() == pns@.take(c as int));
            assert(sub.last() == *pn);
            assert(sid.drop_last() == ids@.take(c as int));
            assert(sid.last() == ids@[c as int]);
            assert(DbView { notifications: pre.notifications, ..v1 } == pre);
            let recorded = record_candidate(db, pn, ids[c].clone(), now);
            let stored = match recorded {
                Ok(b) => b,
                Err(e) => {
                    proof {
                        assert(record_batch(v1, sub, sid, now) == Err::<Seq<Notification>, StoreError>(e));
                        lemma_record_batch_stays_err(v1, pns@, ids@, now, c as int + 1);
                        assert(with_items(old(db)@, v1.items) == v1);
                    }
                    return Err(PollError::Store(e));
                },
            };
            assert(DbView { notifications: pre.notifications, ..v1 } == pre);
            let ghost title = title_for(result.items@, pn.item_id@);
            let ghost allowed = db_allows(v1, pn.urgency@, clock@);
            let mut pushed = false;
            let ghost alerts0 = alerts@;
            if stored {
                match title_index(&result.items, &pn.item_id) {
                    Some(k) => {
                        if admits_alert(&settings, pn.urgency.as_str(), clock) {
                            let shown = Notification {
                                id: String::new(),
                                item_id: pn.item_id.clone(),
                                reason: pn.reason.clone(),
                                urgency: pn.urgency.clone(),
                                is_dismissed: false,
                                created_at: now,
                            };
                            if let Some(a) = native_alert(&shown, result.items[k].title.as_str()) {
                                alerts.push(a);
                                pushed = true;
                            }
                        }
                    },
                    None => {},
                }
            }
            proof {
                let prev = poll_alerts(v1, pns@.take(c as int), ids@.take(c as int), result.items@, now, clock@);
                assert(poll_alerts(v1, sub, sid, result.items@, now, clock@) == if pushed {
                    prev.push((alert_title(pn.urgency@, title->0)->0, humanize_spec(pn.reason@)))
                } else {
                    prev
                });
                if pushed {
                    assert(alerts_view(alerts@) == alerts_view(alerts@.drop_last()).push(
                        (alerts@.last().title@, alerts@.last().body@),
                    ));
                    assert(alerts@.drop_last() == alerts0);
                }
            }
            c = c + 1;
        }
        assert(pns@.take(pns@.len() as int) == pns@);
        assert(ids@.take(ids@.len() as int) == ids@);
        let current = db.get_plugin_config(plan.config.plugin_id.as_str());
        let base = match current {
            Ok(Some(cfg)) => cfg,
            _ => plan.config.clone(),
        };
        let updated = PluginConfig { last_poll_at: Some(now), last_error: None, error_count: 0, ..base };
        let ghost v2 = db@;
        proof {
            assert forall|k: int|
                0 <= k < v2.configs.len() && v2.configs[k].plugin_id@ == plan.config.plugin_id@ implies updated
                == polled(v2.configs[k], now) by {
                let k0 = choose|k0: int|
                    0 <= k0 < v2.configs.len() && v2.configs[k0].plugin_id@ == plan.config.plugin_id@
                        && v2.configs[k0] == base;
                if k != k0 {
                    assert(v2.configs[k].plugin_id@ != v2.configs[k0].plugin_id@);
                }
            }
        }
        match db.upsert_plugin_config(&updated) {
            Ok(()) => {},
            Err(e) => {
                return Err(PollError::Store(e));
            },
        }
        proof {
            if exists|k: int| 0 <= k < v2.configs.len() && v2.configs[k].plugin_id@ == plan.config.plugin_id@ {
                let k = choose|k: int| 0 <= k < v2.configs.len() && v2.configs[k].plugin_id@ == plan.config.plugin_id@;
                assert(db@.configs == v2.configs.update(k, polled(v2.configs[k], now)));
            }
            assert(db@.configs == config_after(v0.configs, plan.config, now));
        }
        Ok(PollReport { item_count: result.items.len(), alerts })
    }

    /// The persist phase at the current time: the stored forms of the
    /// reported items, fresh notification ids and the local clock are taken
    /// here, and `persist_poll` does the rest.
    pub fn finish_poll(&self, db: &mut Database, plan: &PollPlan, result: &PluginResult, now: i64) -> (r: Result<
        PollReport,
        PollError,
    >)
        requires
            old(db).wf(),
        ensures
            final(db).wf(),
            exists|batch: Seq<NexusItem>, ids: Seq<String>, clock: Seq<char>|
                #![trigger persisted(old(db)@, final(db)@, plan.config, batch, result.notifications@, ids, result.items@, now, clock, r)]
                batch.len() == result.items@.len() && (forall|j: int|
                    0 <= j < batch.len() ==> stored_as(#[trigger] batch[j], result.items@[j], now))
                    && ids.len() == result.notifications@.len() && fresh_ids(old(db)@.notifications, ids)
                    && is_clock_text(clock) && persisted(
                    old(db)@,
                    final(db)@,
                    plan.config,
                    batch,
                    result.notifications@,
                    ids,
                    result.items@,
                    now,
                    clock,
                    r,
                ),
    {
        let batch = stored_items(result, now);
        let ids = draw_fresh_ids(db, result.notifications.len());
        let clock = local_clock_hhmm();
        let r = self.persist_poll(db, plan, result, &batch, &ids, now, clock.as_str());
        assert(persisted(
            old(db)@,
            db@,
            plan.config,
            batch@,
            result.notifications@,
            ids@,
            result.items@,
            now,
            clock@,
            r,
        ));
        r
    }
}

} // verus!
