//! The store of items, notifications, plugin configuration, application
//! settings and heuristic weights, with the rules of each table.

use vstd::prelude::*;
use crate::models::{HeuristicWeight, NexusItem, Notification, PluginConfig};

verus! {

/// Why a write was refused.
#[derive(Debug, PartialEq, Eq, Structural)]
pub enum StoreError {
    /// Another item, under another `(source, source_id)`, has this id.
    DuplicateItemId,
    /// The notification refers to an item that is not stored.
    UnknownItem,
    /// Another weight, under another `(source, signal)`, has this id.
    DuplicateWeightId,
    /// A notification with this id is stored already.
    DuplicateNotificationId,
}

impl StoreError {
    /// The description of the refusal.
    pub open spec fn text(&self) -> Seq<char> {
        match self {
            StoreError::DuplicateItemId => "UNIQUE constraint failed: items.id"@,
            StoreError::UnknownItem => "FOREIGN KEY constraint failed"@,
            StoreError::DuplicateWeightId => "UNIQUE constraint failed: heuristic_weights.id"@,
            StoreError::DuplicateNotificationId => "UNIQUE constraint failed: notifications.id"@,
        }
    }

    pub fn message(&self) -> (r: String)
        ensures
            r@ == self.text(),
    {
        match self {
            StoreError::DuplicateItemId => String::from_str("UNIQUE constraint failed: items.id"),
            StoreError::UnknownItem => String::from_str("FOREIGN KEY constraint failed"),
            StoreError::DuplicateWeightId => String::from_str(
                "UNIQUE constraint failed: heuristic_weights.id",
            ),
            StoreError::DuplicateNotificationId => String::from_str(
                "UNIQUE constraint failed: notifications.id",
            ),
        }
    }
}

/// The contents of the store, table by table, in insertion order.
pub struct DbView {
    pub items: Seq<NexusItem>,
    pub notifications: Seq<Notification>,
    pub configs: Seq<PluginConfig>,
    pub settings: Seq<(String, String)>,
    pub weights: Seq<HeuristicWeight>,
}

pub open spec fn same_item_key(a: NexusItem, b: NexusItem) -> bool {
    a.source@ == b.source@ && a.source_id@ == b.source_id@
}

/// Items are unique by id and by `(source, source_id)`.
pub open spec fn items_wf(items: Seq<NexusItem>) -> bool {
    forall|i: int, j: int|
        #![trigger items[i], items[j]]
        0 <= i < items.len() && 0 <= j < items.len() && i != j ==> items[i].id@ != items[j].id@
            && !same_item_key(items[i], items[j])
}

pub open spec fn notifications_wf(ns: Seq<Notification>) -> bool {
    forall|i: int, j: int|
        #![trigger ns[i], ns[j]]
        0 <= i < ns.len() && 0 <= j < ns.len() && i != j ==> ns[i].id@ != ns[j].id@
}

pub open spec fn configs_wf(cs: Seq<PluginConfig>) -> bool {
    forall|i: int, j: int|
        #![trigger cs[i], cs[j]]
        0 <= i < cs.len() && 0 <= j < cs.len() && i != j ==> cs[i].plugin_id@ != cs[j].plugin_id@
}

pub open spec fn settings_wf(ss: Seq<(String, String)>) -> bool {
    forall|i: int, j: int|
        #![trigger ss[i], ss[j]]
        0 <= i < ss.len() && 0 <= j < ss.len() && i != j ==> ss[i].0@ != ss[j].0@
}

pub open spec fn same_weight_key(a: HeuristicWeight, b: HeuristicWeight) -> bool {
    a.source@ == b.source@ && a.signal@ == b.signal@
}

pub open spec fn weights_wf(ws: Seq<HeuristicWeight>) -> bool {
    forall|i: int, j: int|
        #![trigger ws[i], ws[j]]
        0 <= i < ws.len() && 0 <= j < ws.len() && i != j ==> ws[i].id@ != ws[j].id@
            && !same_weight_key(ws[i], ws[j])
}

pub open spec fn db_wf(v: DbView) -> bool {
    &&& items_wf(v.items)
    &&& notifications_wf(v.notifications)
    &&& configs_wf(v.configs)
    &&& settings_wf(v.settings)
    &&& weights_wf(v.weights)
}

/// The stored item after re-ingestion of `inc`: content fields follow `inc`;
/// id, read flag and creation time stay.
pub open spec fn refreshed(old: NexusItem, inc: NexusItem) -> NexusItem {
    NexusItem {
        item_type: inc.item_type,
        title: inc.title,
        summary: inc.summary,
        url: inc.url,
        author: inc.author,
        timestamp: inc.timestamp,
        priority: inc.priority,
        metadata: inc.metadata,
        tags: inc.tags,
        updated_at: inc.updated_at,
        ..old
    }
}

/// The items after a successful upsert of `item`.
pub open spec fn upsert_items(items: Seq<NexusItem>, item: NexusItem) -> Seq<NexusItem> {
    if exists|k: int| 0 <= k < items.len() && same_item_key(items[k], item) {
        let k = choose|k: int| 0 <= k < items.len() && same_item_key(items[k], item);
        items.update(k, refreshed(items[k], item))
    } else {
        items.push(item)
    }
}

/// An upsert fails only where the pair is new and the id is taken.
pub open spec fn upsert_refused(items: Seq<NexusItem>, item: NexusItem) -> bool {
    &&& !(exists|k: int| 0 <= k < items.len() && same_item_key(items[k], item))
    &&& exists|k: int| 0 <= k < items.len() && items[k].id@ == item.id@
}

/// Whether a listing filtered by `source` and read state shows `it`.
pub open spec fn listed(it: NexusItem, source: Option<Seq<char>>, unread_only: bool) -> bool {
    &&& (source matches Some(s) ==> it.source@ == s)
    &&& (unread_only ==> !it.is_read)
}

/// `x` placed after every element of `s` that is at least as recent.
pub open spec fn insert_by_time(s: Seq<NexusItem>, x: NexusItem) -> Seq<NexusItem>
    decreases s.len(),
{
    if s.len() == 0 {
        seq![x]
    } else if s.last().timestamp >= x.timestamp {
        s.push(x)
    } else {
        insert_by_time(s.drop_last(), x).push(s.last())
    }
}

/// The listed items, newest first; items of equal time in insertion order.
pub open spec fn by_recency(items: Seq<NexusItem>, source: Option<Seq<char>>, unread_only: bool) -> Seq<
    NexusItem,
>
    decreases items.len(),
{
    if items.len() == 0 {
        seq![]
    } else {
        let prev = by_recency(items.drop_last(), source, unread_only);
        if listed(items.last(), source, unread_only) {
            insert_by_time(prev, items.last())
        } else {
            prev
        }
    }
}

/// At most `limit` elements; a negative limit keeps all.
pub open spec fn limited<T>(s: Seq<T>, limit: i64) -> Seq<T> {
    if limit < 0 || limit >= s.len() {
        s
    } else {
        s.take(limit as int)
    }
}

pub open spec fn newest_first(s: Seq<NexusItem>) -> bool {
    forall|i: int, j: int| 0 <= i < j < s.len() ==> s[i].timestamp >= s[j].timestamp
}

proof fn lemma_insert_by_time_at(s: Seq<NexusItem>, x: NexusItem, p: int)
    requires
        0 <= p <= s.len(),
        forall|j: int| p <= j < s.len() ==> s[j].timestamp < x.timestamp,
        p == 0 || s[p - 1].timestamp >= x.timestamp,
    ensures
        insert_by_time(s, x) == s.insert(p, x),
    decreases s.len(),
{
    if s.len() == 0 {
        assert(s.insert(p, x) == seq![x]);
    } else if s.last().timestamp >= x.timestamp {
        assert(p == s.len());
        assert(s.insert(p, x) == s.push(x));
    } else {
        lemma_insert_by_time_at(s.drop_last(), x, p);
        assert(s.drop_last().insert(p, x).push(s.last()) == s.insert(p, x));
    }
}

proof fn lemma_insert_by_time_sorted(s: Seq<NexusItem>, x: NexusItem)
    requires
        newest_first(s),
    ensures
        newest_first(insert_by_time(s, x)),
        insert_by_time(s, x).len() == s.len() + 1,
    decreases s.len(),
{
    if s.len() == 0 {
    } else if s.last().timestamp >= x.timestamp {
    } else {
        let t = s.drop_last();
        lemma_insert_by_time_sorted(t, x);
        lemma_insert_by_time_lower(t, x, s.last().timestamp);
    }
}

proof fn lemma_insert_by_time_lower(s: Seq<NexusItem>, x: NexusItem, m: i64)
    requires
        forall|j: int| 0 <= j < s.len() ==> s[j].timestamp >= m,
        x.timestamp >= m,
    ensures
        forall|i: int| 0 <= i < insert_by_time(s, x).len() ==> insert_by_time(s, x)[i].timestamp >= m,
        insert_by_time(s, x).len() == s.len() + 1,
    decreases s.len(),
{
    if s.len() > 0 && s.last().timestamp < x.timestamp {
        lemma_insert_by_time_lower(s.drop_last(), x, m);
    }
}

proof fn lemma_by_recency_sorted(items: Seq<NexusItem>, source: Option<Seq<char>>, unread_only: bool)
    ensures
        newest_first(by_recency(items, source, unread_only)),
    decreases items.len(),
{
    if items.len() > 0 {
        lemma_by_recency_sorted(items.drop_last(), source, unread_only);
        let prev = by_recency(items.drop_last(), source, unread_only);
        if listed(items.last(), source, unread_only) {
            lemma_insert_by_time_sorted(prev, items.last());
        }
    }
}

/// A listing by recency puts newer items first: of two listed items with
/// distinct timestamps, the more recent one comes earlier.
pub proof fn listing_is_newest_first(
    items: Seq<NexusItem>,
    source: Option<Seq<char>>,
    unread_only: bool,
    limit: i64,
    i: int,
    j: int,
)
    requires
        0 <= i < limited(by_recency(items, source, unread_only), limit).len(),
        0 <= j < limited(by_recency(items, source, unread_only), limit).len(),
        limited(by_recency(items, source, unread_only), limit)[i].timestamp
            > limited(by_recency(items, source, unread_only), limit)[j].timestamp,
    ensures
        i < j,
{
    lemma_by_recency_sorted(items, source, unread_only);
}

/// Re-ingesting an item whose `(source, source_id)` is stored keeps the
/// stored read flag, whatever read flag the incoming item carries.
pub proof fn upsert_never_changes_read_flag(items: Seq<NexusItem>, item: NexusItem, k: int)
    requires
        items_wf(items),
        0 <= k < items.len(),
        same_item_key(items[k], item),
    ensures
        !upsert_refused(items, item),
        upsert_items(items, item).len() == items.len(),
        upsert_items(items, item)[k].is_read == items[k].is_read,
        upsert_items(items, item)[k].id == items[k].id,
        upsert_items(items, item)[k].title == item.title,
        forall|m: int| 0 <= m < items.len() && m != k ==> upsert_items(items, item)[m] == items[m],
{
    assert(0 <= k < items.len() && same_item_key(items[k], item));
    let c = choose|c: int| 0 <= c < items.len() && same_item_key(items[c], item);
    if c != k {
        assert(same_item_key(items[c], items[k]));
    }
}


/// Whether `n` is an active notification for `(item_id, reason)`.
pub open spec fn active_for(n: Notification, item_id: Seq<char>, reason: Seq<char>) -> bool {
    !n.is_dismissed && n.item_id@ == item_id && n.reason@ == reason
}

pub open spec fn has_active(ns: Seq<Notification>, item_id: Seq<char>, reason: Seq<char>) -> bool {
    exists|k: int| 0 <= k < ns.len() && active_for(ns[k], item_id, reason)
}

pub open spec fn item_stored(items: Seq<NexusItem>, id: Seq<char>) -> bool {
    exists|k: int| 0 <= k < items.len() && items[k].id@ == id
}

pub open spec fn notification_id_taken(ns: Seq<Notification>, id: Seq<char>) -> bool {
    exists|k: int| 0 <= k < ns.len() && ns[k].id@ == id
}

/// The notifications after inserting `n`: nothing happens where its id is
/// taken; a notification of an item that is not stored is refused.
pub open spec fn insert_notifications(v: DbView, n: Notification) -> Result<Seq<Notification>, StoreError> {
    if notification_id_taken(v.notifications, n.id@) {
        Ok(v.notifications)
    } else if !item_stored(v.items, n.item_id@) {
        Err(StoreError::UnknownItem)
    } else {
        Ok(v.notifications.push(n))
    }
}

/// `x` placed after every element of `s` created at least as late.
pub open spec fn insert_by_created(s: Seq<Notification>, x: Notification) -> Seq<Notification>
    decreases s.len(),
{
    if s.len() == 0 {
        seq![x]
    } else if s.last().created_at >= x.created_at {
        s.push(x)
    } else {
        insert_by_created(s.drop_last(), x).push(s.last())
    }
}

/// The active notifications, newest first; equal times in insertion order.
pub open spec fn active_by_recency(ns: Seq<Notification>) -> Seq<Notification>
    decreases ns.len(),
{
    if ns.len() == 0 {
        seq![]
    } else {
        let prev = active_by_recency(ns.drop_last());
        if !ns.last().is_dismissed {
            insert_by_created(prev, ns.last())
        } else {
            prev
        }
    }
}

proof fn lemma_insert_by_created_at(s: Seq<Notification>, x: Notification, p: int)
    requires
        0 <= p <= s.len(),
        forall|j: int| p <= j < s.len() ==> s[j].created_at < x.created_at,
        p == 0 || s[p - 1].created_at >= x.created_at,
    ensures
        insert_by_created(s, x) == s.insert(p, x),
    decreases s.len(),
{
    if s.len() == 0 {
        assert(s.insert(p, x) == seq![x]);
    } else if s.last().created_at >= x.created_at {
        assert(p == s.len());
        assert(s.insert(p, x) == s.push(x));
    } else {
        lemma_insert_by_created_at(s.drop_last(), x, p);
        assert(s.drop_last().insert(p, x).push(s.last()) == s.insert(p, x));
    }
}

pub open spec fn created_newest_first(s: Seq<Notification>) -> bool {
    forall|i: int, j: int| 0 <= i < j < s.len() ==> s[i].created_at >= s[j].created_at
}

proof fn lemma_insert_by_created_lower(s: Seq<Notification>, x: Notification, m: i64)
    requires
        forall|j: int| 0 <= j < s.len() ==> s[j].created_at >= m,
        x.created_at >= m,
    ensures
        forall|i: int| 0 <= i < insert_by_created(s, x).len() ==> insert_by_created(s, x)[i].created_at >= m,
        insert_by_created(s, x).len() == s.len() + 1,
    decreases s.len(),
{
    if s.len() > 0 && s.last().created_at < x.created_at {
        lemma_insert_by_created_lower(s.drop_last(), x, m);
    }
}

proof fn lemma_insert_by_created_sorted(s: Seq<Notification>, x: Notification)
    requires
        created_newest_first(s),
    ensures
        created_newest_first(insert_by_created(s, x)),
        insert_by_created(s, x).len() == s.len() + 1,
    decreases s.len(),
{
    if s.len() > 0 && s.last().created_at < x.created_at {
        let t = s.drop_last();
        lemma_insert_by_created_sorted(t, x);
        lemma_insert_by_created_lower(t, x, s.last().created_at);
    }
}

proof fn lemma_active_by_recency_sorted(ns: Seq<Notification>)
    ensures
        created_newest_first(active_by_recency(ns)),
    decreases ns.len(),
{
    if ns.len() > 0 {
        lemma_active_by_recency_sorted(ns.drop_last());
        if !ns.last().is_dismissed {
            lemma_insert_by_created_sorted(active_by_recency(ns.drop_last()), ns.last());
        }
    }
}

/// The listing of active notifications puts newer ones first: of two listed
/// notifications with distinct creation times, the more recent comes earlier.
pub proof fn active_listing_is_newest_first(ns: Seq<Notification>, i: int, j: int)
    requires
        0 <= i < active_by_recency(ns).len(),
        0 <= j < active_by_recency(ns).len(),
        active_by_recency(ns)[i].created_at > active_by_recency(ns)[j].created_at,
    ensures
        i < j,
{
    lemma_active_by_recency_sorted(ns);
}

/// Enabled configurations that hold credentials, in insertion order.
pub open spec fn enabled_configs(cs: Seq<PluginConfig>) -> Seq<PluginConfig>
    decreases cs.len(),
{
    if cs.len() == 0 {
        seq![]
    } else if cs.last().is_enabled && cs.last().credentials is Some {
        enabled_configs(cs.drop_last()).push(cs.last())
    } else {
        enabled_configs(cs.drop_last())
    }
}

/// Weights of `source`, in insertion order.
pub open spec fn weights_of(ws: Seq<HeuristicWeight>, source: Seq<char>) -> Seq<HeuristicWeight>
    decreases ws.len(),
{
    if ws.len() == 0 {
        seq![]
    } else if ws.last().source@ == source {
        weights_of(ws.drop_last(), source).push(ws.last())
    } else {
        weights_of(ws.drop_last(), source)
    }
}

/// The weights after a successful upsert of `w`: a stored `(source, signal)`
/// takes the new weight and keeps its id.
pub open spec fn upsert_weights(ws: Seq<HeuristicWeight>, w: HeuristicWeight) -> Seq<HeuristicWeight> {
    if exists|k: int| 0 <= k < ws.len() && same_weight_key(ws[k], w) {
        let k = choose|k: int| 0 <= k < ws.len() && same_weight_key(ws[k], w);
        ws.update(k, HeuristicWeight { weight: w.weight, ..ws[k] })
    } else {
        ws.push(w)
    }
}

pub open spec fn weight_upsert_refused(ws: Seq<HeuristicWeight>, w: HeuristicWeight) -> bool {
    &&& !(exists|k: int| 0 <= k < ws.len() && same_weight_key(ws[k], w))
    &&& exists|k: int| 0 <= k < ws.len() && ws[k].id@ == w.id@
}

/// The weights seeded by default: `(source, signal, weight)`.
pub open spec fn default_weights() -> Seq<(Seq<char>, Seq<char>, i32)> {
    seq![
        ("jira"@, "assigned_to_me"@, 3i32),
        ("jira"@, "priority_p1_blocker"@, 4i32),
        ("jira"@, "mentioned_in_comment"@, 2i32),
        ("jira"@, "deadline_24h"@, 3i32),
    ]
}

pub open spec fn has_weight(ws: Seq<HeuristicWeight>, d: (Seq<char>, Seq<char>, i32)) -> bool {
    exists|k: int| 0 <= k < ws.len() && ws[k].source@ == d.0 && ws[k].signal@ == d.1 && ws[k].weight == d.2
}

proof fn lemma_upsert_weight_keeps(ws: Seq<HeuristicWeight>, w: HeuristicWeight)
    requires
        weights_wf(ws),
    ensures
        has_weight(upsert_weights(ws, w), (w.source@, w.signal@, w.weight)),
        forall|d: (Seq<char>, Seq<char>, i32)|
            has_weight(ws, d) && !(d.0 == w.source@ && d.1 == w.signal@) ==> has_weight(
                upsert_weights(ws, w),
                d,
            ),
{
    let r = upsert_weights(ws, w);
    if exists|k: int| 0 <= k < ws.len() && same_weight_key(ws[k], w) {
        let k = choose|k: int| 0 <= k < ws.len() && same_weight_key(ws[k], w);
        assert(r[k].source@ == w.source@ && r[k].signal@ == w.signal@ && r[k].weight == w.weight);
        assert forall|d: (Seq<char>, Seq<char>, i32)|
            has_weight(ws, d) && !(d.0 == w.source@ && d.1 == w.signal@) implies has_weight(r, d) by {
            let m = choose|m: int|
                0 <= m < ws.len() && ws[m].source@ == d.0 && ws[m].signal@ == d.1 && ws[m].weight == d.2;
            assert(m != k);
            assert(r[m] == ws[m]);
        }
    } else {
        assert(r[ws.len() as int] == w);
        assert forall|d: (Seq<char>, Seq<char>, i32)|
            has_weight(ws, d) && !(d.0 == w.source@ && d.1 == w.signal@) implies has_weight(r, d) by {
            let m = choose|m: int|
                0 <= m < ws.len() && ws[m].source@ == d.0 && ws[m].signal@ == d.1 && ws[m].weight == d.2;
            assert(r[m] == ws[m]);
        }
    }
}

/// The store. Every access goes through one of the methods below.
pub struct Database {
    items: Vec<NexusItem>,
    notifications: Vec<Notification>,
    configs: Vec<PluginConfig>,
    settings: Vec<(String, String)>,
    weights: Vec<HeuristicWeight>,
}

impl View for Database {
    type V = DbView;

    closed spec fn view(&self) -> DbView {
        DbView {
            items: self.items@,
            notifications: self.notifications@,
            configs: self.configs@,
            settings: self.settings@,
            weights: self.weights@,
        }
    }
}

impl Database {
    pub open spec fn wf(&self) -> bool {
        db_wf(self@)
    }

    /// An empty store.
    pub fn new_in_memory() -> (r: Result<Database, StoreError>)
        ensures
            r matches Ok(db) && db.wf() && db@.items.len() == 0 && db@.notifications.len() == 0
                && db@.configs.len() == 0 && db@.settings.len() == 0 && db@.weights.len() == 0,
    {
        Ok(
            Database {
                items: Vec::new(),
                notifications: Vec::new(),
                configs: Vec::new(),
                settings: Vec::new(),
                weights: Vec::new(),
            },
        )
    }

    fn item_with_key(&self, source: &String, source_id: &String) -> (r: Option<usize>)
        ensures
            r matches Some(k) ==> k < self@.items.len() && self@.items[k as int].source@ == source@
                && self@.items[k as int].source_id@ == source_id@,
            r is None ==> forall|k: int|
                0 <= k < self@.items.len() ==> !(self@.items[k].source@ == source@
                    && self@.items[k].source_id@ == source_id@),
    {
        let mut i: usize = 0;
        while i < self.items.len()
            invariant
                i <= self.items@.len(),
                forall|k: int|
                    0 <= k < i ==> !(self.items@[k].source@ == source@ && self.items@[k].source_id@
                        == source_id@),
            decreases self.items.len() - i,
        {
            if self.items[i].source == *source && self.items[i].source_id == *source_id {
                return Some(i);
            }
            i = i + 1;
        }
        None
    }

    fn item_with_id(&self, id: &str) -> (r: Option<usize>)
        ensures
            r matches Some(k) ==> k < self@.items.len() && self@.items[k as int].id@ == id@,
            r is None ==> forall|k: int| 0 <= k < self@.items.len() ==> self@.items[k].id@ != id@,
    {
        let mut i: usize = 0;
        while i < self.items.len()
            invariant
                i <= self.items@.len(),
                forall|k: int| 0 <= k < i ==> self.items@[k].id@ != id@,
            decreases self.items.len() - i,
        {
            if crate::text::str_eq(self.items[i].id.as_str(), id) {
                return Some(i);
            }
            i = i + 1;
        }
        None
    }

    /// Inserts `item`, or, where its `(source, source_id)` is stored, refreshes
    /// the stored item's content and keeps its read flag.
    pub fn upsert_item(&mut self, item: &NexusItem) -> (r: Result<(), StoreError>)
        requires
            old(self).wf(),
        ensures
            final(self).wf(),
            r is Err <==> upsert_refused(old(self)@.items, *item),
            r is Err ==> r == Err::<(), StoreError>(StoreError::DuplicateItemId) && final(self)@ == old(self)@,
            r is Ok ==> final(self)@ == (DbView { items: upsert_items(old(self)@.items, *item), ..old(self)@ }),
    {
        let ghost items0 = self@.items;
        match self.item_with_key(&item.source, &item.source_id) {
            Some(k) => {
                let cur = &self.items[k];
                let fresh = NexusItem {
                    id: cur.id.clone(),
                    source: cur.source.clone(),
                    source_id: cur.source_id.clone(),
                    item_type: item.item_type.clone(),
                    title: item.title.clone(),
                    summary: crate::models::clone_opt(&item.summary),
                    url: item.url.clone(),
                    author: crate::models::clone_opt(&item.author),
                    timestamp: item.timestamp,
                    priority: item.priority,
                    metadata: crate::models::clone_opt(&item.metadata),
                    tags: crate::models::clone_opt(&item.tags),
                    is_read: cur.is_read,
                    created_at: cur.created_at,
                    updated_at: item.updated_at,
                };
                proof {
                    let c = choose|c: int| 0 <= c < items0.len() && same_item_key(items0[c], *item);
                    assert(same_item_key(items0[k as int], *item));
                    assert(items_wf(items0));
                    if c != k {
                        assert(same_item_key(items0[c], items0[k as int]));
                    }
                    assert(fresh == refreshed(items0[k as int], *item));
                }
                self.items.set(k, fresh);
                proof {
                    assert(self@.items == upsert_items(items0, *item));
                    assert forall|i: int, j: int|
                        0 <= i < self@.items.len() && 0 <= j < self@.items.len() && i != j implies self@.items[i].id@
                        != self@.items[j].id@ && !same_item_key(self@.items[i], self@.items[j]) by {
                        assert(items0[i].id@ != items0[j].id@ && !same_item_key(items0[i], items0[j]));
                    }
                }
                Ok(())
            },
            None => {
                match self.item_with_id(item.id.as_str()) {
                    Some(_) => Err(StoreError::DuplicateItemId),
                    None => {
                        self.items.push(item.clone());
                        proof {
                            assert(self@.items == upsert_items(items0, *item));
                        }
                        Ok(())
                    },
                }
            },
        }
    }

    /// Items of `source` (any source for `None`), unread ones only where
    /// asked, newest first, at most `limit` of them (all for a negative
    /// limit).
    pub fn get_items(&self, source: Option<&str>, unread_only: bool, limit: i64) -> (r: Result<
        Vec<NexusItem>,
        StoreError,
    >)
        ensures
            r matches Ok(v) && v@ == limited(
                by_recency(
                    self@.items,
                    match source {
                        Some(s) => Some(s@),
                        None => None,
                    },
                    unread_only,
                ),
                limit,
            ),
    {
        let ghost src = match source {
            Some(s) => Some(s@),
            None => None::<Seq<char>>,
        };
        let mut out: Vec<NexusItem> = Vec::new();
        let mut i: usize = 0;
        while i < self.items.len()
            invariant
                i <= self.items@.len(),
                src == match source {
                    Some(s) => Some(s@),
                    None => None::<Seq<char>>,
                },
                out@ == by_recency(self.items@.subrange(0, i as int), src, unread_only),
            decreases self.items.len() - i,
        {
            let it = &self.items[i];
            let ghost pre = self.items@.subrange(0, i as int);
            assert(self.items@.subrange(0, i + 1).drop_last() == pre);
            let ghost s1 = self.items@.subrange(0, i + 1);
            assert(s1.last() == *it);
            let source_ok = match source {
                Some(s) => {
                    let b = crate::text::str_eq(it.source.as_str(), s);
                    assert(src == Some(s@));
                    b
                },
                None => true,
            };
            let shown = source_ok && (!unread_only || !it.is_read);
            if shown {
                let mut p: usize = out.len();
                while p > 0 && out[p - 1].timestamp < it.timestamp
                    invariant
                        p <= out@.len(),
                        forall|j: int| p <= j < out@.len() ==> out@[j].timestamp < it.timestamp,
                    decreases p,
                {
                    p = p - 1;
                }
                proof {
                    lemma_insert_by_time_at(out@, *it, p as int);
                }
                out.insert(p, it.clone());
            }
            assert(source_ok == (src matches Some(t) ==> it.source@ == t));
            assert(shown == listed(*it, src, unread_only));
            assert(out@ == by_recency(s1, src, unread_only));
            i = i + 1;
        }
        assert(self.items@.subrange(0, self.items@.len() as int) == self.items@);
        if limit >= 0 && (limit as u64) < (out.len() as u64) {
            out.truncate(limit as usize);
        }
        Ok(out)
    }

    /// Sets the read flag of the item with id `item_id`, if any.
    pub fn mark_item_read(&mut self, item_id: &str, read: bool) -> (r: Result<(), StoreError>)
        requires
            old(self).wf(),
        ensures
            r is Ok,
            final(self).wf(),
            final(self)@ == (DbView {
                items: Seq::new(
                    old(self)@.items.len(),
                    |k: int|
                        if old(self)@.items[k].id@ == item_id@ {
                            NexusItem { is_read: read, ..old(self)@.items[k] }
                        } else {
                            old(self)@.items[k]
                        },
                ),
                ..old(self)@
            }),
    {
        let ghost items0 = self@.items;
        match self.item_with_id(item_id) {
            Some(k) => {
                let mut it = self.items[k].clone();
                it.is_read = read;
                self.items.set(k, it);
                proof {
                    assert(items_wf(items0));
                    assert forall|m: int| 0 <= m < items0.len() && m != k implies items0[m].id@ != item_id@ by {
                        assert(items0[m].id@ != items0[k as int].id@);
                    }
                    assert(self@.items =~= Seq::new(
                        items0.len(),
                        |m: int|
                            if items0[m].id@ == item_id@ {
                                NexusItem { is_read: read, ..items0[m] }
                            } else {
                                items0[m]
                            },
                    ));
                    assert forall|i: int, j: int|
                        0 <= i < self@.items.len() && 0 <= j < self@.items.len() && i != j implies self@.items[i].id@
                        != self@.items[j].id@ && !same_item_key(self@.items[i], self@.items[j]) by {
                        assert(items0[i].id@ != items0[j].id@ && !same_item_key(items0[i], items0[j]));
                    }
                }
            },
            None => {
                assert(self@.items =~= Seq::new(
                    items0.len(),
                    |m: int|
                        if items0[m].id@ == item_id@ {
                            NexusItem { is_read: read, ..items0[m] }
                        } else {
                            items0[m]
                        },
                ));
            },
        }
        Ok(())
    }
    /// How many notifications are stored, dismissed ones included.
    pub fn notification_count(&self) -> (r: usize)
        ensures
            r == self@.notifications.len(),
    {
        self.notifications.len()
    }

    /// Whether a notification with id `id` is stored.
    pub fn notification_id_in_use(&self, id: &str) -> (r: bool)
        ensures
            r == notification_id_taken(self@.notifications, id@),
    {
        let mut i: usize = 0;
        while i < self.notifications.len()
            invariant
                i <= self.notifications@.len(),
                forall|k: int| 0 <= k < i ==> self.notifications@[k].id@ != id@,
            decreases self.notifications.len() - i,
        {
            if crate::text::str_eq(self.notifications[i].id.as_str(), id) {
                assert(self.notifications@[i as int].id@ == id@);
                return true;
            }
            i = i + 1;
        }
        false
    }

    fn notification_with_id(&self, id: &String) -> (r: Option<usize>)
        ensures
            r matches Some(k) ==> k < self@.notifications.len() && self@.notifications[k as int].id@ == id@,
            r is None ==> !notification_id_taken(self@.notifications, id@),
    {
        let mut i: usize = 0;
        while i < self.notifications.len()
            invariant
                i <= self.notifications@.len(),
                forall|k: int| 0 <= k < i ==> self.notifications@[k].id@ != id@,
            decreases self.notifications.len() - i,
        {
            if self.notifications[i].id == *id {
                return Some(i);
            }
            i = i + 1;
        }
        None
    }

    /// Stores `notif` unless a notification with its id is stored already;
    /// refuses it where its item is not stored.
    pub fn insert_notification(&mut self, notif: &Notification) -> (r: Result<(), StoreError>)
        requires
            old(self).wf(),
        ensures
            final(self).wf(),
            match insert_notifications(old(self)@, *notif) {
                Ok(ns) => r is Ok && final(self)@ == (DbView { notifications: ns, ..old(self)@ }),
                Err(e) => r == Err::<(), StoreError>(e) && final(self)@ == old(self)@,
            },
    {
        if self.notification_with_id(&notif.id).is_some() {
            return Ok(());
        }
        if self.item_with_id(notif.item_id.as_str()).is_none() {
            return Err(StoreError::UnknownItem);
        }
        self.notifications.push(notif.clone());
        Ok(())
    }

    /// The notifications not dismissed, newest first.
    pub fn get_active_notifications(&self) -> (r: Result<Vec<Notification>, StoreError>)
        ensures
            r matches Ok(v) && v@ == active_by_recency(self@.notifications),
    {
        let mut out: Vec<Notification> = Vec::new();
        let mut i: usize = 0;
        while i < self.notifications.len()
            invariant
                i <= self.notifications@.len(),
                out@ == active_by_recency(self.notifications@.subrange(0, i as int)),
            decreases self.notifications.len() - i,
        {
            let n = &self.notifications[i];
            let ghost s1 = self.notifications@.subrange(0, i + 1);
            assert(s1.drop_last() == self.notifications@.subrange(0, i as int));
            assert(s1.last() == *n);
            if !n.is_dismissed {
                let mut p: usize = out.len();
                while p > 0 && out[p - 1].created_at < n.created_at
                    invariant
                        p <= out@.len(),
                        forall|j: int| p <= j < out@.len() ==> out@[j].created_at < n.created_at,
                    decreases p,
                {
                    p = p - 1;
                }
                proof {
                    lemma_insert_by_created_at(out@, *n, p as int);
                }
                out.insert(p, n.clone());
            }
            i = i + 1;
        }
        assert(self.notifications@.subrange(0, self.notifications@.len() as int) == self.notifications@);
        Ok(out)
    }

    /// Marks the notification with id `notif_id` dismissed, if any.
    pub fn dismiss_notification(&mut self, notif_id: &str) -> (r: Result<(), StoreError>)
        requires
            old(self).wf(),
        ensures
            r is Ok,
            final(self).wf(),
            final(self)@ == (DbView {
                notifications: Seq::new(
                    old(self)@.notifications.len(),
                    |k: int|
                        if old(self)@.notifications[k].id@ == notif_id@ {
                            Notification { is_dismissed: true, ..old(self)@.notifications[k] }
                        } else {
                            old(self)@.notifications[k]
                        },
                ),
                ..old(self)@
            }),
    {
        let ghost v0 = self@;
        let ghost ns0 = self@.notifications;
        let mut i: usize = 0;
        while i < self.notifications.len()
            invariant
                i <= self.notifications@.len(),
                self.notifications@.len() == ns0.len(),
                self.items@ == v0.items,
                self.configs@ == v0.configs,
                self.settings@ == v0.settings,
                self.weights@ == v0.weights,
                ns0 == v0.notifications,
                notifications_wf(ns0),
                forall|k: int|
                    0 <= k < ns0.len() ==> #[trigger] self.notifications@[k] == if k < i && ns0[k].id@
                        == notif_id@ {
                        Notification { is_dismissed: true, ..ns0[k] }
                    } else {
                        ns0[k]
                    },
            decreases self.notifications.len() - i,
        {
            if crate::text::str_eq(self.notifications[i].id.as_str(), notif_id) {
                let mut n = self.notifications[i].clone();
                n.is_dismissed = true;
                self.notifications.set(i, n);
            }
            i = i + 1;
        }
        assert(self@.notifications =~= Seq::new(
            ns0.len(),
            |k: int|
                if ns0[k].id@ == notif_id@ {
                    Notification { is_dismissed: true, ..ns0[k] }
                } else {
                    ns0[k]
                },
        ));
        assert(notifications_wf(self@.notifications)) by {
            assert forall|a: int, b: int|
                #![trigger self@.notifications[a], self@.notifications[b]]
                0 <= a < ns0.len() && 0 <= b < ns0.len() && a != b implies self@.notifications[a].id@
                != self@.notifications[b].id@ by {
                assert(ns0[a].id@ != ns0[b].id@);
            }
        }
        Ok(())
    }

    /// Whether an active notification exists for `(item_id, reason)`.
    pub fn has_active_notification(&self, item_id: &str, reason: &str) -> (r: Result<bool, StoreError>)
        ensures
            r == Ok::<bool, StoreError>(has_active(self@.notifications, item_id@, reason@)),
    {
        let mut i: usize = 0;
        while i < self.notifications.len()
            invariant
                i <= self.notifications@.len(),
                forall|k: int| 0 <= k < i ==> !active_for(self.notifications@[k], item_id@, reason@),
            decreases self.notifications.len() - i,
        {
            let n = &self.notifications[i];
            if !n.is_dismissed && crate::text::str_eq(n.item_id.as_str(), item_id)
                && crate::text::str_eq(n.reason.as_str(), reason) {
                assert(active_for(self.notifications@[i as int], item_id@, reason@));
                return Ok(true);
            }
            i = i + 1;
        }
        Ok(false)
    }

    /// Marks every notification dismissed.
    pub fn dismiss_all_notifications(&mut self) -> (r: Result<(), StoreError>)
        requires
            old(self).wf(),
        ensures
            r is Ok,
            final(self).wf(),
            final(self)@ == (DbView {
                notifications: Seq::new(
                    old(self)@.notifications.len(),
                    |k: int| Notification { is_dismissed: true, ..old(self)@.notifications[k] },
                ),
                ..old(self)@
            }),
    {
        let ghost v0 = self@;
        let ghost ns0 = self@.notifications;
        let mut i: usize = 0;
        while i < self.notifications.len()
            invariant
                i <= self.notifications@.len(),
                self.notifications@.len() == ns0.len(),
                self.items@ == v0.items,
                self.configs@ == v0.configs,
                self.settings@ == v0.settings,
                self.weights@ == v0.weights,
                ns0 == v0.notifications,
                forall|k: int|
                    0 <= k < ns0.len() ==> #[trigger] self.notifications@[k] == if k < i {
                        Notification { is_dismissed: true, ..ns0[k] }
                    } else {
                        ns0[k]
                    },
            decreases self.notifications.len() - i,
        {
            let mut n = self.notifications[i].clone();
            n.is_dismissed = true;
            self.notifications.set(i, n);
            i = i + 1;
        }
        assert(self@.notifications =~= Seq::new(
            ns0.len(),
            |k: int| Notification { is_dismissed: true, ..ns0[k] },
        ));
        assert(notifications_wf(self@.notifications)) by {
            assert forall|a: int, b: int|
                #![trigger self@.notifications[a], self@.notifications[b]]
                0 <= a < ns0.len() && 0 <= b < ns0.len() && a != b implies self@.notifications[a].id@
                != self@.notifications[b].id@ by {
                assert(ns0[a].id@ != ns0[b].id@);
            }
        }
        Ok(())
    }

    fn setting_index(&self, key: &str) -> (r: Option<usize>)
        ensures
            r matches Some(k) ==> k < self@.settings.len() && self@.settings[k as int].0@ == key@,
            r is None ==> forall|k: int| 0 <= k < self@.settings.len() ==> self@.settings[k].0@ != key@,
    {
        let mut i: usize = 0;
        while i < self.settings.len()
            invariant
                i <= self.settings@.len(),
                forall|k: int| 0 <= k < i ==> self.settings@[k].0@ != key@,
            decreases self.settings.len() - i,
        {
            if crate::text::str_eq(self.settings[i].0.as_str(), key) {
                return Some(i);
            }
            i = i + 1;
        }
        None
    }

    /// The value stored under `key`, if any.
    pub fn get_app_setting(&self, key: &str) -> (r: Result<Option<String>, StoreError>)
        ensures
            r matches Ok(o) && match o {
                Some(v) => exists|k: int|
                    0 <= k < self@.settings.len() && self@.settings[k].0@ == key@ && self@.settings[k].1@ == v@,
                None => forall|k: int| 0 <= k < self@.settings.len() ==> self@.settings[k].0@ != key@,
            },
    {
        match self.setting_index(key) {
            Some(k) => Ok(Some(self.settings[k].1.clone())),
            None => Ok(None),
        }
    }

    /// Stores `value` under `key`, replacing the value stored there.
    pub fn set_app_setting(&mut self, key: &str, value: &str) -> (r: Result<(), StoreError>)
        requires
            old(self).wf(),
        ensures
            r is Ok,
            final(self).wf(),
            final(self)@.items == old(self)@.items,
            final(self)@.notifications == old(self)@.notifications,
            final(self)@.configs == old(self)@.configs,
            final(self)@.weights == old(self)@.weights,
            exists|k: int|
                0 <= k < final(self)@.settings.len() && final(self)@.settings[k].0@ == key@
                    && final(self)@.settings[k].1@ == value@,
            forall|k: int|
                0 <= k < old(self)@.settings.len() && old(self)@.settings[k].0@ != key@
                    ==> final(self)@.settings[k] == old(self)@.settings[k],
            final(self)@.settings.len() == old(self)@.settings.len() + if (exists|k: int|
                0 <= k < old(self)@.settings.len() && old(self)@.settings[k].0@ == key@) {
                0int
            } else {
                1int
            },
    {
        let ghost ss0 = self@.settings;
        match self.setting_index(key) {
            Some(k) => {
                let name = self.settings[k].0.clone();
                self.settings.set(k, (name, crate::text::owned(value)));
                assert(self@.settings[k as int].0@ == key@);
                assert forall|a: int, b: int|
                    #![trigger self@.settings[a], self@.settings[b]]
                    0 <= a < ss0.len() && 0 <= b < ss0.len() && a != b implies self@.settings[a].0@
                    != self@.settings[b].0@ by {
                    assert(ss0[a].0@ != ss0[b].0@);
                }
            },
            None => {
                self.settings.push((crate::text::owned(key), crate::text::owned(value)));
                assert(self@.settings[ss0.len() as int].0@ == key@);
            },
        }
        Ok(())
    }

    fn config_index(&self, plugin_id: &str) -> (r: Option<usize>)
        ensures
            r matches Some(k) ==> k < self@.configs.len() && self@.configs[k as int].plugin_id@ == plugin_id@,
            r is None ==> forall|k: int|
                0 <= k < self@.configs.len() ==> self@.configs[k].plugin_id@ != plugin_id@,
    {
        let mut i: usize = 0;
        while i < self.configs.len()
            invariant
                i <= self.configs@.len(),
                forall|k: int| 0 <= k < i ==> self.configs@[k].plugin_id@ != plugin_id@,
            decreases self.configs.len() - i,
        {
            if crate::text::str_eq(self.configs[i].plugin_id.as_str(), plugin_id) {
                return Some(i);
            }
            i = i + 1;
        }
        None
    }

    /// The configuration of `plugin_id`, if any.
    pub fn get_plugin_config(&self, plugin_id: &str) -> (r: Result<Option<PluginConfig>, StoreError>)
        ensures
            r matches Ok(o) && match o {
                Some(c) => exists|k: int|
                    0 <= k < self@.configs.len() && self@.configs[k].plugin_id@ == plugin_id@ && self@.configs[k] == c,
                None => forall|k: int| 0 <= k < self@.configs.len() ==> self@.configs[k].plugin_id@ != plugin_id@,
            },
    {
        match self.config_index(plugin_id) {
            Some(k) => Ok(Some(self.configs[k].clone())),
            None => Ok(None),
        }
    }

    /// Stores `config`, replacing the whole row of its plugin id.
    pub fn upsert_plugin_config(&mut self, config: &PluginConfig) -> (r: Result<(), StoreError>)
        requires
            old(self).wf(),
        ensures
            r is Ok,
            final(self).wf(),
            final(self)@.items == old(self)@.items,
            final(self)@.notifications == old(self)@.notifications,
            final(self)@.settings == old(self)@.settings,
            final(self)@.weights == old(self)@.weights,
            forall|k: int|
                0 <= k < old(self)@.configs.len() && old(self)@.configs[k].plugin_id@ == config.plugin_id@
                    ==> final(self)@.configs == old(self)@.configs.update(k, *config),
            (forall|k: int|
                0 <= k < old(self)@.configs.len() ==> old(self)@.configs[k].plugin_id@ != config.plugin_id@)
                ==> final(self)@.configs == old(self)@.configs.push(*config),
    {
        let ghost cs0 = self@.configs;
        match self.config_index(config.plugin_id.as_str()) {
            Some(k) => {
                self.configs.set(k, config.clone());
                assert forall|m: int|
                    0 <= m < cs0.len() && cs0[m].plugin_id@ == config.plugin_id@ implies m == k by {
                    if m != k {
                        assert(cs0[m].plugin_id@ != cs0[k as int].plugin_id@);
                    }
                }
                assert forall|a: int, b: int|
                    #![trigger self@.configs[a], self@.configs[b]]
                    0 <= a < cs0.len() && 0 <= b < cs0.len() && a != b implies self@.configs[a].plugin_id@
                    != self@.configs[b].plugin_id@ by {
                    assert(cs0[a].plugin_id@ != cs0[b].plugin_id@);
                }
            },
            None => {
                self.configs.push(config.clone());
            },
        }
        Ok(())
    }

    /// Configurations that are enabled and hold credentials.
    pub fn get_enabled_plugin_configs(&self) -> (r: Result<Vec<PluginConfig>, StoreError>)
        ensures
            r matches Ok(v) && v@ == enabled_configs(self@.configs),
    {
        let mut out: Vec<PluginConfig> = Vec::new();
        let mut i: usize = 0;
        while i < self.configs.len()
            invariant
                i <= self.configs@.len(),
                out@ == enabled_configs(self.configs@.subrange(0, i as int)),
            decreases self.configs.len() - i,
        {
            let ghost s1 = self.configs@.subrange(0, i + 1);
            assert(s1.drop_last() == self.configs@.subrange(0, i as int));
            let c = &self.configs[i];
            if c.is_enabled && c.credentials.is_some() {
                out.push(c.clone());
            }
            i = i + 1;
        }
        assert(self.configs@.subrange(0, self.configs@.len() as int) == self.configs@);
        Ok(out)
    }

    /// The weights of `source`.
    pub fn get_weights(&self, source: &str) -> (r: Result<Vec<HeuristicWeight>, StoreError>)
        ensures
            r matches Ok(v) && v@ == weights_of(self@.weights, source@),
    {
        let mut out: Vec<HeuristicWeight> = Vec::new();
        let mut i: usize = 0;
        while i < self.weights.len()
            invariant
                i <= self.weights@.len(),
                out@ == weights_of(self.weights@.subrange(0, i as int), source@),
            decreases self.weights.len() - i,
        {
            let ghost s1 = self.weights@.subrange(0, i + 1);
            assert(s1.drop_last() == self.weights@.subrange(0, i as int));
            let w = &self.weights[i];
            if crate::text::str_eq(w.source.as_str(), source) {
                out.push(w.clone());
            }
            i = i + 1;
        }
        assert(self.weights@.subrange(0, self.weights@.len() as int) == self.weights@);
        Ok(out)
    }

    /// Stores `weight`, or, where its `(source, signal)` is stored, sets the
    /// stored entry's weight.
    pub fn upsert_weight(&mut self, weight: &HeuristicWeight) -> (r: Result<(), StoreError>)
        requires
            old(self).wf(),
        ensures
            final(self).wf(),
            r is Err <==> weight_upsert_refused(old(self)@.weights, *weight),
            r is Err ==> r == Err::<(), StoreError>(StoreError::DuplicateWeightId) && final(self)@ == old(self)@,
            r is Ok ==> final(self)@ == (DbView { weights: upsert_weights(old(self)@.weights, *weight), ..old(self)@ }),
    {
        let ghost v0 = self@;
        let ghost ws0 = self@.weights;
        let mut i: usize = 0;
        while i < self.weights.len()
            invariant
                i <= self.weights@.len(),
                self@ == v0,
                v0 == old(self)@,
                ws0 == v0.weights,
                db_wf(v0),
                forall|k: int| 0 <= k < i ==> !same_weight_key(ws0[k], *weight),
            decreases self.weights.len() - i,
        {
            if self.weights[i].source == weight.source && self.weights[i].signal == weight.signal {
                let mut w = self.weights[i].clone();
                w.weight = weight.weight;
                proof {
                    assert(same_weight_key(ws0[i as int], *weight));
                    let c = choose|c: int| 0 <= c < ws0.len() && same_weight_key(ws0[c], *weight);
                    if c != i {
                        assert(same_weight_key(ws0[c], ws0[i as int]));
                    }
                }
                self.weights.set(i, w);
                assert forall|a: int, b: int|
                    #![trigger self@.weights[a], self@.weights[b]]
                    0 <= a < ws0.len() && 0 <= b < ws0.len() && a != b implies self@.weights[a].id@
                    != self@.weights[b].id@ && !same_weight_key(self@.weights[a], self@.weights[b]) by {
                    assert(ws0[a].id@ != ws0[b].id@ && !same_weight_key(ws0[a], ws0[b]));
                }
                return Ok(());
            }
            i = i + 1;
        }
        let mut j: usize = 0;
        while j < self.weights.len()
            invariant
                j <= self.weights@.len(),
                self@ == v0,
                v0 == old(self)@,
                ws0 == v0.weights,
                db_wf(v0),
                forall|k: int| 0 <= k < j ==> ws0[k].id@ != weight.id@,
                forall|k: int| 0 <= k < ws0.len() ==> !same_weight_key(ws0[k], *weight),
            decreases self.weights.len() - j,
        {
            if self.weights[j].id == weight.id {
                assert(ws0[j as int].id@ == weight.id@);
                return Err(StoreError::DuplicateWeightId);
            }
            j = j + 1;
        }
        self.weights.push(weight.clone());
        Ok(())
    }

    fn seed_one(&mut self, source: &str, signal: &str, weight: i32, id: &str) -> (r: Result<(), StoreError>)
        requires
            old(self).wf(),
        ensures
            final(self).wf(),
            r is Err ==> r == Err::<(), StoreError>(StoreError::DuplicateWeightId),
            r is Ok ==> has_weight(final(self)@.weights, (source@, signal@, weight)),
            r is Ok ==> forall|d: (Seq<char>, Seq<char>, i32)|
                has_weight(old(self)@.weights, d) && !(d.0 == source@ && d.1 == signal@) ==> has_weight(
                    final(self)@.weights,
                    d,
                ),
            final(self)@.items == old(self)@.items,
            final(self)@.notifications == old(self)@.notifications,
            final(self)@.configs == old(self)@.configs,
            final(self)@.settings == old(self)@.settings,
    {
        let hw = HeuristicWeight {
            id: String::from_str(id),
            source: String::from_str(source),
            signal: String::from_str(signal),
            weight,
        };
        let ghost ws1 = self@.weights;
        let r = self.upsert_weight(&hw);
        proof {
            lemma_upsert_weight_keeps(ws1, hw);
        }
        r
    }

    /// Stores the default weights, keeping the ids of entries already there.
    pub fn seed_default_weights(&mut self) -> (r: Result<(), StoreError>)
        requires
            old(self).wf(),
        ensures
            final(self).wf(),
            r is Err ==> r == Err::<(), StoreError>(StoreError::DuplicateWeightId),
            r is Ok ==> forall|i: int| 0 <= i < 4 ==> has_weight(final(self)@.weights, #[trigger] default_weights()[i]),
            final(self)@.items == old(self)@.items,
            final(self)@.notifications == old(self)@.notifications,
            final(self)@.configs == old(self)@.configs,
            final(self)@.settings == old(self)@.settings,
    {
        proof {
            reveal_strlit("assigned_to_me");
            reveal_strlit("priority_p1_blocker");
            reveal_strlit("mentioned_in_comment");
            reveal_strlit("deadline_24h");
        }
        let ghost d0 = ("jira"@, "assigned_to_me"@, 3i32);
        let ghost d1 = ("jira"@, "priority_p1_blocker"@, 4i32);
        let ghost d2 = ("jira"@, "mentioned_in_comment"@, 2i32);
        let ghost d3 = ("jira"@, "deadline_24h"@, 3i32);
        assert(d0.1.len() == 14 && d1.1.len() == 19 && d2.1.len() == 20 && d3.1.len() == 12);
        assert(d0.1 != d1.1 && d0.1 != d2.1 && d0.1 != d3.1 && d1.1 != d2.1 && d1.1 != d3.1 && d2.1 != d3.1);
        let r = self.seed_one("jira", "assigned_to_me", 3, "jira-assigned_to_me");
        if r.is_err() {
            return r;
        }
        assert(has_weight(self@.weights, d0));
        let r = self.seed_one("jira", "priority_p1_blocker", 4, "jira-priority_p1_blocker");
        if r.is_err() {
            return r;
        }
        assert(has_weight(self@.weights, d0));
        assert(has_weight(self@.weights, d1));
        let r = self.seed_one("jira", "mentioned_in_comment", 2, "jira-mentioned_in_comment");
        if r.is_err() {
            return r;
        }
        assert(has_weight(self@.weights, d0));
        assert(has_weight(self@.weights, d1));
        assert(has_weight(self@.weights, d2));
        let r = self.seed_one("jira", "deadline_24h", 3, "jira-deadline_24h");
        if r.is_err() {
            return r;
        }
        assert(has_weight(self@.weights, d0));
        assert(has_weight(self@.weights, d1));
        assert(has_weight(self@.weights, d2));
        assert(has_weight(self@.weights, d3));
        assert(default_weights()[0] == d0);
        assert(default_weights()[1] == d1);
        assert(default_weights()[2] == d2);
        assert(default_weights()[3] == d3);
        Ok(())
    }
    /// Every stored item, in insertion order.
    pub fn all_items(&self) -> (r: Vec<NexusItem>)
        ensures
            r@ == self@.items,
    {
        let mut out: Vec<NexusItem> = Vec::new();
        let mut i: usize = 0;
        while i < self.items.len()
            invariant
                i <= self.items@.len(),
                out@ == self.items@.subrange(0, i as int),
            decreases self.items.len() - i,
        {
            out.push(self.items[i].clone());
            assert(self.items@.subrange(0, i + 1) == self.items@.subrange(0, i as int).push(self.items@[i as int]));
            i = i + 1;
        }
        assert(self.items@.subrange(0, self.items@.len() as int) == self.items@);
        out
    }

    /// Every stored notification, dismissed ones included, in insertion order.
    pub fn all_notifications(&self) -> (r: Vec<Notification>)
        ensures
            r@ == self@.notifications,
    {
        let mut out: Vec<Notification> = Vec::new();
        let mut i: usize = 0;
        while i < self.notifications.len()
            invariant
                i <= self.notifications@.len(),
                out@ == self.notifications@.subrange(0, i as int),
            decreases self.notifications.len() - i,
        {
            out.push(self.notifications[i].clone());
            assert(self.notifications@.subrange(0, i + 1) == self.notifications@.subrange(0, i as int).push(self.notifications@[i as int]));
            i = i + 1;
        }
        assert(self.notifications@.subrange(0, self.notifications@.len() as int) == self.notifications@);
        out
    }

    /// Every stored plugin configuration, in insertion order.
    pub fn all_plugin_configs(&self) -> (r: Vec<PluginConfig>)
        ensures
            r@ == self@.configs,
    {
        let mut out: Vec<PluginConfig> = Vec::new();
        let mut i: usize = 0;
        while i < self.configs.len()
            invariant
                i <= self.configs@.len(),
                out@ == self.configs@.subrange(0, i as int),
            decreases self.configs.len() - i,
        {
            out.push(self.configs[i].clone());
            assert(self.configs@.subrange(0, i + 1) == self.configs@.subrange(0, i as int).push(self.configs@[i as int]));
            i = i + 1;
        }
        assert(self.configs@.subrange(0, self.configs@.len() as int) == self.configs@);
        out
    }

    /// Every stored setting as `(key, value)`, in insertion order.
    pub fn all_app_settings(&self) -> (r: Vec<(String, String)>)
        ensures
            r@ == self@.settings,
    {
        let mut out: Vec<(String, String)> = Vec::new();
        let mut i: usize = 0;
        while i < self.settings.len()
            invariant
                i <= self.settings@.len(),
                out@ == self.settings@.subrange(0, i as int),
            decreases self.settings.len() - i,
        {
            out.push((self.settings[i].0.clone(), self.settings[i].1.clone()));
            assert(self.settings@.subrange(0, i + 1) == self.settings@.subrange(0, i as int).push(self.settings@[i as int]));
            i = i + 1;
        }
        assert(self.settings@.subrange(0, self.settings@.len() as int) == self.settings@);
        out
    }

    /// Every stored weight, in insertion order.
    pub fn all_weights(&self) -> (r: Vec<HeuristicWeight>)
        ensures
            r@ == self@.weights,
    {
        let mut out: Vec<HeuristicWeight> = Vec::new();
        let mut i: usize = 0;
        while i < self.weights.len()
            invariant
                i <= self.weights@.len(),
                out@ == self.weights@.subrange(0, i as int),
            decreases self.weights.len() - i,
        {
            out.push(self.weights[i].clone());
            assert(self.weights@.subrange(0, i + 1) == self.weights@.subrange(0, i as int).push(self.weights@[i as int]));
            i = i + 1;
        }
        assert(self.weights@.subrange(0, self.weights@.len() as int) == self.weights@);
        out
    }
}

} // verus!
