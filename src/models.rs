//! The stored records: items, notifications, plugin configuration, weights.

use vstd::prelude::*;

verus! {

/// A work item, unique by `(source, source_id)` and by `id`.
#[derive(Debug)]
pub struct NexusItem {
    pub id: String,
    pub source: String,
    pub source_id: String,
    pub item_type: String,
    pub title: String,
    pub summary: Option<String>,
    pub url: String,
    pub author: Option<String>,
    pub timestamp: i64,
    pub priority: i32,
    /// Serialized JSON object.
    pub metadata: Option<String>,
    /// Serialized JSON array of strings.
    pub tags: Option<String>,
    pub is_read: bool,
    pub created_at: i64,
    pub updated_at: i64,
}

/// A notification raised for an item, for a reason, at an urgency.
#[derive(Debug)]
pub struct Notification {
    pub id: String,
    pub item_id: String,
    pub reason: String,
    pub urgency: String,
    pub is_dismissed: bool,
    pub created_at: i64,
}

/// Per-plugin configuration and poll bookkeeping.
#[derive(Debug)]
pub struct PluginConfig {
    pub plugin_id: String,
    pub is_enabled: bool,
    /// Encrypted JSON.
    pub credentials: Option<String>,
    pub poll_interval_secs: i64,
    pub last_poll_at: Option<i64>,
    pub last_error: Option<String>,
    pub error_count: i32,
    /// JSON.
    pub settings: Option<String>,
}

/// A `(source, signal) -> weight` entry of the priority table.
#[derive(Debug)]
pub struct HeuristicWeight {
    pub id: String,
    pub source: String,
    pub signal: String,
    pub weight: i32,
}

pub fn clone_opt(o: &Option<String>) -> (r: Option<String>)
    ensures
        r == *o,
{
    match o {
        Some(s) => Some(s.clone()),
        None => None,
    }
}

impl Clone for NexusItem {
    fn clone(&self) -> (r: Self)
        ensures
            r == *self,
    {
        NexusItem {
            id: self.id.clone(),
            source: self.source.clone(),
            source_id: self.source_id.clone(),
            item_type: self.item_type.clone(),
            title: self.title.clone(),
            summary: clone_opt(&self.summary),
            url: self.url.clone(),
            author: clone_opt(&self.author),
            timestamp: self.timestamp,
            priority: self.priority,
            metadata: clone_opt(&self.metadata),
            tags: clone_opt(&self.tags),
            is_read: self.is_read,
            created_at: self.created_at,
            updated_at: self.updated_at,
        }
    }
}

impl Clone for Notification {
    fn clone(&self) -> (r: Self)
        ensures
            r == *self,
    {
        Notification {
            id: self.id.clone(),
            item_id: self.item_id.clone(),
            reason: self.reason.clone(),
            urgency: self.urgency.clone(),
            is_dismissed: self.is_dismissed,
            created_at: self.created_at,
        }
    }
}

impl Clone for PluginConfig {
    fn clone(&self) -> (r: Self)
        ensures
            r == *self,
    {
        PluginConfig {
            plugin_id: self.plugin_id.clone(),
            is_enabled: self.is_enabled,
            credentials: clone_opt(&self.credentials),
            poll_interval_secs: self.poll_interval_secs,
            last_poll_at: self.last_poll_at,
            last_error: clone_opt(&self.last_error),
            error_count: self.error_count,
            settings: clone_opt(&self.settings),
        }
    }
}

impl Clone for HeuristicWeight {
    fn clone(&self) -> (r: Self)
        ensures
            r == *self,
    {
        HeuristicWeight {
            id: self.id.clone(),
            source: self.source.clone(),
            signal: self.signal.clone(),
            weight: self.weight,
        }
    }
}

} // verus!
