//! The payload that a plugin prints: one JSON object with an `items` array
//! and a `notifications` array, both required.

use vstd::prelude::*;
use crate::json::{
    array_elements, i64_value, json_elements, json_i64, json_members, json_nullable_string,
    json_string, nullable_string_value, object_members, pairs_view, string_value, strings_view,
};
use crate::scheduler::PollError;
use crate::text::{at_most, owned, push_char, str_eq, trim, trim_spec, truncated};

verus! {

/// One item as a plugin reports it.
#[derive(Debug)]
pub struct PluginItem {
    pub id: String,
    pub source: String,
    /// `sourceId` in the payload.
    pub source_id: String,
    /// `type` in the payload.
    pub item_type: String,
    pub title: String,
    pub summary: Option<String>,
    pub url: String,
    pub author: Option<String>,
    pub timestamp: i64,
    /// The `metadata` value as compact JSON text.
    pub metadata: String,
    pub tags: Vec<String>,
}

/// One notification candidate as a plugin reports it.
#[derive(Debug)]
pub struct PluginNotification {
    /// `itemId` in the payload.
    pub item_id: String,
    pub reason: String,
    pub urgency: String,
}

/// A decoded payload.
#[derive(Debug)]
pub struct PluginResult {
    pub items: Vec<PluginItem>,
    pub notifications: Vec<PluginNotification>,
}

/// The fields of an item as character sequences.
pub struct ItemFields {
    pub id: Seq<char>,
    pub source: Seq<char>,
    pub source_id: Seq<char>,
    pub item_type: Seq<char>,
    pub title: Seq<char>,
    pub summary: Option<Seq<char>>,
    pub url: Seq<char>,
    pub author: Option<Seq<char>>,
    pub timestamp: i64,
    pub metadata: Seq<char>,
    pub tags: Seq<Seq<char>>,
}

/// The fields of a notification candidate as character sequences.
pub struct NoticeFields {
    pub item_id: Seq<char>,
    pub reason: Seq<char>,
    pub urgency: Seq<char>,
}

pub open spec fn opt_seq(o: Option<String>) -> Option<Seq<char>> {
    match o {
        Some(s) => Some(s@),
        None => None,
    }
}

impl PluginItem {
    pub open spec fn fields(&self) -> ItemFields {
        ItemFields {
            id: self.id@,
            source: self.source@,
            source_id: self.source_id@,
            item_type: self.item_type@,
            title: self.title@,
            summary: opt_seq(self.summary),
            url: self.url@,
            author: opt_seq(self.author),
            timestamp: self.timestamp,
            metadata: self.metadata@,
            tags: strings_view(self.tags@),
        }
    }
}

impl PluginNotification {
    pub open spec fn fields(&self) -> NoticeFields {
        NoticeFields { item_id: self.item_id@, reason: self.reason@, urgency: self.urgency@ }
    }
}

impl PluginResult {
    pub open spec fn item_fields(&self) -> Seq<ItemFields> {
        self.items@.map_values(|i: PluginItem| i.fields())
    }

    pub open spec fn notice_fields(&self) -> Seq<NoticeFields> {
        self.notifications@.map_values(|n: PluginNotification| n.fields())
    }
}

/// The value text of the first member named `key`.
pub open spec fn member(es: Seq<(Seq<char>, Seq<char>)>, key: Seq<char>) -> Option<Seq<char>>
    decreases es.len(),
{
    if es.len() == 0 {
        None
    } else if es[0].0 == key {
        Some(es[0].1)
    } else {
        member(es.drop_first(), key)
    }
}

/// A required string member.
pub open spec fn string_member(es: Seq<(Seq<char>, Seq<char>)>, key: Seq<char>) -> Option<Seq<char>> {
    match member(es, key) {
        Some(t) => json_string(t),
        None => None,
    }
}

/// An optional string member: absent or `null` reads as `None`.
pub open spec fn optional_member(es: Seq<(Seq<char>, Seq<char>)>, key: Seq<char>) -> Option<
    Option<Seq<char>>,
> {
    match member(es, key) {
        Some(t) => json_nullable_string(t),
        None => Some(None),
    }
}

/// A required integer member.
pub open spec fn i64_member(es: Seq<(Seq<char>, Seq<char>)>, key: Seq<char>) -> Option<i64> {
    match member(es, key) {
        Some(t) => json_i64(t),
        None => None,
    }
}

/// Every element read as a string, or `None` where one is not.
pub open spec fn all_strings(el: Seq<Seq<char>>) -> Option<Seq<Seq<char>>>
    decreases el.len(),
{
    if el.len() == 0 {
        Some(seq![])
    } else {
        match (all_strings(el.drop_last()), json_string(el.last())) {
            (Some(prev), Some(s)) => Some(prev.push(s)),
            _ => None,
        }
    }
}

/// A required member holding an array of strings.
pub open spec fn strings_member(es: Seq<(Seq<char>, Seq<char>)>, key: Seq<char>) -> Option<Seq<Seq<char>>> {
    match member(es, key) {
        Some(t) => match json_elements(t) {
            Some(el) => all_strings(el),
            None => None,
        },
        None => None,
    }
}

/// An item read from its JSON text.
pub open spec fn item_of(text: Seq<char>) -> Option<ItemFields> {
    match json_members(text) {
        None => None,
        Some(es) => item_of_members(es),
    }
}

/// An item read from the members of its JSON object.
pub open spec fn item_of_members(es: Seq<(Seq<char>, Seq<char>)>) -> Option<ItemFields> {
        {
            let id = string_member(es, "id"@);
            let source = string_member(es, "source"@);
            let source_id = string_member(es, "sourceId"@);
            let item_type = string_member(es, "type"@);
            let title = string_member(es, "title"@);
            let summary = optional_member(es, "summary"@);
            let url = string_member(es, "url"@);
            let author = optional_member(es, "author"@);
            let timestamp = i64_member(es, "timestamp"@);
            let metadata = member(es, "metadata"@);
            let tags = strings_member(es, "tags"@);
            if id is Some && source is Some && source_id is Some && item_type is Some && title is Some
                && summary is Some && url is Some && author is Some && timestamp is Some && metadata is Some
                && tags is Some {
                Some(
                    ItemFields {
                        id: id->0,
                        source: source->0,
                        source_id: source_id->0,
                        item_type: item_type->0,
                        title: title->0,
                        summary: summary->0,
                        url: url->0,
                        author: author->0,
                        timestamp: timestamp->0,
                        metadata: metadata->0,
                        tags: tags->0,
                    },
                )
            } else {
                None
            }
        }
}

/// A notification candidate read from its JSON text.
pub open spec fn notice_of(text: Seq<char>) -> Option<NoticeFields> {
    match json_members(text) {
        None => None,
        Some(es) => notice_of_members(es),
    }
}

/// A notification candidate read from the members of its JSON object.
pub open spec fn notice_of_members(es: Seq<(Seq<char>, Seq<char>)>) -> Option<NoticeFields> {
        {
            let item_id = string_member(es, "itemId"@);
            let reason = string_member(es, "reason"@);
            let urgency = string_member(es, "urgency"@);
            if item_id is Some && reason is Some && urgency is Some {
                Some(NoticeFields { item_id: item_id->0, reason: reason->0, urgency: urgency->0 })
            } else {
                None
            }
        }
}

pub open spec fn items_of(el: Seq<Seq<char>>) -> Option<Seq<ItemFields>>
    decreases el.len(),
{
    if el.len() == 0 {
        Some(seq![])
    } else {
        match (items_of(el.drop_last()), item_of(el.last())) {
            (Some(prev), Some(x)) => Some(prev.push(x)),
            _ => None,
        }
    }
}

pub open spec fn notices_of(el: Seq<Seq<char>>) -> Option<Seq<NoticeFields>>
    decreases el.len(),
{
    if el.len() == 0 {
        Some(seq![])
    } else {
        match (notices_of(el.drop_last()), notice_of(el.last())) {
            (Some(prev), Some(x)) => Some(prev.push(x)),
            _ => None,
        }
    }
}

/// An array member read element by element.
pub open spec fn array_member(es: Seq<(Seq<char>, Seq<char>)>, key: Seq<char>) -> Option<Seq<Seq<char>>> {
    match member(es, key) {
        Some(t) => json_elements(t),
        None => None,
    }
}

/// The payload read from its JSON text: both members are required.
pub open spec fn plugin_result_of(text: Seq<char>) -> Option<(Seq<ItemFields>, Seq<NoticeFields>)> {
    match json_members(text) {
        None => None,
        Some(es) => result_of_members(es),
    }
}

/// The payload read from the members of its top-level JSON object.
pub open spec fn result_of_members(es: Seq<(Seq<char>, Seq<char>)>) -> Option<
    (Seq<ItemFields>, Seq<NoticeFields>),
> {
    match (array_member(es, "items"@), array_member(es, "notifications"@)) {
        (Some(it), Some(nt)) => match (items_of(it), notices_of(nt)) {
            (Some(a), Some(b)) => Some((a, b)),
            _ => None,
        },
        _ => None,
    }
}

/// The value text of the first member named `key`.
fn member_text(es: &Vec<(String, String)>, key: &str) -> (r: Option<String>)
    ensures
        opt_seq(r) == member(pairs_view(es@), key@),
{
    let mut i: usize = 0;
    assert(es@.subrange(0, es@.len() as int) == es@);
    while i < es.len()
        invariant
            i <= es.len(),
            member(pairs_view(es@), key@) == member(pairs_view(es@.subrange(i as int, es@.len() as int)), key@),
        decreases es.len() - i,
    {
        let ghost rest = pairs_view(es@.subrange(i as int, es@.len() as int));
        assert(rest.drop_first() == pairs_view(es@.subrange(i + 1, es@.len() as int)));
        if crate::text::str_eq(es[i].0.as_str(), key) {
            return Some(es[i].1.clone());
        }
        i = i + 1;
    }
    None
}

fn missing(key: &str) -> String {
    String::from_str("missing field `").concat(key).concat("`")
}

fn invalid(key: &str) -> String {
    String::from_str("invalid type for field `").concat(key).concat("`")
}

fn string_field(es: &Vec<(String, String)>, key: &str) -> (r: Result<String, String>)
    ensures
        r is Ok == string_member(pairs_view(es@), key@) is Some,
        r matches Ok(s) ==> s@ == string_member(pairs_view(es@), key@)->0,
{
    match member_text(es, key) {
        Some(t) => match string_value(t.as_str()) {
            Some(s) => Ok(s),
            None => Err(invalid(key)),
        },
        None => Err(missing(key)),
    }
}

fn optional_field(es: &Vec<(String, String)>, key: &str) -> (r: Result<Option<String>, String>)
    ensures
        r is Ok == optional_member(pairs_view(es@), key@) is Some,
        r matches Ok(o) ==> opt_seq(o) == optional_member(pairs_view(es@), key@)->0,
{
    match member_text(es, key) {
        Some(t) => match nullable_string_value(t.as_str()) {
            Some(o) => Ok(o),
            None => Err(invalid(key)),
        },
        None => Ok(None),
    }
}

fn i64_field(es: &Vec<(String, String)>, key: &str) -> (r: Result<i64, String>)
    ensures
        r is Ok == i64_member(pairs_view(es@), key@) is Some,
        r matches Ok(n) ==> n == i64_member(pairs_view(es@), key@)->0,
{
    match member_text(es, key) {
        Some(t) => match i64_value(t.as_str()) {
            Some(n) => Ok(n),
            None => Err(invalid(key)),
        },
        None => Err(missing(key)),
    }
}

fn strings_of(el: &Vec<String>) -> (r: Option<Vec<String>>)
    ensures
        r is Some == all_strings(strings_view(el@)) is Some,
        r matches Some(v) ==> strings_view(v@) == all_strings(strings_view(el@))->0,
{
    let mut out: Vec<String> = Vec::new();
    let mut i: usize = 0;
    while i < el.len()
        invariant
            i <= el.len(),
            all_strings(strings_view(el@.subrange(0, i as int))) == Some(strings_view(out@)),
        decreases el.len() - i,
    {
        let ghost pre = strings_view(el@.subrange(0, i as int));
        assert(strings_view(el@.subrange(0, i + 1)).drop_last() == pre);
        match string_value(el[i].as_str()) {
            Some(s) => {
                out.push(s);
                assert(strings_view(out@) == strings_view(out@).drop_last().push(s@));
            },
            None => {
                proof {
                    lemma_all_strings_stays_none(strings_view(el@), i as int + 1);
                    assert(strings_view(el@).subrange(0, i + 1) == strings_view(el@.subrange(0, i + 1)));
                }
                return None;
            },
        }
        i = i + 1;
    }
    assert(el@.subrange(0, el@.len() as int) == el@);
    Some(out)
}

proof fn lemma_all_strings_stays_none(el: Seq<Seq<char>>, n: int)
    requires
        0 <= n <= el.len(),
        all_strings(el.subrange(0, n)) is None,
    ensures
        all_strings(el) is None,
    decreases el.len() - n,
{
    if n < el.len() {
        assert(el.subrange(0, n + 1).drop_last() == el.subrange(0, n));
        lemma_all_strings_stays_none(el, n + 1);
    } else {
        assert(el.subrange(0, n) == el);
    }
}

fn strings_field(es: &Vec<(String, String)>, key: &str) -> (r: Result<Vec<String>, String>)
    ensures
        r is Ok == strings_member(pairs_view(es@), key@) is Some,
        r matches Ok(v) ==> strings_view(v@) == strings_member(pairs_view(es@), key@)->0,
{
    match member_text(es, key) {
        Some(t) => match array_elements(t.as_str()) {
            Some(el) => match strings_of(&el) {
                Some(v) => Ok(v),
                None => Err(invalid(key)),
            },
            None => Err(invalid(key)),
        },
        None => Err(missing(key)),
    }
}

/// Reads one item from its JSON text.
pub fn decode_item(text: &str) -> (r: Result<PluginItem, String>)
    ensures
        r is Ok == item_of(text@) is Some,
        r matches Ok(it) ==> it.fields() == item_of(text@)->0,
{
    let es = object_members(text)?;
    item_from_members(&es)
}

/// Reads one item from the members of its JSON object (`sourceId` becomes
/// `source_id`, `type` becomes `item_type`).
pub fn item_from_members(es: &Vec<(String, String)>) -> (r: Result<PluginItem, String>)
    ensures
        r is Ok == item_of_members(pairs_view(es@)) is Some,
        r matches Ok(it) ==> it.fields() == item_of_members(pairs_view(es@))->0,
{
    let id = string_field(es, "id")?;
    let source = string_field(es, "source")?;
    let source_id = string_field(es, "sourceId")?;
    let item_type = string_field(es, "type")?;
    let title = string_field(es, "title")?;
    let summary = optional_field(es, "summary")?;
    let url = string_field(es, "url")?;
    let author = optional_field(es, "author")?;
    let timestamp = i64_field(es, "timestamp")?;
    let metadata = match member_text(es, "metadata") {
        Some(m) => m,
        None => {
            return Err(missing("metadata"));
        },
    };
    let tags = strings_field(es, "tags")?;
    let it = PluginItem {
        id,
        source,
        source_id,
        item_type,
        title,
        summary,
        url,
        author,
        timestamp,
        metadata,
        tags,
    };
    Ok(it)
}

/// Reads one notification candidate from its JSON text.
pub fn decode_notification(text: &str) -> (r: Result<PluginNotification, String>)
    ensures
        r is Ok == notice_of(text@) is Some,
        r matches Ok(n) ==> n.fields() == notice_of(text@)->0,
{
    let es = object_members(text)?;
    notification_from_members(&es)
}

/// Reads one notification candidate from the members of its JSON object
/// (`itemId` becomes `item_id`).
pub fn notification_from_members(es: &Vec<(String, String)>) -> (r: Result<PluginNotification, String>)
    ensures
        r is Ok == notice_of_members(pairs_view(es@)) is Some,
        r matches Ok(n) ==> n.fields() == notice_of_members(pairs_view(es@))->0,
{
    let item_id = string_field(es, "itemId")?;
    let reason = string_field(es, "reason")?;
    let urgency = string_field(es, "urgency")?;
    Ok(PluginNotification { item_id, reason, urgency })
}

proof fn lemma_items_stays_none(el: Seq<Seq<char>>, n: int)
    requires
        0 <= n <= el.len(),
        items_of(el.subrange(0, n)) is None,
    ensures
        items_of(el) is None,
    decreases el.len() - n,
{
    if n < el.len() {
        assert(el.subrange(0, n + 1).drop_last() == el.subrange(0, n));
        lemma_items_stays_none(el, n + 1);
    } else {
        assert(el.subrange(0, n) == el);
    }
}

proof fn lemma_notices_stays_none(el: Seq<Seq<char>>, n: int)
    requires
        0 <= n <= el.len(),
        notices_of(el.subrange(0, n)) is None,
    ensures
        notices_of(el) is None,
    decreases el.len() - n,
{
    if n < el.len() {
        assert(el.subrange(0, n + 1).drop_last() == el.subrange(0, n));
        lemma_notices_stays_none(el, n + 1);
    } else {
        assert(el.subrange(0, n) == el);
    }
}

fn decode_items(el: &Vec<String>) -> (r: Result<Vec<PluginItem>, String>)
    ensures
        r is Ok == items_of(strings_view(el@)) is Some,
        r matches Ok(v) ==> v@.map_values(|i: PluginItem| i.fields()) == items_of(strings_view(el@))->0,
{
    let mut out: Vec<PluginItem> = Vec::new();
    let mut i: usize = 0;
    while i < el.len()
        invariant
            i <= el.len(),
            items_of(strings_view(el@.subrange(0, i as int))) == Some(
                out@.map_values(|it: PluginItem| it.fields()),
            ),
        decreases el.len() - i,
    {
        let ghost pre = strings_view(el@.subrange(0, i as int));
        assert(strings_view(el@.subrange(0, i + 1)).drop_last() == pre);
        match decode_item(el[i].as_str()) {
            Ok(it) => {
                out.push(it);
                assert(out@.map_values(|x: PluginItem| x.fields()) == out@.drop_last().map_values(
                    |x: PluginItem| x.fields(),
                ).push(out@.last().fields()));
            },
            Err(e) => {
                proof {
                    assert(strings_view(el@).subrange(0, i + 1) == strings_view(el@.subrange(0, i + 1)));
                    lemma_items_stays_none(strings_view(el@), i as int + 1);
                }
                return Err(e);
            },
        }
        i = i + 1;
    }
    assert(el@.subrange(0, el@.len() as int) == el@);
    Ok(out)
}

fn decode_notifications(el: &Vec<String>) -> (r: Result<Vec<PluginNotification>, String>)
    ensures
        r is Ok == notices_of(strings_view(el@)) is Some,
        r matches Ok(v) ==> v@.map_values(|n: PluginNotification| n.fields()) == notices_of(
            strings_view(el@),
        )->0,
{
    let mut out: Vec<PluginNotification> = Vec::new();
    let mut i: usize = 0;
    while i < el.len()
        invariant
            i <= el.len(),
            notices_of(strings_view(el@.subrange(0, i as int))) == Some(
                out@.map_values(|n: PluginNotification| n.fields()),
            ),
        decreases el.len() - i,
    {
        let ghost pre = strings_view(el@.subrange(0, i as int));
        assert(strings_view(el@.subrange(0, i + 1)).drop_last() == pre);
        match decode_notification(el[i].as_str()) {
            Ok(n) => {
                out.push(n);
                assert(out@.map_values(|x: PluginNotification| x.fields()) == out@.drop_last().map_values(
                    |x: PluginNotification| x.fields(),
                ).push(out@.last().fields()));
            },
            Err(e) => {
                proof {
                    assert(strings_view(el@).subrange(0, i + 1) == strings_view(el@.subrange(0, i + 1)));
                    lemma_notices_stays_none(strings_view(el@), i as int + 1);
                }
                return Err(e);
            },
        }
        i = i + 1;
    }
    assert(el@.subrange(0, el@.len() as int) == el@);
    Ok(out)
}

fn array_field(es: &Vec<(String, String)>, key: &str) -> (r: Result<Vec<String>, String>)
    ensures
        r is Ok == array_member(pairs_view(es@), key@) is Some,
        r matches Ok(v) ==> strings_view(v@) == array_member(pairs_view(es@), key@)->0,
{
    match member_text(es, key) {
        Some(t) => match array_elements(t.as_str()) {
            Some(el) => Ok(el),
            None => Err(invalid(key)),
        },
        None => Err(missing(key)),
    }
}

/// Decodes a payload; the error is a short description of what is wrong.
pub fn decode_plugin_result(json: &str) -> (r: Result<PluginResult, String>)
    ensures
        r is Ok == plugin_result_of(json@) is Some,
        r matches Ok(p) ==> (p.item_fields(), p.notice_fields()) == plugin_result_of(json@)->0,
{
    let es = object_members(json)?;
    result_from_members(&es)
}

/// Decodes a payload from the members of its top-level JSON object: both
/// `items` and `notifications` are required.
pub fn result_from_members(es: &Vec<(String, String)>) -> (r: Result<PluginResult, String>)
    ensures
        r is Ok == result_of_members(pairs_view(es@)) is Some,
        r matches Ok(p) ==> (p.item_fields(), p.notice_fields()) == result_of_members(pairs_view(es@))->0,
{
    let items_el = array_field(es, "items")?;
    let notes_el = array_field(es, "notifications")?;
    let items = decode_items(&items_el)?;
    let notifications = decode_notifications(&notes_el)?;
    Ok(PluginResult { items, notifications })
}

/// At most the first 200 characters of a payload, shown in errors.
pub open spec fn preview_of(s: Seq<char>) -> Seq<char> {
    if s.len() > 200 {
        s.take(200)
    } else {
        s
    }
}

/// Decodes a payload. A payload that is not one JSON object with `items`
/// and `notifications` arrays of well-formed entries is refused with a
/// message that carries a preview of the payload.
pub fn parse_plugin_result(json: &str) -> (r: Result<PluginResult, String>)
    ensures
        r is Ok == plugin_result_of(json@) is Some,
        r matches Ok(p) ==> (p.item_fields(), p.notice_fields()) == plugin_result_of(json@)->0,
        r matches Err(m) ==> exists|d: Seq<char>|
            m@ == "Failed to parse plugin result: "@ + d + " (received: "@ + preview_of(json@) + "...)"@,
{
    match decode_plugin_result(json) {
        Ok(p) => Ok(p),
        Err(e) => {
            let n = json.unicode_len();
            let preview = if n > 200 {
                json.substring_char(0, 200)
            } else {
                json
            };
            let m = String::from_str("Failed to parse plugin result: ").concat(e.as_str()).concat(
                " (received: ",
            ).concat(preview).concat("...)");
            assert(m@ == "Failed to parse plugin result: "@ + e@ + " (received: "@ + preview_of(json@)
                + "...)"@);
            Err(m)
        },
    }
}

/// `s` with every backslash turned into a slash.
pub open spec fn forward_slashes(s: Seq<char>) -> Seq<char> {
    s.map_values(|c: char| if c == '\\' { '/' } else { c })
}

/// `s` without any leading `//?/` prefixes (the extended-length marker of
/// a canonical Windows path, once its separators are slashes).
pub open spec fn without_verbatim(s: Seq<char>) -> Seq<char>
    decreases s.len(),
{
    if s.len() >= 4 && s.take(4) == "//?/"@ {
        without_verbatim(s.skip(4))
    } else {
        s
    }
}

/// The module reference of a plugin file at the canonical `path`.
pub open spec fn module_url_of(path: Seq<char>, windows: bool) -> Seq<char> {
    if windows {
        "file:///"@ + without_verbatim(forward_slashes(path))
    } else {
        "file://"@ + path
    }
}

/// The module reference that the interpreter imports a plugin by.
pub fn module_url(path: &str, windows: bool) -> (r: String)
    ensures
        r@ == module_url_of(path@, windows),
{
    if !windows {
        return String::from_str("file://").concat(path);
    }
    let n = path.unicode_len();
    let mut slashed = String::new();
    let mut i: usize = 0;
    while i < n
        invariant
            n == path@.len(),
            i <= n,
            slashed@ == forward_slashes(path@.take(i as int)),
        decreases n - i,
    {
        let c = path.get_char(i);
        push_char(&mut slashed, if c == '\\' { '/' } else { c });
        assert(forward_slashes(path@.take(i + 1)) == forward_slashes(path@.take(i as int)).push(
            if c == '\\' { '/' } else { c },
        ));
        i = i + 1;
    }
    assert(path@.take(n as int) == path@);
    let s = slashed.as_str();
    let m = s.unicode_len();
    let mut start: usize = 0;
    proof {
        reveal_strlit("//?/");
    }
    assert(s@.skip(0) == s@);
    while m - start >= 4 && str_eq(s.substring_char(start, start + 4), "//?/")
        invariant
            m == s@.len(),
            start <= m,
            without_verbatim(s@) == without_verbatim(s@.skip(start as int)),
        decreases m - start,
    {
        assert(s@.skip(start as int).take(4) == s@.subrange(start as int, start + 4));
        assert(s@.skip(start as int).skip(4) == s@.skip(start + 4));
        start = start + 4;
    }
    if m - start >= 4 {
        assert(s@.skip(start as int).take(4) == s@.subrange(start as int, start + 4));
    }
    assert(s@.subrange(start as int, m as int) == s@.skip(start as int));
    String::from_str("file:///").concat(s.substring_char(start, m))
}

/// The script that imports `function` from the module at `url`, calls it
/// with the configuration from the `NEXUS_CONFIG` environment variable
/// (`{}` where unset) and prints its result.
pub open spec fn runner_script_of(function: Seq<char>, url: Seq<char>) -> Seq<char> {
    "import { "@ + function + " } from \""@ + url + "\";\nconst result = await "@ + function
        + "(Deno.env.get(\"NEXUS_CONFIG\") ?? \"{}\");\nconsole.log(result);"@
}

/// The script handed to the interpreter to run one entry point of a plugin.
pub fn runner_script(function: &str, url: &str) -> (r: String)
    ensures
        r@ == runner_script_of(function@, url@),
{
    String::from_str("import { ").concat(function).concat(" } from \"").concat(url).concat(
        "\";\nconst result = await ",
    ).concat(function).concat("(Deno.env.get(\"NEXUS_CONFIG\") ?? \"{}\");\nconsole.log(result);")
}

/// How many characters of a failed run's diagnostics are kept.
pub const DIAGNOSTICS_LIMIT: usize = 2000;

/// What a finished plugin process amounts to: its trimmed standard output
/// where it exited successfully, else an execution error carrying its
/// trimmed diagnostics, cut to `DIAGNOSTICS_LIMIT` characters.
pub fn process_outcome(function: &str, success: bool, stdout: &str, stderr: &str) -> (r: Result<
    String,
    PollError,
>)
    ensures
        success ==> (r matches Ok(out) && out@ == trim_spec(stdout@)),
        !success ==> (r matches Err(PollError::Execution(m)) && m@ == "Plugin '"@ + function@
            + "' failed: "@ + at_most(trim_spec(stderr@), DIAGNOSTICS_LIMIT as nat)),
{
    if success {
        Ok(trim(stdout))
    } else {
        let diag = trim(stderr);
        let cut = truncated(diag.as_str(), DIAGNOSTICS_LIMIT);
        Err(
            PollError::Execution(
                String::from_str("Plugin '").concat(function).concat("' failed: ").concat(cut.as_str()),
            ),
        )
    }
}

} // verus!
