//! Notification events and their routing: each event carries a category,
//! and a destination map resolves a category to a concrete output channel.

use vstd::prelude::*;

verus! {

/// Embed colour for a grab event.
pub const COLOR_GRAB: u32 = 0xf5c518;

/// Embed colour for an import event.
pub const COLOR_IMPORT: u32 = 0x2ecc71;

/// Embed colour for a warning-level alert.
pub const COLOR_ALERT_WARN: u32 = 0xe67e22;

/// Embed colour for a critical alert.
pub const COLOR_ALERT_CRIT: u32 = 0xe74c3c;

/// What kind of change an event reports.
#[derive(Clone, Copy, PartialEq, Eq, Structural, Debug)]
pub enum NotificationCategory {
    MediaGrab,
    MediaImport,
    ServerAlert,
}

/// One notification, ready to post: category, title, body and colour.
pub struct NotificationEvent {
    pub category: NotificationCategory,
    pub title: String,
    pub body: String,
    pub color: u32,
}

/// The ghost shape of an event.
pub open spec fn ev_view(e: NotificationEvent) -> (NotificationCategory, Seq<char>, Seq<char>, u32) {
    (e.category, e.title@, e.body@, e.color)
}

/// The ghost shape of a list of events.
pub open spec fn evs_view(s: Seq<NotificationEvent>) -> Seq<
    (NotificationCategory, Seq<char>, Seq<char>, u32),
> {
    s.map_values(|e: NotificationEvent| ev_view(e))
}

/// One output channel per category, resolved once at engine start.
#[derive(Clone, Copy, PartialEq, Eq, Structural, Debug)]
pub struct DestinationMap {
    pub grabs: u64,
    pub imports: u64,
    pub alerts: u64,
}

/// Which channel a category goes to.
pub open spec fn spec_route(d: DestinationMap, c: NotificationCategory) -> u64 {
    match c {
        NotificationCategory::MediaGrab => d.grabs,
        NotificationCategory::MediaImport => d.imports,
        NotificationCategory::ServerAlert => d.alerts,
    }
}

/// Resolve an event category to its output channel.
pub fn route_category(d: &DestinationMap, c: NotificationCategory) -> (r: u64)
    ensures
        r == spec_route(*d, c),
{
    match c {
        NotificationCategory::MediaGrab => d.grabs,
        NotificationCategory::MediaImport => d.imports,
        NotificationCategory::ServerAlert => d.alerts,
    }
}

/// The legacy single-channel map: every category aliases one channel.
pub fn alias_map(channel: u64) -> (r: DestinationMap)
    ensures
        r.grabs == channel,
        r.imports == channel,
        r.alerts == channel,
{
    DestinationMap { grabs: channel, imports: channel, alerts: channel }
}

} // verus!
