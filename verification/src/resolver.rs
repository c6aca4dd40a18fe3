//! The destination resolver's decisions: find the notification category
//! container and each named channel among the guild's existing channels,
//! honouring explicit per-category overrides, and say when one must be
//! created. The platform calls that list and create channels stay outside.

use vstd::prelude::*;
use crate::text::{ascii_ci_eq, ascii_ci_eq_seq};

verus! {

/// One existing channel, as the platform lists it.
pub struct ChannelInfo {
    pub id: u64,
    pub name: String,
    pub is_category: bool,
    pub parent_id: Option<u64>,
}

/// A channel is the notifications container: a category whose name is
/// `notifications` up to ASCII case.
pub open spec fn is_notifications_category(c: ChannelInfo) -> bool {
    c.is_category && ascii_ci_eq_seq(c.name@, "notifications"@)
}

/// Find the notifications container among the listed channels: the first
/// matching category, in list order.
pub fn find_notifications_category(channels: &Vec<ChannelInfo>) -> (r: Option<u64>)
    ensures
        match r {
            Some(id) => exists|i: int|
                0 <= i < channels@.len() && #[trigger] is_notifications_category(channels@[i])
                    && id == channels@[i].id && (forall|k: int|
                    0 <= k < i ==> !is_notifications_category(channels@[k])),
            None => forall|i: int|
                0 <= i < channels@.len() ==> !is_notifications_category(channels@[i]),
        },
{
    let mut i: usize = 0;
    while i < channels.len()
        invariant
            i <= channels.len(),
            forall|k: int| 0 <= k < i ==> !is_notifications_category(channels@[k]),
        decreases channels.len() - i,
    {
        if channels[i].is_category && ascii_ci_eq(channels[i].name.as_str(), "notifications") {
            proof {
                assert(is_notifications_category(channels@[i as int]));
            }
            return Some(channels[i].id);
        }
        i += 1;
    }
    None
}

/// A channel matches a wanted name under a parent container.
pub open spec fn channel_matches(c: ChannelInfo, name: Seq<char>, parent: u64) -> bool {
    c.name@ == name && c.parent_id == Some(parent)
}

/// Find a named channel under a container: the first match, in list order.
pub fn find_channel(channels: &Vec<ChannelInfo>, name: &String, parent: u64) -> (r: Option<u64>)
    ensures
        match r {
            Some(id) => exists|i: int|
                0 <= i < channels@.len() && #[trigger] channel_matches(channels@[i], name@, parent)
                    && id == channels@[i].id && (forall|k: int|
                    0 <= k < i ==> !channel_matches(channels@[k], name@, parent)),
            None => forall|i: int|
                0 <= i < channels@.len() ==> !channel_matches(channels@[i], name@, parent),
        },
{
    let mut i: usize = 0;
    while i < channels.len()
        invariant
            i <= channels.len(),
            forall|k: int| 0 <= k < i ==> !channel_matches(channels@[k], name@, parent),
        decreases channels.len() - i,
    {
        let mut parent_ok = false;
        match channels[i].parent_id {
            Some(p) => {
                if p == parent {
                    parent_ok = true;
                }
            },
            None => {},
        }
        if parent_ok && channels[i].name == *name {
            proof {
                assert(channel_matches(channels@[i as int], name@, parent));
            }
            return Some(channels[i].id);
        }
        i += 1;
    }
    None
}

/// The resolver's verdict for one category channel.
#[derive(Clone, Copy, PartialEq, Eq, Structural, Debug)]
pub enum ChannelChoice {
    /// Use this existing (or explicitly overridden) channel.
    Use(u64),
    /// No override and nothing found: the channel must be created.
    CreateNeeded,
}

/// Pick a category's channel: an explicit override always wins, then a
/// found existing channel; otherwise one must be created.
pub fn choose_channel(override_id: Option<u64>, existing: Option<u64>) -> (r: ChannelChoice)
    ensures
        override_id matches Some(id) ==> r == ChannelChoice::Use(id),
        override_id is None ==> (existing matches Some(id) ==> r == ChannelChoice::Use(id)),
        override_id is None && existing is None ==> r == ChannelChoice::CreateNeeded,
{
    match override_id {
        Some(id) => ChannelChoice::Use(id),
        None => match existing {
            Some(id) => ChannelChoice::Use(id),
            None => ChannelChoice::CreateNeeded,
        },
    }
}

} // verus!
