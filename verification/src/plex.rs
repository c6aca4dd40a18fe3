//! Media-server helpers: relative-time rendering for recently added items
//! and the line formats of the status, recent and stream listings. The
//! HTTP client stays outside.

use vstd::prelude::*;
use crate::text::{spec_dec, string_from_chars, u64_dec_chars};

verus! {

/// The relative-time label: `just now` for zero or future stamps, otherwise
/// minutes, hours or days since the stamp.
pub open spec fn spec_relative_time(now: int, timestamp: int) -> Seq<char> {
    if timestamp == 0 || timestamp > now {
        "just now"@
    } else {
        let diff = now - timestamp;
        if diff < 3600 {
            spec_dec(diff / 60) + "m ago"@
        } else if diff < 86400 {
            spec_dec(diff / 3600) + "h ago"@
        } else {
            spec_dec(diff / 86400) + "d ago"@
        }
    }
}

/// Render how long ago `timestamp` was, relative to `now` (in seconds).
pub fn format_relative_time(now: u64, timestamp: u64) -> (r: String)
    ensures
        r@ == spec_relative_time(now as int, timestamp as int),
{
    if timestamp == 0 || timestamp > now {
        return "just now".to_owned();
    }
    let diff = now - timestamp;
    if diff < 3600 {
        let d = u64_dec_chars(diff / 60);
        let mut s = string_from_chars(&d);
        s.append("m ago");
        s
    } else if diff < 86400 {
        let d = u64_dec_chars(diff / 3600);
        let mut s = string_from_chars(&d);
        s.append("h ago");
        s
    } else {
        let d = u64_dec_chars(diff / 86400);
        let mut s = string_from_chars(&d);
        s.append("d ago");
        s
    }
}

/// How an item is titled: under its show's name when it belongs to one,
/// else by its own title.
pub open spec fn spec_item_display(title: Seq<char>, show: Option<Seq<char>>) -> Seq<char> {
    match show {
        Some(s) => s + " — "@ + title,
        None => title,
    }
}

/// Render an item's display title.
pub fn item_display(title: &str, show: &Option<String>) -> (r: String)
    ensures
        r@ == spec_item_display(
            title@,
            match show {
                Some(s) => Some(s@),
                None => None,
            },
        ),
{
    match show {
        Some(s) => {
            let mut out = s.clone();
            out.append(" — ");
            out.append(title);
            out
        },
        None => title.to_owned(),
    }
}

/// The status line for one library section.
pub open spec fn spec_library_line(title: Seq<char>, count: int, lib_type: Seq<char>) -> Seq<
    char,
> {
    "- "@ + title + ": "@ + spec_dec(count) + " items ("@ + lib_type + ")"@
}

/// Render one library section's status line.
pub fn library_line(title: &str, count: u64, lib_type: &str) -> (r: String)
    ensures
        r@ == spec_library_line(title@, count as int, lib_type@),
{
    let mut s: String = "- ".to_owned();
    s.append(title);
    s.append(": ");
    let d = u64_dec_chars(count);
    let ds = string_from_chars(&d);
    s.append(ds.as_str());
    s.append(" items (");
    s.append(lib_type);
    s.append(")");
    s
}

/// The line for one active stream.
pub open spec fn spec_stream_line(
    user: Seq<char>,
    title: Seq<char>,
    state: Seq<char>,
    device: Seq<char>,
) -> Seq<char> {
    "- **"@ + user + "**: "@ + title + " ["@ + state + "] ("@ + device + ")"@
}

/// Render one active stream's line.
pub fn stream_line(user: &str, title: &str, state: &str, device: &str) -> (r: String)
    ensures
        r@ == spec_stream_line(user@, title@, state@, device@),
{
    let mut s: String = "- **".to_owned();
    s.append(user);
    s.append("**: ");
    s.append(title);
    s.append(" [");
    s.append(state);
    s.append("] (");
    s.append(device);
    s.append(")");
    s
}

} // verus!
