//! Torrent-manager helpers: transfer-rate and size rendering, name
//! truncation, login-response interpretation and unambiguous torrent lookup.
//! The HTTP session itself stays outside.

use vstd::prelude::*;
use crate::errors::PluginError;
use crate::text::{
    chars_vec, contains_seq, contains_chars, dec_digit, lower_of, lowercase, spec_dec,
    string_from_chars, u64_dec_chars,
};

verus! {

/// One torrent as reported by the manager: plain values only.
pub struct TorrentInfo {
    pub name: String,
    pub hash: String,
    pub state: String,
    pub size: Option<u64>,
    pub dlspeed: Option<u64>,
}

/// `value / divisor` in tenths, rounded to nearest with ties to even — the
/// rounding used when a binary fraction is printed with one decimal.
pub open spec fn spec_tenths(value: int, divisor: int) -> int {
    let num = value * 10;
    let q = num / divisor;
    let r = num % divisor;
    if 2 * r > divisor {
        q + 1
    } else if 2 * r < divisor {
        q
    } else if q % 2 == 0 {
        q
    } else {
        q + 1
    }
}

/// A tenths count rendered as `whole.tenth`.
pub open spec fn spec_tenths_str(t: int) -> Seq<char> {
    spec_dec(t / 10) + seq!['.'] + seq![dec_digit(t % 10)]
}

pub(crate) fn scaled_tenths(value: u64, divisor: u64) -> (t: u64)
    requires
        1024 <= divisor,
    ensures
        t == spec_tenths(value as int, divisor as int),
{
    let num: u128 = (value as u128) * 10;
    let q: u128 = num / (divisor as u128);
    let r: u128 = num % (divisor as u128);
    proof {
        assert(q * 1024 <= q * (divisor as u128)) by (nonlinear_arith)
            requires
                1024 <= divisor,
                0 <= q,
        ;
        vstd::arithmetic::div_mod::lemma_fundamental_div_mod(num as int, divisor as int);
        assert(q * (divisor as u128) <= num) by (nonlinear_arith)
            requires
                q == num / (divisor as u128),
                1024 <= divisor,
                0 <= num,
        ;
    }
    let rounded: u128 = if 2 * r > divisor as u128 {
        q + 1
    } else if 2 * r < divisor as u128 {
        q
    } else if q % 2 == 0 {
        q
    } else {
        q + 1
    };
    rounded as u64
}

pub(crate) fn tenths_string(t: u64) -> (s: String)
    ensures
        s@ == spec_tenths_str(t as int),
{
    let mut v = u64_dec_chars(t / 10);
    v.push('.');
    let d: u64 = t % 10;
    let c: char = match d {
        0 => '0',
        1 => '1',
        2 => '2',
        3 => '3',
        4 => '4',
        5 => '5',
        6 => '6',
        7 => '7',
        8 => '8',
        _ => '9',
    };
    v.push(c);
    proof {
        assert(v@ =~= spec_tenths_str(t as int));
    }
    string_from_chars(&v)
}

/// The rendering of a transfer rate: bytes, kilobytes or megabytes per
/// second, with one decimal for the scaled forms.
pub open spec fn spec_format_speed(b: int) -> Seq<char> {
    if b < 1024 {
        spec_dec(b) + " B/s"@
    } else if b < 1048576 {
        spec_tenths_str(spec_tenths(b, 1024)) + " KB/s"@
    } else {
        spec_tenths_str(spec_tenths(b, 1048576)) + " MB/s"@
    }
}

/// Render a transfer rate in B/s, KB/s or MB/s.
pub fn format_speed(bytes_per_sec: u64) -> (r: String)
    ensures
        r@ == spec_format_speed(bytes_per_sec as int),
{
    if bytes_per_sec < 1024 {
        let mut s = crate::text::u64_string(bytes_per_sec);
        s.append(" B/s");
        s
    } else if bytes_per_sec < 1048576 {
        let mut s = tenths_string(scaled_tenths(bytes_per_sec, 1024));
        s.append(" KB/s");
        s
    } else {
        let mut s = tenths_string(scaled_tenths(bytes_per_sec, 1048576));
        s.append(" MB/s");
        s
    }
}

/// The rendering of a byte count: megabytes, gigabytes or terabytes with one
/// decimal.
pub open spec fn spec_format_bytes(b: int) -> Seq<char> {
    if b < 1073741824 {
        spec_tenths_str(spec_tenths(b, 1048576)) + " MB"@
    } else if b < 1099511627776 {
        spec_tenths_str(spec_tenths(b, 1073741824)) + " GB"@
    } else {
        spec_tenths_str(spec_tenths(b, 1099511627776)) + " TB"@
    }
}

/// Render a byte count in MB, GB or TB.
pub fn format_bytes(bytes: u64) -> (r: String)
    ensures
        r@ == spec_format_bytes(bytes as int),
{
    if bytes < 1073741824 {
        let mut s = tenths_string(scaled_tenths(bytes, 1048576));
        s.append(" MB");
        s
    } else if bytes < 1099511627776 {
        let mut s = tenths_string(scaled_tenths(bytes, 1073741824));
        s.append(" GB");
        s
    } else {
        let mut s = tenths_string(scaled_tenths(bytes, 1099511627776));
        s.append(" TB");
        s
    }
}

/// A string clipped to `max` characters: short strings are kept whole,
/// longer ones are cut at `max - 3` and given a three-dot ellipsis.
pub open spec fn spec_clip(s: Seq<char>, max: int) -> Seq<char> {
    if s.len() <= max {
        s
    } else {
        let cut = if max >= 3 {
            max - 3
        } else {
            0
        };
        s.subrange(0, cut) + "..."@
    }
}

/// Clip a string to at most `max` characters, with an ellipsis when cut.
pub fn truncate(s: &str, max: usize) -> (r: String)
    ensures
        r@ == spec_clip(s@, max as int),
{
    let v = chars_vec(s);
    if v.len() <= max {
        return s.to_owned();
    }
    let cut: usize = if max >= 3 {
        max - 3
    } else {
        0
    };
    let mut out: Vec<char> = Vec::new();
    let mut i: usize = 0;
    while i < cut
        invariant
            v@ == s@,
            cut <= v.len(),
            i <= cut,
            out@ =~= s@.subrange(0, i as int),
        decreases cut - i,
    {
        out.push(v[i]);
        i += 1;
        proof {
            assert(out@ =~= s@.subrange(0, i as int));
        }
    }
    let mut r = string_from_chars(&out);
    r.append("...");
    r
}

/// A login body counts as success when it contains `Ok`.
pub fn login_succeeded(body: &str) -> (r: bool)
    ensures
        r == contains_seq(body@, "Ok"@),
{
    let v = chars_vec(body);
    let mut needle: Vec<char> = Vec::new();
    needle.push('O');
    needle.push('k');
    proof {
        reveal_strlit("Ok");
        assert(needle@ =~= "Ok"@);
    }
    contains_chars(&v, &needle)
}

/// The transfer status summary: current speeds and lifetime totals.
pub open spec fn spec_transfer_summary(dl: int, ul: int, dl_total: int, ul_total: int) -> Seq<
    char,
> {
    "**qBittorrent Status**\nDownload: "@ + spec_format_speed(dl) + " | Upload: "@
        + spec_format_speed(ul) + "\nTotal Downloaded: "@ + spec_format_bytes(dl_total)
        + " | Total Uploaded: "@ + spec_format_bytes(ul_total)
}

/// Render the transfer status summary.
pub fn transfer_summary(dl: u64, ul: u64, dl_total: u64, ul_total: u64) -> (r: String)
    ensures
        r@ == spec_transfer_summary(dl as int, ul as int, dl_total as int, ul_total as int),
{
    let mut s: String = "**qBittorrent Status**\nDownload: ".to_owned();
    let v = format_speed(dl);
    s.append(v.as_str());
    s.append(" | Upload: ");
    let v = format_speed(ul);
    s.append(v.as_str());
    s.append("\nTotal Downloaded: ");
    let v = format_bytes(dl_total);
    s.append(v.as_str());
    s.append(" | Total Uploaded: ");
    let v = format_bytes(ul_total);
    s.append(v.as_str());
    s
}

/// One torrent's listing line: clipped name, optional size, completion
/// percentage, state, and optional download speed.
pub open spec fn spec_torrent_line(t: TorrentInfo, pct: int) -> Seq<char> {
    let size_part = match t.size {
        Some(s) => " ("@ + spec_format_bytes(s as int) + ")"@,
        None => Seq::<char>::empty(),
    };
    let speed_part = match t.dlspeed {
        Some(s) => " "@ + spec_format_speed(s as int),
        None => Seq::<char>::empty(),
    };
    "- **"@ + spec_clip(t.name@, 50) + "**"@ + size_part + " — "@ + spec_dec(pct) + "% ["@
        + t.state@ + "]"@ + speed_part + "\n"@
}

/// Render one torrent's listing line; the caller supplies the completion
/// percentage it computed from the reported progress.
pub fn torrent_line(t: &TorrentInfo, pct: u32) -> (r: String)
    ensures
        r@ == spec_torrent_line(*t, pct as int),
{
    let mut s: String = "- **".to_owned();
    let clipped = truncate(t.name.as_str(), 50);
    s.append(clipped.as_str());
    s.append("**");
    match t.size {
        Some(sz) => {
            s.append(" (");
            let v = format_bytes(sz);
            s.append(v.as_str());
            s.append(")");
        },
        None => {},
    }
    s.append(" — ");
    let d = u64_dec_chars(pct as u64);
    let ds = string_from_chars(&d);
    s.append(ds.as_str());
    s.append("% [");
    s.append(t.state.as_str());
    s.append("]");
    match t.dlspeed {
        Some(sp) => {
            s.append(" ");
            let v = format_speed(sp);
            s.append(v.as_str());
        },
        None => {},
    }
    s.append("\n");
    s
}

/// A torrent matches a query when its lower-cased name contains the
/// lower-cased query.
pub open spec fn torrent_matches(t: TorrentInfo, q: Seq<char>) -> bool {
    contains_seq(lower_of(t.name@), lower_of(q))
}

/// The torrents of `ts` whose names match `q`, in order.
pub open spec fn spec_matching_torrents(ts: Seq<TorrentInfo>, q: Seq<char>) -> Seq<TorrentInfo>
    decreases ts.len(),
{
    if ts.len() == 0 {
        Seq::empty()
    } else if torrent_matches(ts.last(), q) {
        spec_matching_torrents(ts.drop_last(), q).push(ts.last())
    } else {
        spec_matching_torrents(ts.drop_last(), q)
    }
}

/// The error body for a query nothing matches.
pub open spec fn spec_no_match_msg(name: Seq<char>) -> Seq<char> {
    "No torrent matching \""@ + name + "\""@
}

/// The error body for a query more than one torrent matches.
pub open spec fn spec_ambiguous_msg(n: int, name: Seq<char>) -> Seq<char> {
    spec_dec(n) + " torrents match \""@ + name + "\" — be more specific"@
}

/// Find the hash of the single torrent whose name contains `name`
/// (case-insensitively); zero or several matches are errors.
pub fn find_torrent_hash(torrents: &Vec<TorrentInfo>, name: &str) -> (r: Result<
    String,
    PluginError,
>)
    ensures
        ({
            let ms = spec_matching_torrents(torrents@, name@);
            match r {
                Ok(h) => ms.len() == 1 && h@ == ms[0].hash@,
                Err(e) => ms.len() != 1 && (ms.len() == 0 ==> (e matches PluginError::Other(m)
                    && m@ == spec_no_match_msg(name@))) && (ms.len() > 1 ==> (e
                    matches PluginError::Other(m) && m@ == spec_ambiguous_msg(
                    ms.len() as int,
                    name@,
                ))),
            }
        }),
{
    let lower_q = lowercase(name);
    let qv = chars_vec(lower_q.as_str());
    let mut count: usize = 0;
    let mut found: Option<String> = None;
    let mut i: usize = 0;
    while i < torrents.len()
        invariant
            qv@ == lower_of(name@),
            i <= torrents.len(),
            count <= i,
            count == spec_matching_torrents(torrents@.subrange(0, i as int), name@).len(),
            count > 0 ==> (found matches Some(h) && h@ == spec_matching_torrents(
                torrents@.subrange(0, i as int),
                name@,
            )[0].hash@),
            count == 0 ==> found is None,
        decreases torrents.len() - i,
    {
        let lower_name = lowercase(torrents[i].name.as_str());
        let nv = chars_vec(lower_name.as_str());
        let m = contains_chars(&nv, &qv);
        proof {
            let pre = torrents@.subrange(0, i + 1);
            assert(pre.drop_last() =~= torrents@.subrange(0, i as int));
            assert(pre.last() == torrents@[i as int]);
        }
        if m {
            if count == 0 {
                found = Some(torrents[i].hash.clone());
            }
            count += 1;
        }
        i += 1;
    }
    proof {
        assert(torrents@.subrange(0, torrents@.len() as int) =~= torrents@);
    }
    if count == 1 {
        match found {
            Some(h) => Ok(h),
            None => {
                proof {
                    assert(false);
                }
                Err(PluginError::Other(String::new()))
            },
        }
    } else if count == 0 {
        let mut msg = String::new();
        msg.append("No torrent matching \"");
        msg.append(name);
        msg.append("\"");
        Err(PluginError::Other(msg))
    } else {
        let d = u64_dec_chars(count as u64);
        let mut msg = string_from_chars(&d);
        msg.append(" torrents match \"");
        msg.append(name);
        msg.append("\" — be more specific");
        Err(PluginError::Other(msg))
    }
}

} // verus!
