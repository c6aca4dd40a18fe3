//! Note-vault helpers: Discord markup escaping, folder-path validation,
//! title sanitisation, relative-time rendering and civil-date arithmetic.
//! File-system access stays outside; these functions decide and format.

use vstd::prelude::*;
use vstd::multiset::Multiset;
use crate::text::{
    alphanumeric, chars_vec, contains_chars, contains_seq, is_alphanumeric_char, lower_of,
    lowercase, spec_dec, string_from_chars, u64_dec_chars,
};

verus! {

/// A notes vault rooted at a fixed path.
pub struct NotesPlugin {
    pub vault_path: String,
}

impl NotesPlugin {
    /// Remember the vault root.
    pub fn new(vault_path: &str) -> (r: NotesPlugin)
        ensures
            r.vault_path@ == vault_path@,
    {
        NotesPlugin { vault_path: vault_path.to_owned() }
    }
}

/// How one character is escaped for Discord markup: the eight markup
/// characters gain a leading backslash, everything else is kept.
pub open spec fn esc_char(c: char) -> Seq<char> {
    if c == '\\' || c == '*' || c == '_' || c == '`' || c == '~' || c == '|' || c == '@' || c
        == '<' {
        seq!['\\', c]
    } else {
        seq![c]
    }
}

/// The whole string, escaped character by character.
pub open spec fn spec_escape(s: Seq<char>) -> Seq<char>
    decreases s.len(),
{
    if s.len() == 0 {
        Seq::empty()
    } else {
        spec_escape(s.drop_last()) + esc_char(s.last())
    }
}

/// Escape Discord markup characters with a backslash.
pub fn escape_discord(s: &str) -> (r: String)
    ensures
        r@ == spec_escape(s@),
{
    let v = chars_vec(s);
    let mut out: Vec<char> = Vec::new();
    let mut i: usize = 0;
    while i < v.len()
        invariant
            v@ == s@,
            i <= v.len(),
            out@ == spec_escape(s@.subrange(0, i as int)),
        decreases v.len() - i,
    {
        let c = v[i];
        if c == '\\' || c == '*' || c == '_' || c == '`' || c == '~' || c == '|' || c == '@' || c
            == '<' {
            out.push('\\');
            out.push(c);
        } else {
            out.push(c);
        }
        i += 1;
        proof {
            let pre = s@.subrange(0, i as int);
            assert(pre.drop_last() =~= s@.subrange(0, i - 1));
            assert(out@ =~= spec_escape(pre.drop_last()) + esc_char(pre.last()));
        }
    }
    proof {
        assert(s@.subrange(0, s@.len() as int) =~= s@);
    }
    string_from_chars(&out)
}

/// A folder path is acceptable when it holds no `..`, does not start with a
/// slash or backslash, and holds no NUL character.
pub open spec fn spec_valid_folder(s: Seq<char>) -> bool {
    &&& !contains_seq(s, seq!['.', '.'])
    &&& (s.len() > 0 ==> s[0] != '/')
    &&& (s.len() > 0 ==> s[0] != '\\')
    &&& (forall|i: int| 0 <= i < s.len() ==> s[i] != '\0')
}

/// Reject folder names that could escape the vault root.
pub fn validate_folder(name: &str) -> (r: bool)
    ensures
        r == spec_valid_folder(name@),
{
    let v = chars_vec(name);
    let mut dots: Vec<char> = Vec::new();
    dots.push('.');
    dots.push('.');
    proof {
        assert(dots@ =~= seq!['.', '.']);
    }
    if contains_chars(&v, &dots) {
        return false;
    }
    if v.len() > 0 && (v[0] == '/' || v[0] == '\\') {
        return false;
    }
    let mut i: usize = 0;
    while i < v.len()
        invariant
            v@ == name@,
            i <= v.len(),
            forall|k: int| 0 <= k < i ==> name@[k] != '\0',
        decreases v.len() - i,
    {
        if v[i] == '\0' {
            return false;
        }
        i += 1;
    }
    true
}

/// Lower-cased title with every non-alphanumeric character (spaces included)
/// replaced by a hyphen.
pub open spec fn sani_map(l: Seq<char>) -> Seq<char> {
    Seq::new(l.len(), |i: int| if alphanumeric(l[i]) { l[i] } else { '-' })
}

/// Runs of hyphens collapsed to a single hyphen.
pub open spec fn collapse_dashes(s: Seq<char>) -> Seq<char>
    decreases s.len(),
{
    if s.len() == 0 {
        Seq::empty()
    } else if s.last() == '-' && s.len() >= 2 && s[s.len() - 2] == '-' {
        collapse_dashes(s.drop_last())
    } else {
        collapse_dashes(s.drop_last()).push(s.last())
    }
}

/// Leading hyphens removed.
pub open spec fn trim_leading_dashes(s: Seq<char>) -> Seq<char>
    decreases s.len(),
{
    if s.len() > 0 && s[0] == '-' {
        trim_leading_dashes(s.drop_first())
    } else {
        s
    }
}

/// Trailing hyphens removed.
pub open spec fn trim_trailing_dashes(s: Seq<char>) -> Seq<char>
    decreases s.len(),
{
    if s.len() > 0 && s.last() == '-' {
        trim_trailing_dashes(s.drop_last())
    } else {
        s
    }
}

/// The sanitised form of a note title: lower-cased, non-alphanumerics
/// hyphenated, hyphen runs collapsed, and surrounding hyphens trimmed.
pub open spec fn spec_sanitize_title(t: Seq<char>) -> Seq<char> {
    trim_leading_dashes(trim_trailing_dashes(collapse_dashes(sani_map(lower_of(t)))))
}

/// Turn a free-form title into a safe, hyphenated file stem.
pub fn sanitize_title(title: &str) -> (r: String)
    ensures
        r@ == spec_sanitize_title(title@),
{
    let lowered = lowercase(title);
    let v = chars_vec(lowered.as_str());
    // Map every non-alphanumeric character to a hyphen.
    let mut mapped: Vec<char> = Vec::new();
    let mut i: usize = 0;
    while i < v.len()
        invariant
            v@ == lower_of(title@),
            i <= v.len(),
            mapped@ =~= sani_map(v@).subrange(0, i as int),
        decreases v.len() - i,
    {
        let c = v[i];
        if is_alphanumeric_char(c) {
            mapped.push(c);
        } else {
            mapped.push('-');
        }
        i += 1;
        proof {
            assert(mapped@ =~= sani_map(v@).subrange(0, i as int));
        }
    }
    proof {
        assert(mapped@ =~= sani_map(v@));
    }
    // Collapse runs of hyphens.
    let mut collapsed: Vec<char> = Vec::new();
    let mut prev_dash = false;
    let mut j: usize = 0;
    while j < mapped.len()
        invariant
            j <= mapped.len(),
            collapsed@ == collapse_dashes(mapped@.subrange(0, j as int)),
            prev_dash == (j > 0 && mapped@[j - 1] == '-'),
        decreases mapped.len() - j,
    {
        let c = mapped[j];
        if c == '-' {
            if !prev_dash {
                collapsed.push(c);
            }
            prev_dash = true;
        } else {
            collapsed.push(c);
            prev_dash = false;
        }
        j += 1;
        proof {
            let pre = mapped@.subrange(0, j as int);
            assert(pre.drop_last() =~= mapped@.subrange(0, j - 1));
        }
    }
    proof {
        assert(mapped@.subrange(0, mapped@.len() as int) =~= mapped@);
    }
    // Trim hyphens at both ends.
    let mut start: usize = 0;
    let mut end: usize = collapsed.len();
    proof {
        assert(collapsed@.subrange(0, collapsed@.len() as int) =~= collapsed@);
    }
    while end > start && collapsed[end - 1] == '-'
        invariant
            start == 0,
            end <= collapsed.len(),
            trim_trailing_dashes(collapsed@) == trim_trailing_dashes(
                collapsed@.subrange(0, end as int),
            ),
        decreases end,
    {
        proof {
            assert(collapsed@.subrange(0, end as int).drop_last() =~= collapsed@.subrange(
                0,
                end - 1,
            ));
        }
        end = end - 1;
    }
    proof {
        assert(trim_trailing_dashes(collapsed@.subrange(0, end as int)) == collapsed@.subrange(
            0,
            end as int,
        ));
    }
    let ghost after_trail = collapsed@.subrange(0, end as int);
    while start < end && collapsed[start] == '-'
        invariant
            start <= end,
            end <= collapsed.len(),
            after_trail == collapsed@.subrange(0, end as int),
            trim_trailing_dashes(collapsed@) == after_trail,
            trim_leading_dashes(after_trail) == trim_leading_dashes(
                collapsed@.subrange(start as int, end as int),
            ),
        decreases end - start,
    {
        proof {
            assert(collapsed@.subrange(start as int, end as int).drop_first()
                =~= collapsed@.subrange(start + 1, end as int));
        }
        start = start + 1;
    }
    proof {
        assert(trim_leading_dashes(collapsed@.subrange(start as int, end as int))
            == collapsed@.subrange(start as int, end as int));
    }
    let mut out: Vec<char> = Vec::new();
    let mut k: usize = start;
    while k < end
        invariant
            start <= k <= end,
            end <= collapsed.len(),
            out@ =~= collapsed@.subrange(start as int, k as int),
        decreases end - k,
    {
        out.push(collapsed[k]);
        k += 1;
        proof {
            assert(out@ =~= collapsed@.subrange(start as int, k as int));
        }
    }
    proof {
        assert(out@ =~= trim_leading_dashes(trim_trailing_dashes(collapse_dashes(sani_map(
            lower_of(title@),
        )))));
    }
    string_from_chars(&out)
}

/// Newlines flattened to spaces, for one-line snippets.
pub open spec fn spec_nl_to_space(s: Seq<char>) -> Seq<char> {
    Seq::new(s.len(), |i: int| if s[i] == '\n' {
        ' '
    } else {
        s[i]
    })
}

/// A note's stem matches a search query when its lower-cased form contains
/// the lower-cased query.
pub fn stem_matches_query(stem: &str, query: &str) -> (r: bool)
    ensures
        r == contains_seq(lower_of(stem@), lower_of(query@)),
{
    let ls = lowercase(stem);
    let lq = lowercase(query);
    let vs = chars_vec(ls.as_str());
    let vq = chars_vec(lq.as_str());
    contains_chars(&vs, &vq)
}

/// A note's stem names a note when the two match case-insensitively.
pub fn stem_is_name(stem: &str, name: &str) -> (r: bool)
    ensures
        r == (lower_of(stem@) == lower_of(name@)),
{
    let ls = lowercase(stem);
    let ln = lowercase(name);
    ls == ln
}

/// The snippet boundaries around a match at `p`: just over thirty
/// characters of context on each side, clamped to the text.
pub open spec fn spec_snippet_range(len: int, p: int, qlen: int) -> (int, int) {
    let start = if p >= 31 {
        p - 31
    } else {
        0
    };
    let end = if p + qlen + 30 <= len {
        p + qlen + 30
    } else {
        len
    };
    (start, end)
}

/// Cut a one-line snippet around the first case-insensitive occurrence of
/// `query` in `content`; `None` when the content does not match. The match
/// is located in the lower-cased text and the snippet cut from the original
/// at the same character positions.
pub fn search_snippet(content: &str, query: &str) -> (r: Option<String>)
    ensures
        match r {
            None => !contains_seq(lower_of(content@), lower_of(query@)),
            Some(s) => exists|p: int|
                {
                    &&& #[trigger] crate::text::matches_at(
                        lower_of(content@),
                        lower_of(query@),
                        p,
                    )
                    &&& forall|k: int|
                        0 <= k < p ==> !crate::text::matches_at(
                            lower_of(content@),
                            lower_of(query@),
                            k,
                        )
                    &&& ({
                        let pc = if p <= content@.len() {
                            p
                        } else {
                            content@.len() as int
                        };
                        let (start, end) = spec_snippet_range(
                            content@.len() as int,
                            pc,
                            lower_of(query@).len() as int,
                        );
                        s@ == spec_nl_to_space(content@.subrange(start, end))
                    })
                },
        },
{
    let lc = lowercase(content);
    let lq = lowercase(query);
    let vlc = chars_vec(lc.as_str());
    let vlq = chars_vec(lq.as_str());
    let p: usize = match crate::text::find_chars(&vlc, &vlq) {
        Some(i) => i,
        None => {
            return None;
        },
    };
    let original = chars_vec(content);
    let pc: usize = if p <= original.len() {
        p
    } else {
        original.len()
    };
    let start: usize = if pc >= 31 {
        pc - 31
    } else {
        0
    };
    let mut end: usize = original.len();
    if pc <= usize::MAX - vlq.len() && pc + vlq.len() <= usize::MAX - 30 && pc + vlq.len() + 30
        < original.len() {
        end = pc + vlq.len() + 30;
    }
    let mut out: Vec<char> = Vec::new();
    let mut i: usize = start;
    while i < end
        invariant
            start <= i <= end,
            end <= original.len(),
            original@ == content@,
            out@ =~= spec_nl_to_space(content@.subrange(start as int, i as int)),
        decreases end - i,
    {
        let c = original[i];
        if c == '\n' {
            out.push(' ');
        } else {
            out.push(c);
        }
        i += 1;
        proof {
            assert(out@ =~= spec_nl_to_space(content@.subrange(start as int, i as int)));
        }
    }
    let s = string_from_chars(&out);
    proof {
        let pi = p as int;
        let pci = pc as int;
        let (sp_start, sp_end) = spec_snippet_range(
            content@.len() as int,
            pci,
            lower_of(query@).len() as int,
        );
        assert(sp_start == start as int);
        assert(sp_end == end as int);
    }
    Some(s)
}

/// The kept body of a long note: everything up to the display limit, then a
/// truncation marker.
pub open spec fn spec_clamp_note(s: Seq<char>) -> Seq<char> {
    if s.len() <= 1900 {
        s
    } else {
        s.subrange(0, 1900) + "...\n*(truncated)*"@
    }
}

/// Clamp a note's content to the display limit, marking the cut.
pub fn clamp_note_content(content: &str) -> (r: String)
    ensures
        r@ == spec_clamp_note(content@),
{
    let v = chars_vec(content);
    if v.len() <= 1900 {
        return content.to_owned();
    }
    let mut out: Vec<char> = Vec::new();
    let mut i: usize = 0;
    while i < 1900
        invariant
            v@ == content@,
            1900 <= v.len(),
            i <= 1900,
            out@ =~= content@.subrange(0, i as int),
        decreases 1900 - i,
    {
        out.push(v[i]);
        i += 1;
        proof {
            assert(out@ =~= content@.subrange(0, i as int));
        }
    }
    let mut r = string_from_chars(&out);
    r.append("...\n*(truncated)*");
    r
}

/// The relative-time label: `just now` for zero or future stamps, otherwise
/// minutes, hours or days since the stamp.
pub open spec fn spec_relative_time(now: int, timestamp: int) -> Seq<char> {
    if timestamp == 0 || timestamp > now {
        "just now"@
    } else {
        let diff = now - timestamp;
        if diff < 3600 {
            spec_dec(diff / 60) + "m ago"@
        } else if diff < 86400 {
            spec_dec(diff / 3600) + "h ago"@
        } else {
            spec_dec(diff / 86400) + "d ago"@
        }
    }
}

/// Render how long ago `timestamp` was, relative to `now` (both in seconds).
pub fn format_relative_time(now: u64, timestamp: u64) -> (r: String)
    ensures
        r@ == spec_relative_time(now as int, timestamp as int),
{
    if timestamp == 0 || timestamp > now {
        return "just now".to_owned();
    }
    let diff = now - timestamp;
    if diff < 3600 {
        let d = u64_dec_chars(diff / 60);
        let mut s = string_from_chars(&d);
        s.append("m ago");
        s
    } else if diff < 86400 {
        let d = u64_dec_chars(diff / 3600);
        let mut s = string_from_chars(&d);
        s.append("h ago");
        s
    } else {
        let d = u64_dec_chars(diff / 86400);
        let mut s = string_from_chars(&d);
        s.append("d ago");
        s
    }
}

/// Order the recent-notes listing: newest first. The result holds exactly
/// the given entries, by modification time descending; of entries with
/// equal times the earlier-listed one stays first.
pub fn sort_recent(entries: Vec<(String, u64)>) -> (r: Vec<(String, u64)>)
    ensures
        r@.len() == entries@.len(),
        r@.to_multiset() == entries@.to_multiset(),
        forall|a: int, b: int| 0 <= a < b < r@.len() ==> r@[a].1 >= r@[b].1,
{
    let mut pending = entries;
    let ghost orig = pending@;
    let mut out: Vec<(String, u64)> = Vec::new();
    proof {
        out@.to_multiset_ensures();
        assert forall|x: (String, u64)| out@.to_multiset().count(x) == 0 by {
            assert(!out@.contains(x));
        }
        assert(out@.to_multiset().add(pending@.to_multiset()) =~= pending@.to_multiset());
    }
    while pending.len() > 0
        invariant
            out@.len() + pending@.len() == orig.len(),
            out@.to_multiset().add(pending@.to_multiset()) == orig.to_multiset(),
            forall|a: int, b: int| 0 <= a < b < out@.len() ==> out@[a].1 >= out@[b].1,
            forall|a: int, l: int|
                0 <= a < out@.len() && 0 <= l < pending@.len() ==> out@[a].1 >= pending@[l].1,
        decreases pending.len(),
    {
        // Pick the first entry with the greatest time among the rest.
        let mut m: usize = 0;
        let mut k: usize = 1;
        while k < pending.len()
            invariant
                pending@.len() > 0,
                m < k,
                k <= pending@.len(),
                forall|j: int| 0 <= j < k ==> pending@[m as int].1 >= pending@[j].1,
            decreases pending.len() - k,
        {
            if pending[k].1 > pending[m].1 {
                m = k;
            }
            k += 1;
        }
        let ghost before = pending@;
        let e = pending.remove(m);
        proof {
            assert(e == before[m as int]);
            before.to_multiset_ensures();
            out@.to_multiset_ensures();
            assert(pending@.to_multiset() =~= before.to_multiset().remove(e));
            assert(out@.push(e).to_multiset() =~= out@.to_multiset().insert(e));
            assert(out@.push(e).to_multiset().add(pending@.to_multiset())
                =~= orig.to_multiset());
            assert(forall|l: int|
                0 <= l < pending@.len() ==> pending@[l] == (if l < m {
                    before[l]
                } else {
                    before[l + 1]
                }));
        }
        out.push(e);
    }
    proof {
        pending@.to_multiset_ensures();
        assert forall|x: (String, u64)| pending@.to_multiset().count(x) == 0 by {
            assert(!pending@.contains(x));
        }
        assert(out@.to_multiset().add(pending@.to_multiset()) =~= out@.to_multiset());
        assert(out@.to_multiset() =~= orig.to_multiset());
    }
    out
}

/// The Gregorian leap-year rule.
pub open spec fn spec_leap_year(y: int) -> bool {
    (y % 4 == 0 && y % 100 != 0) || y % 400 == 0
}

/// Whether a year is a leap year.
pub fn is_leap_year(year: u32) -> (r: bool)
    ensures
        r == spec_leap_year(year as int),
{
    (year % 4 == 0 && year % 100 != 0) || year % 400 == 0
}

/// Days in a year.
pub open spec fn spec_days_in_year(y: int) -> int {
    if spec_leap_year(y) {
        366
    } else {
        365
    }
}

/// Peel whole years off a day count, starting from 1970: the year the count
/// lands in, and the remaining days into that year.
pub open spec fn spec_year_split(days: int, y: int) -> (int, int)
    decreases days,
{
    if days < spec_days_in_year(y) || days < 0 {
        (y, days)
    } else {
        spec_year_split(days - spec_days_in_year(y), y + 1)
    }
}

/// Days in month `m` (0-based) of a year with the given leapness.
pub open spec fn spec_month_len(m: int, leap: bool) -> int {
    if m == 0 {
        31
    } else if m == 1 {
        if leap {
            29
        } else {
            28
        }
    } else if m == 2 {
        31
    } else if m == 3 {
        30
    } else if m == 4 {
        31
    } else if m == 5 {
        30
    } else if m == 6 {
        31
    } else if m == 7 {
        31
    } else if m == 8 {
        30
    } else if m == 9 {
        31
    } else if m == 10 {
        30
    } else {
        31
    }
}

/// Peel whole months off the day count within a year: the month (1-based)
/// and the remaining days into it.
pub open spec fn spec_month_split(rem: int, m: int, leap: bool) -> (int, int)
    decreases 12 - m,
{
    if m >= 11 {
        (12, rem)
    } else if rem < spec_month_len(m, leap) {
        (m + 1, rem)
    } else {
        spec_month_split(rem - spec_month_len(m, leap), m + 1, leap)
    }
}

/// The civil date (year, month, day) of a day count since 1970-01-01.
pub open spec fn spec_civil_date(days: int) -> (int, int, int) {
    let (y, rem) = spec_year_split(days, 1970);
    let (m, r2) = spec_month_split(rem, 0, spec_leap_year(y));
    (y, m, r2 + 1)
}

/// A number zero-padded to two digits.
pub open spec fn spec_pad2(n: int) -> Seq<char> {
    if n < 10 {
        seq!['0'] + spec_dec(n)
    } else {
        spec_dec(n)
    }
}

/// A number zero-padded to four digits.
pub open spec fn spec_pad4(n: int) -> Seq<char> {
    if n < 10 {
        seq!['0', '0', '0'] + spec_dec(n)
    } else if n < 100 {
        seq!['0', '0'] + spec_dec(n)
    } else if n < 1000 {
        seq!['0'] + spec_dec(n)
    } else {
        spec_dec(n)
    }
}

/// An ISO `YYYY-MM-DD` date.
pub open spec fn spec_iso_date(y: int, m: int, d: int) -> Seq<char> {
    spec_pad4(y) + seq!['-'] + spec_pad2(m) + seq!['-'] + spec_pad2(d)
}

fn push_all(dst: &mut Vec<char>, src: &Vec<char>)
    ensures
        final(dst)@ == old(dst)@ + src@,
{
    let mut i: usize = 0;
    while i < src.len()
        invariant
            i <= src.len(),
            dst@ == old(dst)@ + src@.subrange(0, i as int),
        decreases src.len() - i,
    {
        dst.push(src[i]);
        i += 1;
        proof {
            assert(old(dst)@ + src@.subrange(0, i as int) =~= (old(dst)@ + src@.subrange(
                0,
                i - 1,
            )).push(src@[i - 1]));
        }
    }
    proof {
        assert(dst@ =~= old(dst)@ + src@);
    }
}

/// Render a civil date as ISO `YYYY-MM-DD`.
pub fn format_iso_date(y: u32, m: u32, d: u32) -> (r: String)
    ensures
        r@ == spec_iso_date(y as int, m as int, d as int),
{
    let mut v: Vec<char> = Vec::new();
    if y < 10 {
        v.push('0');
        v.push('0');
        v.push('0');
    } else if y < 100 {
        v.push('0');
        v.push('0');
    } else if y < 1000 {
        v.push('0');
    }
    let dy = u64_dec_chars(y as u64);
    push_all(&mut v, &dy);
    v.push('-');
    if m < 10 {
        v.push('0');
    }
    let dm = u64_dec_chars(m as u64);
    push_all(&mut v, &dm);
    v.push('-');
    if d < 10 {
        v.push('0');
    }
    let dd = u64_dec_chars(d as u64);
    push_all(&mut v, &dd);
    proof {
        assert(v@ =~= spec_iso_date(y as int, m as int, d as int));
    }
    string_from_chars(&v)
}

/// Relies on `std::time::SystemTime::now`: seconds since the Unix epoch, or
/// zero if the clock reads before it. Nothing is assumed of the value.
#[verifier::external_body]
fn unix_now_secs() -> u64 {
    match std::time::SystemTime::now().duration_since(std::time::UNIX_EPOCH) {
        Ok(d) => d.as_secs(),
        Err(_) => 0,
    }
}

/// The ISO rendering of the civil date of a day count.
pub open spec fn spec_iso_of_days(days: int) -> Seq<char> {
    let (y, m, d) = spec_civil_date(days);
    spec_iso_date(y, m, d)
}

/// Today's date as ISO `YYYY-MM-DD`, from the system clock; day counts
/// beyond year 9993 are clamped so the year arithmetic stays in range.
pub fn today_iso() -> (r: String)
    ensures
        exists|days: int| 0 <= days <= 2930585 && r@ == #[trigger] spec_iso_of_days(days),
{
    let secs = unix_now_secs();
    let mut days: u64 = secs / 86400;
    if days > 2930585 {
        days = 2930585;
    }
    let (y, m, d) = civil_from_days(days);
    let r = format_iso_date(y, m, d);
    proof {
        assert(r@ == spec_iso_of_days(days as int));
    }
    r
}

/// The stored body of a quick note: a front-matter block with the creation
/// date, then the content.
pub open spec fn spec_note_body(date: Seq<char>, content: Seq<char>) -> Seq<char> {
    "---\ncreated: "@ + date + "\n---\n\n"@ + content + "\n"@
}

/// Assemble the body of a quick note.
pub fn note_body(date: &str, content: &str) -> (r: String)
    ensures
        r@ == spec_note_body(date@, content@),
{
    let mut s = String::new();
    s.append("---\ncreated: ");
    s.append(date);
    s.append("\n---\n\n");
    s.append(content);
    s.append("\n");
    s
}

fn days_in_year(y: u32) -> (r: u64)
    ensures
        r == spec_days_in_year(y as int),
{
    if is_leap_year(y) {
        366
    } else {
        365
    }
}

fn month_len(m: u32, leap: bool) -> (r: u32)
    requires
        m < 12,
    ensures
        r == spec_month_len(m as int, leap),
{
    if m == 0 {
        31
    } else if m == 1 {
        if leap {
            29
        } else {
            28
        }
    } else if m == 2 {
        31
    } else if m == 3 {
        30
    } else if m == 4 {
        31
    } else if m == 5 {
        30
    } else if m == 6 {
        31
    } else if m == 7 {
        31
    } else if m == 8 {
        30
    } else if m == 9 {
        31
    } else if m == 10 {
        30
    } else {
        31
    }
}

/// Convert a day count since 1970-01-01 into a civil (year, month, day).
/// The count is capped by the caller so that the year stays within `u32`.
pub fn civil_from_days(days: u64) -> (r: (u32, u32, u32))
    requires
        days <= 2930585,
    ensures
        (r.0 as int, r.1 as int, r.2 as int) == spec_civil_date(days as int),
{
    let mut remaining: u64 = days;
    let mut year: u32 = 1970;
    while remaining >= days_in_year(year)
        invariant
            remaining <= days,
            days <= 2930585,
            1970 <= year,
            (year - 1970) * 365 <= days - remaining,
            spec_year_split(days as int, 1970) == spec_year_split(remaining as int, year as int),
        decreases remaining,
    {
        let diy: u64 = days_in_year(year);
        remaining -= diy;
        year += 1;
    }
    let leap = is_leap_year(year);
    let mut rem: u64 = remaining;
    let mut m: u32 = 0;
    while m < 11 && rem >= month_len(m, leap) as u64
        invariant
            m < 12,
            rem <= remaining,
            remaining < 366,
            leap == spec_leap_year(year as int),
            spec_month_split(remaining as int, 0, leap) == spec_month_split(
                rem as int,
                m as int,
                leap,
            ),
        decreases 12 - m,
    {
        let ml = month_len(m, leap) as u64;
        rem -= ml;
        m += 1;
    }
    (year, m + 1, (rem + 1) as u32)
}

} // verus!
