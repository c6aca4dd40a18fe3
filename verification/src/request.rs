//! The multi-step request workflow's decisions: building the stored
//! selection items from search results, encoding and parsing the component
//! tokens that carry session state through the chat platform, and planning
//! the final add call. The cache that holds the selections lives in
//! `cache`; the HTTP calls stay outside.

use vstd::prelude::*;
use crate::qbit::spec_clip;
use crate::text::{chars_vec, spec_dec, string_from_chars, u64_dec_chars};

verus! {

/// How many search results one selection menu may carry.
pub const MAX_SELECT_OPTIONS: usize = 25;

/// Clip a string to at most `max` characters, with an ellipsis when cut.
pub fn truncate_string(s: &str, max: usize) -> (r: String)
    ensures
        r@ == spec_clip(s@, max as int),
{
    crate::qbit::truncate(s, max)
}

/// A structured component interaction, parsed once at the platform
/// boundary from the token the platform echoes back.
pub enum InteractionCallback {
    /// The user picked an entry of the selection menu for a session.
    Select { session_id: String },
    /// The user confirmed adding choice `choice_index` of a session to a
    /// target service.
    Add { session_id: String, service: String, choice_index: usize },
}

/// The select-menu token for a session.
pub open spec fn spec_select_token(id: Seq<char>) -> Seq<char> {
    "req_sel:"@ + id
}

/// The confirm-button token for one choice of a session.
pub open spec fn spec_add_token(id: Seq<char>, service: Seq<char>, index: int) -> Seq<char> {
    "req_add:"@ + id + ":"@ + service + ":"@ + spec_dec(index)
}

/// Build the select-menu token for a session.
pub fn make_select_token(session_id: &str) -> (r: String)
    ensures
        r@ == spec_select_token(session_id@),
{
    let mut s: String = "req_sel:".to_owned();
    s.append(session_id);
    s
}

/// Build the confirm-button token for one choice of a session.
pub fn make_add_token(session_id: &str, service: &str, index: u64) -> (r: String)
    ensures
        r@ == spec_add_token(session_id@, service@, index as int),
{
    let mut s: String = "req_add:".to_owned();
    s.append(session_id);
    s.append(":");
    s.append(service);
    s.append(":");
    let d = u64_dec_chars(index);
    let ds = string_from_chars(&d);
    s.append(ds.as_str());
    s
}

/// A character sequence is all decimal digits.
pub open spec fn all_digits(s: Seq<char>) -> bool {
    forall|i: int| 0 <= i < s.len() ==> '0' <= #[trigger] s[i] <= '9'
}

/// The number a digit sequence denotes.
pub open spec fn spec_digits_value(s: Seq<char>) -> int
    decreases s.len(),
{
    if s.len() == 0 {
        0
    } else {
        spec_digits_value(s.drop_last()) * 10 + (s.last() as int - '0' as int)
    }
}

/// Parse a decimal index: `Some` exactly for non-empty all-digit strings
/// whose value fits the platform's word.
pub fn parse_index(v: &Vec<char>) -> (r: Option<usize>)
    ensures
        match r {
            Some(n) => v@.len() > 0 && all_digits(v@) && n as int == spec_digits_value(v@)
                && spec_digits_value(v@) <= usize::MAX,
            None => v@.len() == 0 || !all_digits(v@) || spec_digits_value(v@) > usize::MAX,
        },
{
    if v.len() == 0 {
        return None;
    }
    let mut value: usize = 0;
    let mut i: usize = 0;
    proof {
        assert(v@.subrange(0, 0) =~= Seq::<char>::empty());
    }
    while i < v.len()
        invariant
            i <= v.len(),
            all_digits(v@.subrange(0, i as int)),
            value as int == spec_digits_value(v@.subrange(0, i as int)),
        decreases v.len() - i,
    {
        let c = v[i];
        if !('0' <= c && c <= '9') {
            return None;
        }
        let d: usize = (c as u32 as usize) - ('0' as u32 as usize);
        if value > (usize::MAX - d) / 10 {
            proof {
                lemma_digits_value_grows(v@, i as int);
            }
            return None;
        }
        value = value * 10 + d;
        i += 1;
        proof {
            let pre = v@.subrange(0, i as int);
            assert(pre.drop_last() =~= v@.subrange(0, i - 1));
        }
    }
    proof {
        assert(v@.subrange(0, v@.len() as int) =~= v@);
    }
    Some(value)
}

/// `p` is a prefix of `s`.
pub open spec fn starts_with(s: Seq<char>, p: Seq<char>) -> bool {
    p.len() <= s.len() && s.subrange(0, p.len() as int) == p
}

/// The first position of `c` in `s`, or -1.
pub open spec fn spec_first_at(s: Seq<char>, c: char) -> int
    decreases s.len(),
{
    if s.len() == 0 {
        -1
    } else if s[0] == c {
        0
    } else if spec_first_at(s.drop_first(), c) == -1 {
        -1
    } else {
        1 + spec_first_at(s.drop_first(), c)
    }
}

fn has_prefix(v: &Vec<char>, p: &Vec<char>) -> (r: bool)
    ensures
        r == starts_with(v@, p@),
{
    if p.len() > v.len() {
        return false;
    }
    let mut i: usize = 0;
    while i < p.len()
        invariant
            p.len() <= v.len(),
            i <= p.len(),
            forall|k: int| 0 <= k < i ==> v@[k] == p@[k],
        decreases p.len() - i,
    {
        if v[i] != p[i] {
            proof {
                assert(v@.subrange(0, p@.len() as int)[i as int] != p@[i as int]);
            }
            return false;
        }
        i += 1;
    }
    proof {
        assert(v@.subrange(0, p@.len() as int) =~= p@);
    }
    true
}

proof fn lemma_first_at_range(s: Seq<char>, c: char)
    ensures
        -1 <= spec_first_at(s, c) < s.len(),
    decreases s.len(),
{
    if s.len() > 0 && s[0] != c {
        lemma_first_at_range(s.drop_first(), c);
    }
}

fn find_first(v: &Vec<char>, from: usize, c: char) -> (r: Option<usize>)
    requires
        from <= v.len(),
    ensures
        ({
            let suf = v@.subrange(from as int, v@.len() as int);
            match r {
                Some(i) => from <= i < v.len() && i - from == spec_first_at(suf, c),
                None => spec_first_at(suf, c) == -1,
            }
        }),
{
    let ghost suf = v@.subrange(from as int, v@.len() as int);
    let mut i: usize = from;
    while i < v.len()
        invariant
            from <= i <= v.len(),
            suf == v@.subrange(from as int, v@.len() as int),
            spec_first_at(suf, c) == (if spec_first_at(
                v@.subrange(i as int, v@.len() as int),
                c,
            ) == -1 {
                -1
            } else {
                i - from + spec_first_at(v@.subrange(i as int, v@.len() as int), c)
            }),
        decreases v.len() - i,
    {
        proof {
            let cur = v@.subrange(i as int, v@.len() as int);
            assert(cur.drop_first() =~= v@.subrange(i + 1, v@.len() as int));
            assert(cur[0] == v@[i as int]);
        }
        if v[i] == c {
            return Some(i);
        }
        i += 1;
        proof {
            let prev = v@.subrange(i - 1, v@.len() as int);
            assert(prev.len() > 0);
            assert(prev[0] == v@[i - 1]);
            assert(prev[0] != c);
            assert(prev.drop_first() =~= v@.subrange(i as int, v@.len() as int));
            lemma_first_at_range(prev.drop_first(), c);
            assert(spec_first_at(prev, c) == (if spec_first_at(prev.drop_first(), c) == -1 {
                -1
            } else {
                1 + spec_first_at(prev.drop_first(), c)
            }));
        }
    }
    proof {
        assert(v@.subrange(v@.len() as int, v@.len() as int) =~= Seq::<char>::empty());
    }
    None
}

/// The outcome of parsing a component token.
pub enum TokenParse {
    /// The token does not belong to this workflow; the component is not
    /// claimed.
    NotRecognized,
    /// The token belongs to this workflow but carries an unparsable choice
    /// index.
    BadIndex,
    /// A well-formed callback.
    Parsed(InteractionCallback),
}

/// Parse a component token into its structured form, once, at the platform
/// boundary: `req_sel:` carries a session id, `req_add:` a session id, a
/// target service and a choice index, colon-separated.
pub fn parse_component_token(token: &str) -> (r: TokenParse)
    ensures
        starts_with(token@, "req_sel:"@) ==> (r matches TokenParse::Parsed(cb) && cb
            matches InteractionCallback::Select { session_id } && session_id@ == token@.subrange(
            8,
            token@.len() as int,
        )),
        !starts_with(token@, "req_sel:"@) && !starts_with(token@, "req_add:"@) ==> r
            matches TokenParse::NotRecognized,
        !starts_with(token@, "req_sel:"@) && starts_with(token@, "req_add:"@) ==> ({
            let rest = token@.subrange(8, token@.len() as int);
            let c1 = spec_first_at(rest, ':');
            if c1 == -1 {
                r matches TokenParse::NotRecognized
            } else {
                let after1 = rest.subrange(c1 + 1, rest.len() as int);
                let c2 = spec_first_at(after1, ':');
                if c2 == -1 {
                    r matches TokenParse::NotRecognized
                } else {
                    let id = rest.subrange(0, c1);
                    let service = after1.subrange(0, c2);
                    let digits = after1.subrange(c2 + 1, after1.len() as int);
                    if digits.len() > 0 && all_digits(digits) && spec_digits_value(digits)
                        <= usize::MAX {
                        r matches TokenParse::Parsed(cb) && cb matches InteractionCallback::Add {
                            session_id,
                            service: sv,
                            choice_index,
                        } && session_id@ == id && sv@ == service && choice_index as int
                            == spec_digits_value(digits)
                    } else {
                        r matches TokenParse::BadIndex
                    }
                }
            }
        }),
{
    let v = chars_vec(token);
    let mut sel_prefix: Vec<char> = Vec::new();
    sel_prefix.push('r');
    sel_prefix.push('e');
    sel_prefix.push('q');
    sel_prefix.push('_');
    sel_prefix.push('s');
    sel_prefix.push('e');
    sel_prefix.push('l');
    sel_prefix.push(':');
    let mut add_prefix: Vec<char> = Vec::new();
    add_prefix.push('r');
    add_prefix.push('e');
    add_prefix.push('q');
    add_prefix.push('_');
    add_prefix.push('a');
    add_prefix.push('d');
    add_prefix.push('d');
    add_prefix.push(':');
    proof {
        reveal_strlit("req_sel:");
        reveal_strlit("req_add:");
        assert(sel_prefix@ =~= "req_sel:"@);
        assert(add_prefix@ =~= "req_add:"@);
    }
    if has_prefix(&v, &sel_prefix) {
        let rest = sub_string(&v, 8, v.len());
        return TokenParse::Parsed(InteractionCallback::Select { session_id: rest });
    }
    if !has_prefix(&v, &add_prefix) {
        return TokenParse::NotRecognized;
    }
    let ghost rest_view = token@.subrange(8, token@.len() as int);
    let c1 = match find_first(&v, 8, ':') {
        Some(i) => i,
        None => {
            return TokenParse::NotRecognized;
        },
    };
    proof {
        assert(spec_first_at(rest_view, ':') == c1 - 8);
    }
    let c2 = match find_first(&v, c1 + 1, ':') {
        Some(i) => i,
        None => {
            proof {
                let after1 = rest_view.subrange(
                    spec_first_at(rest_view, ':') + 1,
                    rest_view.len() as int,
                );
                assert(after1 =~= v@.subrange(c1 + 1, v@.len() as int));
            }
            return TokenParse::NotRecognized;
        },
    };
    proof {
        let after1 = rest_view.subrange(spec_first_at(rest_view, ':') + 1, rest_view.len() as int);
        assert(after1 =~= v@.subrange(c1 + 1, v@.len() as int));
        assert(spec_first_at(after1, ':') == c2 - (c1 + 1));
    }
    let id = sub_string(&v, 8, c1);
    let service = sub_string(&v, c1 + 1, c2);
    let digits = sub_chars_local(&v, c2 + 1, v.len());
    proof {
        let after1 = rest_view.subrange(spec_first_at(rest_view, ':') + 1, rest_view.len() as int);
        let c2s = spec_first_at(after1, ':');
        assert(id@ =~= rest_view.subrange(0, spec_first_at(rest_view, ':')));
        assert(service@ =~= after1.subrange(0, c2s));
        assert(digits@ =~= after1.subrange(c2s + 1, after1.len() as int));
    }
    match parse_index(&digits) {
        Some(n) => TokenParse::Parsed(
            InteractionCallback::Add { session_id: id, service, choice_index: n },
        ),
        None => TokenParse::BadIndex,
    }
}

fn sub_chars_local(v: &Vec<char>, a: usize, b: usize) -> (r: Vec<char>)
    requires
        a <= b <= v.len(),
    ensures
        r@ == v@.subrange(a as int, b as int),
{
    let mut r: Vec<char> = Vec::new();
    let mut i: usize = a;
    while i < b
        invariant
            a <= i <= b <= v.len(),
            r@ == v@.subrange(a as int, i as int),
        decreases b - i,
    {
        r.push(v[i]);
        i += 1;
        proof {
            assert(r@ =~= v@.subrange(a as int, i as int));
        }
    }
    r
}

fn sub_string(v: &Vec<char>, a: usize, b: usize) -> (r: String)
    requires
        a <= b <= v.len(),
    ensures
        r@ == v@.subrange(a as int, b as int),
{
    let sub = sub_chars_local(v, a, b);
    string_from_chars(&sub)
}

/// A decimal rendering is a non-empty digit string denoting its number.
proof fn lemma_dec_digits(n: int)
    requires
        0 <= n,
    ensures
        spec_dec(n).len() > 0,
        all_digits(spec_dec(n)),
        spec_digits_value(spec_dec(n)) == n,
    decreases n,
{
    if n < 10 {
        lemma_digit_value(n);
        assert(spec_dec(n) =~= seq![crate::text::dec_digit(n)]);
        assert(spec_dec(n).len() == 1);
        assert(spec_dec(n).last() == crate::text::dec_digit(n));
        assert(spec_dec(n).drop_last() =~= Seq::<char>::empty());
        assert(spec_digits_value(spec_dec(n).drop_last()) == 0);
    } else {
        lemma_dec_digits(n / 10);
        lemma_digit_value(n % 10);
        assert(spec_dec(n).drop_last() =~= spec_dec(n / 10));
        assert(spec_dec(n).last() == crate::text::dec_digit(n % 10));
    }
}

/// A digit's character sits exactly its value above `'0'`.
proof fn lemma_digit_value(d: int)
    requires
        0 <= d < 10,
    ensures
        '0' <= crate::text::dec_digit(d) <= '9',
        crate::text::dec_digit(d) as int - '0' as int == d,
{
    if d == 0 {
        assert(crate::text::dec_digit(d) as int - '0' as int == d);
    } else if d == 1 {
        assert(crate::text::dec_digit(d) as int - '0' as int == d);
    } else if d == 2 {
        assert(crate::text::dec_digit(d) as int - '0' as int == d);
    } else if d == 3 {
        assert(crate::text::dec_digit(d) as int - '0' as int == d);
    } else if d == 4 {
        assert(crate::text::dec_digit(d) as int - '0' as int == d);
    } else if d == 5 {
        assert(crate::text::dec_digit(d) as int - '0' as int == d);
    } else if d == 6 {
        assert(crate::text::dec_digit(d) as int - '0' as int == d);
    } else if d == 7 {
        assert(crate::text::dec_digit(d) as int - '0' as int == d);
    } else if d == 8 {
        assert(crate::text::dec_digit(d) as int - '0' as int == d);
    } else {
        assert(crate::text::dec_digit(d) as int - '0' as int == d);
    }
}

/// The first separator in `a + b` stands right after `a` when `a` is free
/// of it and `b` opens with it.
proof fn lemma_first_at_concat(a: Seq<char>, b: Seq<char>, c: char)
    requires
        forall|i: int| 0 <= i < a.len() ==> a[i] != c,
        b.len() > 0,
        b[0] == c,
    ensures
        spec_first_at(a + b, c) == a.len(),
    decreases a.len(),
{
    if a.len() == 0 {
        assert(a + b =~= b);
    } else {
        assert((a + b)[0] == a[0]);
        assert((a + b).drop_first() =~= a.drop_first() + b);
        lemma_first_at_concat(a.drop_first(), b, c);
    }
}

/// Round trip: a confirm-button token built from a colon-free session id
/// and service parses back to exactly those parts — the structured callback
/// carries the session, service and index the button was built with.
pub proof fn lemma_add_token_roundtrip(id: Seq<char>, service: Seq<char>, index: int)
    requires
        forall|i: int| 0 <= i < id.len() ==> id[i] != ':',
        forall|i: int| 0 <= i < service.len() ==> service[i] != ':',
        0 <= index <= usize::MAX,
    ensures
        ({
            let t = spec_add_token(id, service, index);
            &&& !starts_with(t, "req_sel:"@)
            &&& starts_with(t, "req_add:"@)
            &&& ({
                let rest = t.subrange(8, t.len() as int);
                let c1 = spec_first_at(rest, ':');
                let after1 = rest.subrange(c1 + 1, rest.len() as int);
                let c2 = spec_first_at(after1, ':');
                let digits = after1.subrange(c2 + 1, after1.len() as int);
                &&& c1 == id.len()
                &&& rest.subrange(0, c1) == id
                &&& c2 == service.len()
                &&& after1.subrange(0, c2) == service
                &&& digits.len() > 0
                &&& all_digits(digits)
                &&& spec_digits_value(digits) == index
            })
        }),
{
    reveal_strlit("req_add:");
    reveal_strlit("req_sel:");
    reveal_strlit(":");
    assert(":"@ =~= seq![':']);
    let t = spec_add_token(id, service, index);
    lemma_dec_digits(index);
    assert(t.subrange(0, 8) =~= "req_add:"@);
    assert(starts_with(t, "req_add:"@));
    assert("req_sel:"@[4] != "req_add:"@[4]);
    assert(!starts_with(t, "req_sel:"@)) by {
        if starts_with(t, "req_sel:"@) {
            assert(t.subrange(0, 8)[4] == "req_sel:"@[4]);
        }
    }
    let rest = t.subrange(8, t.len() as int);
    let tail1 = seq![':'] + service + seq![':'] + spec_dec(index);
    assert(rest =~= id + tail1);
    lemma_first_at_concat(id, tail1, ':');
    let c1 = spec_first_at(rest, ':');
    assert(c1 == id.len());
    assert(rest.subrange(0, c1) =~= id);
    let after1 = rest.subrange(c1 + 1, rest.len() as int);
    let tail2 = seq![':'] + spec_dec(index);
    assert(after1 =~= service + tail2);
    lemma_first_at_concat(service, tail2, ':');
    let c2 = spec_first_at(after1, ':');
    assert(c2 == service.len());
    assert(after1.subrange(0, c2) =~= service);
    let digits = after1.subrange(c2 + 1, after1.len() as int);
    assert(digits =~= spec_dec(index));
}

/// One raw search result from the indexer: plain values only.
pub struct SearchResult {
    pub title: String,
    pub size: Option<u64>,
    pub indexer_name: Option<String>,
}

/// The source label a result is stored under: its indexer, or `unknown`.
pub open spec fn spec_source_label(r: SearchResult) -> Seq<char> {
    match r.indexer_name {
        Some(n) => n@,
        None => "unknown"@,
    }
}

/// Turn raw search results into the items a pending selection stores: at
/// most the menu's capacity, in result order, each with its indexer label.
pub fn build_pending_items(results: &Vec<SearchResult>) -> (items: Vec<
    crate::cache::SelectableItem,
>)
    ensures
        items@.len() == (if results@.len() <= MAX_SELECT_OPTIONS {
            results@.len() as int
        } else {
            MAX_SELECT_OPTIONS as int
        }),
        forall|i: int|
            0 <= i < items@.len() ==> #[trigger] crate::cache::item_view(items@[i]) == (
                results@[i].title@,
                results@[i].size,
                spec_source_label(results@[i]),
            ),
{
    let mut items: Vec<crate::cache::SelectableItem> = Vec::new();
    let n: usize = if results.len() <= MAX_SELECT_OPTIONS {
        results.len()
    } else {
        MAX_SELECT_OPTIONS
    };
    let mut i: usize = 0;
    while i < n
        invariant
            n <= results.len(),
            i <= n,
            items@.len() == i,
            forall|k: int|
                0 <= k < i ==> #[trigger] crate::cache::item_view(items@[k]) == (
                    results@[k].title@,
                    results@[k].size,
                    spec_source_label(results@[k]),
                ),
        decreases n - i,
    {
        let label: String = match &results[i].indexer_name {
            Some(s) => s.clone(),
            None => "unknown".to_owned(),
        };
        let it = crate::cache::SelectableItem {
            title: results[i].title.clone(),
            size: results[i].size,
            source_label: label,
        };
        items.push(it);
        i += 1;
    }
    items
}

/// The size annotation on a selectable entry: the size in megabytes to one
/// decimal, or nothing when the result reports none.
pub open spec fn spec_size_label(size: Option<u64>) -> Seq<char> {
    match size {
        Some(s) => " ("@ + crate::qbit::spec_tenths_str(crate::qbit::spec_tenths(s as int, 1048576))
            + " MB)"@,
        None => Seq::empty(),
    }
}

/// Render a result's size annotation.
pub fn size_label(size: Option<u64>) -> (r: String)
    ensures
        r@ == spec_size_label(size),
{
    match size {
        Some(s) => {
            let mut out: String = " (".to_owned();
            let t = crate::qbit::tenths_string(crate::qbit::scaled_tenths(s, 1048576));
            out.append(t.as_str());
            out.append(" MB)");
            out
        },
        None => {
            let r = String::new();
            proof {
                assert(r@ =~= spec_size_label(size));
            }
            r
        },
    }
}

/// The label a stored item shows in the selection menu: its title, clipped.
pub fn option_label(item: &crate::cache::SelectableItem) -> (r: String)
    ensures
        r@ == spec_clip(item.title@, 100),
{
    truncate_string(item.title.as_str(), 100)
}

/// The description a stored item shows: its source and size, clipped.
pub fn option_description(item: &crate::cache::SelectableItem) -> (r: String)
    ensures
        r@ == spec_clip(item.source_label@ + spec_size_label(item.size), 100),
{
    let mut desc = item.source_label.clone();
    let sl = size_label(item.size);
    desc.append(sl.as_str());
    truncate_string(desc.as_str(), 100)
}

/// The confirm buttons offered after a selection: one per configured target
/// service, each carrying the session and choice in its token.
pub fn select_buttons(
    has_sonarr: bool,
    has_radarr: bool,
    session_id: &str,
    index: u64,
) -> (buttons: Vec<(String, String)>)
    ensures
        buttons@.len() == (if has_sonarr {
            1int
        } else {
            0int
        }) + (if has_radarr {
            1int
        } else {
            0int
        }),
        has_sonarr ==> (buttons@[0].0@ == spec_add_token(session_id@, "sonarr"@, index as int)
            && buttons@[0].1@ == "Add to Sonarr"@),
        has_radarr ==> ({
            let i: int = if has_sonarr {
                1
            } else {
                0
            };
            buttons@[i].0@ == spec_add_token(session_id@, "radarr"@, index as int)
                && buttons@[i].1@ == "Add to Radarr"@
        }),
{
    let mut buttons: Vec<(String, String)> = Vec::new();
    if has_sonarr {
        buttons.push((make_add_token(session_id, "sonarr", index), "Add to Sonarr".to_owned()));
    }
    if has_radarr {
        buttons.push((make_add_token(session_id, "radarr", index), "Add to Radarr".to_owned()));
    }
    buttons
}

/// A target service for an add request.
#[derive(Clone, Copy, PartialEq, Eq, Structural, Debug)]
pub enum TargetService {
    Sonarr,
    Radarr,
}

/// What the final add call needs: the endpoints to hit, the defaults to
/// fill in, and the flag that starts a search after adding.
pub struct AddPlan {
    pub lookup_endpoint: String,
    pub add_endpoint: String,
    pub root_path: String,
    pub profile_id: u32,
    pub search_flag_key: String,
    pub service_name: String,
}

/// The fixed reply for an expired or unknown selection.
pub fn expired_message() -> (r: &'static str)
    ensures
        r@ == "This request has expired. Please search again."@,
{
    "This request has expired. Please search again."
}

/// The fixed reply for a selection index out of range.
pub fn invalid_selection_message() -> (r: &'static str)
    ensures
        r@ == "Invalid selection."@,
{
    "Invalid selection."
}

/// The lower-case name of a target service, as its tokens carry it.
pub open spec fn spec_service_key(s: TargetService) -> Seq<char> {
    match s {
        TargetService::Sonarr => "sonarr"@,
        TargetService::Radarr => "radarr"@,
    }
}

/// The display name of a target service.
pub open spec fn spec_service_name(s: TargetService) -> Seq<char> {
    match s {
        TargetService::Sonarr => "Sonarr"@,
        TargetService::Radarr => "Radarr"@,
    }
}

/// Plan the final add call from the target's defaults: the first root
/// folder and first quality profile are used; a missing root or profile is
/// an error naming the service.
pub fn plan_add(service: TargetService, roots: &Vec<String>, profile_ids: &Vec<u32>) -> (r: Result<
    AddPlan,
    crate::errors::PluginError,
>)
    ensures
        roots@.len() > 0 && profile_ids@.len() > 0 ==> (r matches Ok(p) && {
            &&& p.root_path@ == roots@[0]@
            &&& p.profile_id == profile_ids@[0]
            &&& p.lookup_endpoint@ == (if service == TargetService::Sonarr {
                "series/lookup"@
            } else {
                "movie/lookup"@
            })
            &&& p.add_endpoint@ == (if service == TargetService::Sonarr {
                "series"@
            } else {
                "movie"@
            })
            &&& p.search_flag_key@ == (if service == TargetService::Sonarr {
                "searchForMissingEpisodes"@
            } else {
                "searchForMovie"@
            })
            &&& p.service_name@ == spec_service_name(service)
        }),
        roots@.len() == 0 ==> (r matches Err(e) && e matches crate::errors::PluginError::Other(m)
            && m@ == "No root folder configured in "@ + spec_service_key(service)),
        roots@.len() > 0 && profile_ids@.len() == 0 ==> (r matches Err(e) && e
            matches crate::errors::PluginError::Other(m) && m@
            == "No quality profile configured in "@ + spec_service_key(service)),
{
    let key: &str = match service {
        TargetService::Sonarr => "sonarr",
        TargetService::Radarr => "radarr",
    };
    if roots.len() == 0 {
        let mut msg: String = "No root folder configured in ".to_owned();
        msg.append(key);
        return Err(crate::errors::PluginError::Other(msg));
    }
    if profile_ids.len() == 0 {
        let mut msg: String = "No quality profile configured in ".to_owned();
        msg.append(key);
        return Err(crate::errors::PluginError::Other(msg));
    }
    let plan = match service {
        TargetService::Sonarr => AddPlan {
            lookup_endpoint: "series/lookup".to_owned(),
            add_endpoint: "series".to_owned(),
            root_path: roots[0].clone(),
            profile_id: profile_ids[0],
            search_flag_key: "searchForMissingEpisodes".to_owned(),
            service_name: "Sonarr".to_owned(),
        },
        TargetService::Radarr => AddPlan {
            lookup_endpoint: "movie/lookup".to_owned(),
            add_endpoint: "movie".to_owned(),
            root_path: roots[0].clone(),
            profile_id: profile_ids[0],
            search_flag_key: "searchForMovie".to_owned(),
            service_name: "Radarr".to_owned(),
        },
    };
    Ok(plan)
}

proof fn lemma_digits_value_nonneg(s: Seq<char>)
    ensures
        all_digits(s) ==> spec_digits_value(s) >= 0,
    decreases s.len(),
{
    if s.len() > 0 {
        assert(forall|i: int|
            0 <= i < s.drop_last().len() ==> s.drop_last()[i] == s[i]);
        lemma_digits_value_nonneg(s.drop_last());
    }
}

/// Once a digit prefix exceeds the word, every longer prefix does too.
proof fn lemma_digits_value_grows(s: Seq<char>, i: int)
    requires
        0 <= i < s.len(),
        all_digits(s.subrange(0, i)) ==> spec_digits_value(s.subrange(0, i)) * 10 + (s[i] as int
            - '0' as int) > usize::MAX,
    ensures
        !all_digits(s) || spec_digits_value(s) > usize::MAX,
    decreases s.len() - i,
{
    if all_digits(s) {
        assert(forall|k: int| 0 <= k < i ==> s.subrange(0, i)[k] == s[k]);
        if i == s.len() - 1 {
            assert(s.subrange(0, i) =~= s.drop_last());
        } else {
            assert(s.subrange(0, i + 1).drop_last() =~= s.subrange(0, i));
            assert(spec_digits_value(s.subrange(0, i + 1)) > usize::MAX);
            lemma_digits_value_weak(s, i + 1);
        }
    }
}

/// A digit string's value only grows as digits are appended.
proof fn lemma_digits_value_weak(s: Seq<char>, i: int)
    requires
        0 <= i < s.len(),
        all_digits(s),
        spec_digits_value(s.subrange(0, i)) > usize::MAX,
    ensures
        spec_digits_value(s) > usize::MAX,
    decreases s.len() - i,
{
    lemma_digits_value_nonneg(s.subrange(0, i));
    if i == s.len() - 1 {
        assert(s.subrange(0, i) =~= s.drop_last());
    } else {
        assert(s.subrange(0, i + 1).drop_last() =~= s.subrange(0, i));
        assert(forall|k: int| 0 <= k < i + 1 ==> s.subrange(0, i + 1)[k] == s[k]);
        lemma_digits_value_weak(s, i + 1);
    }
}

} // verus!
