//! The interaction selection cache: short-lived, server-held selection
//! state keyed by an opaque session id. Entries expire a fixed time after
//! creation; expiry is enforced by sweeping before every operation rather
//! than by a timer. `take` removes what it returns, so a selection is
//! consumed at most once.

use vstd::prelude::*;

verus! {

/// The default time an entry lives, in seconds.
pub const DEFAULT_SELECTION_TTL_SECS: u64 = 900;

/// One selectable search result, immutable once stored.
pub struct SelectableItem {
    pub title: String,
    pub size: Option<u64>,
    pub source_label: String,
}

/// The ghost shape of one item.
pub open spec fn item_view(it: SelectableItem) -> (Seq<char>, Option<u64>, Seq<char>) {
    (it.title@, it.size, it.source_label@)
}

/// The ghost shape of a list of items.
pub open spec fn items_view(s: Seq<SelectableItem>) -> Seq<(Seq<char>, Option<u64>, Seq<char>)> {
    s.map_values(|it: SelectableItem| item_view(it))
}

/// One pending multi-step selection.
pub struct PendingSelection {
    pub session_id: String,
    pub items: Vec<SelectableItem>,
    pub created_at: u64,
}

/// What the cache remembers for one session id: the items and the creation
/// time.
pub type EntryModel = (Seq<(Seq<char>, Option<u64>, Seq<char>)>, u64);

/// An entry created at `created` is still live at `now`: younger than the
/// TTL (a creation stamp in the future counts as age zero).
pub open spec fn spec_live(created: u64, now: u64, ttl: u64) -> bool {
    created > now || now - created < ttl
}

/// The map a list of entries stands for; a later entry overrides an
/// earlier one with the same id (the well-formed cache has no duplicates).
pub open spec fn entries_map(s: Seq<PendingSelection>) -> Map<Seq<char>, EntryModel>
    decreases s.len(),
{
    if s.len() == 0 {
        Map::empty()
    } else {
        entries_map(s.drop_last()).insert(
            s.last().session_id@,
            (items_view(s.last().items@), s.last().created_at),
        )
    }
}

/// The model after expired entries are swept out at `now`.
pub open spec fn spec_sweep(m: Map<Seq<char>, EntryModel>, now: u64, ttl: u64) -> Map<
    Seq<char>,
    EntryModel,
> {
    Map::new(|k: Seq<char>| m.contains_key(k) && spec_live(m[k].1, now, ttl), |k: Seq<char>| m[k])
}

/// No two entries share a session id.
pub open spec fn unique_ids(s: Seq<PendingSelection>) -> bool {
    forall|a: int, b: int|
        0 <= a < b < s.len() ==> s[a].session_id@ != s[b].session_id@
}

/// Which entries a sweep keeps: the live ones, minus an optional session id
/// that is being replaced or consumed.
pub open spec fn keep_entry(
    e: PendingSelection,
    now: u64,
    ttl: u64,
    excl: Option<Seq<char>>,
) -> bool {
    spec_live(e.created_at, now, ttl) && match excl {
        Some(x) => e.session_id@ != x,
        None => true,
    }
}

/// The entries a sweep keeps, in order.
pub open spec fn filter_entries(
    s: Seq<PendingSelection>,
    now: u64,
    ttl: u64,
    excl: Option<Seq<char>>,
) -> Seq<PendingSelection>
    decreases s.len(),
{
    if s.len() == 0 {
        Seq::empty()
    } else {
        let rest = filter_entries(s.drop_last(), now, ttl, excl);
        if keep_entry(s.last(), now, ttl, excl) {
            rest.push(s.last())
        } else {
            rest
        }
    }
}

proof fn lemma_map_domain(s: Seq<PendingSelection>, k: Seq<char>)
    ensures
        entries_map(s).contains_key(k) <==> exists|i: int|
            0 <= i < s.len() && s[i].session_id@ == k,
    decreases s.len(),
{
    if s.len() > 0 {
        lemma_map_domain(s.drop_last(), k);
        if s.last().session_id@ == k {
            assert(s[s.len() - 1].session_id@ == k);
        } else {
            if exists|i: int| 0 <= i < s.len() && s[i].session_id@ == k {
                let i = choose|i: int| 0 <= i < s.len() && s[i].session_id@ == k;
                assert(s.drop_last()[i] == s[i]);
            }
        }
    }
}

proof fn lemma_map_at(s: Seq<PendingSelection>, i: int)
    requires
        unique_ids(s),
        0 <= i < s.len(),
    ensures
        entries_map(s).contains_key(s[i].session_id@),
        entries_map(s)[s[i].session_id@] == (items_view(s[i].items@), s[i].created_at),
    decreases s.len(),
{
    if i == s.len() - 1 {
    } else {
        assert(s.last().session_id@ != s[i].session_id@);
        assert(s.drop_last()[i] == s[i]);
        lemma_map_at(s.drop_last(), i);
    }
}

proof fn lemma_filter_model(s: Seq<PendingSelection>, now: u64, ttl: u64, excl: Option<Seq<char>>)
    requires
        unique_ids(s),
    ensures
        unique_ids(filter_entries(s, now, ttl, excl)),
        entries_map(filter_entries(s, now, ttl, excl)) == (match excl {
            None => spec_sweep(entries_map(s), now, ttl),
            Some(x) => spec_sweep(entries_map(s), now, ttl).remove(x),
        }),
    decreases s.len(),
{
    if s.len() == 0 {
        assert(entries_map(filter_entries(s, now, ttl, excl)) =~= (match excl {
            None => spec_sweep(entries_map(s), now, ttl),
            Some(x) => spec_sweep(entries_map(s), now, ttl).remove(x),
        }));
    } else {
        let e = s.last();
        let rest = s.drop_last();
        assert(forall|i: int| 0 <= i < rest.len() ==> rest[i] == s[i]);
        lemma_filter_model(rest, now, ttl, excl);
        let f = filter_entries(s, now, ttl, excl);
        let fr = filter_entries(rest, now, ttl, excl);
        // The filtered list still has unique ids: each of its elements is
        // one of the original entries.
        assert forall|a: int, b: int|
            0 <= a < b < f.len() implies f[a].session_id@ != f[b].session_id@ by {
            if keep_entry(e, now, ttl, excl) {
                if b < f.len() - 1 {
                } else {
                    lemma_filter_membership(rest, now, ttl, excl, a);
                }
            }
        }
        // The entry at the top is absent from the rest's map.
        lemma_map_domain(rest, e.session_id@);
        assert(!entries_map(rest).contains_key(e.session_id@));
        if keep_entry(e, now, ttl, excl) {
            assert(f.drop_last() =~= fr);
            assert(f.last() == e);
            assert(entries_map(f) == entries_map(fr).insert(
                e.session_id@,
                (items_view(e.items@), e.created_at),
            ));
            assert(entries_map(f) =~= (match excl {
                None => spec_sweep(entries_map(s), now, ttl),
                Some(x) => spec_sweep(entries_map(s), now, ttl).remove(x),
            }));
        } else {
            assert(f == fr);
            assert(entries_map(f) =~= (match excl {
                None => spec_sweep(entries_map(s), now, ttl),
                Some(x) => spec_sweep(entries_map(s), now, ttl).remove(x),
            }));
        }
    }
}

proof fn lemma_filter_membership(
    s: Seq<PendingSelection>,
    now: u64,
    ttl: u64,
    excl: Option<Seq<char>>,
    a: int,
)
    requires
        0 <= a < filter_entries(s, now, ttl, excl).len(),
    ensures
        exists|i: int|
            0 <= i < s.len() && s[i] == filter_entries(s, now, ttl, excl)[a],
    decreases s.len(),
{
    if s.len() > 0 {
        let f = filter_entries(s, now, ttl, excl);
        let fr = filter_entries(s.drop_last(), now, ttl, excl);
        if keep_entry(s.last(), now, ttl, excl) && a == f.len() - 1 {
            assert(s[s.len() - 1] == f[a]);
        } else {
            lemma_filter_membership(s.drop_last(), now, ttl, excl, a);
            let i = choose|i: int|
                0 <= i < s.drop_last().len() && s.drop_last()[i] == fr[a];
            assert(s[i] == f[a]);
        }
    }
}

/// The selection cache.
pub struct SelectionCache {
    ttl_secs: u64,
    entries: Vec<PendingSelection>,
}

impl SelectionCache {
    /// The configured entry lifetime, in seconds.
    pub closed spec fn ttl(&self) -> u64 {
        self.ttl_secs
    }

    /// The cache's model: session id to items and creation time.
    pub closed spec fn model(&self) -> Map<Seq<char>, EntryModel> {
        entries_map(self.entries@)
    }

    /// No session id is stored twice.
    pub closed spec fn wf(&self) -> bool {
        unique_ids(self.entries@)
    }

    /// An empty cache with the given TTL.
    pub fn new(ttl_secs: u64) -> (r: SelectionCache)
        ensures
            r.ttl() == ttl_secs,
            r.model() == Map::<Seq<char>, EntryModel>::empty(),
            r.wf(),
    {
        SelectionCache { ttl_secs, entries: Vec::new() }
    }

    /// Remove every entry whose age has reached the TTL, and optionally the
    /// entry under one session id.
    fn sweep_with(&mut self, now: u64, excl: Option<&String>) -> (kept_excl: Option<(
        Vec<SelectableItem>,
        u64,
    )>)
        requires
            old(self).wf(),
        ensures
            final(self).wf(),
            final(self).ttl() == old(self).ttl(),
            match excl {
                None => final(self).model() == spec_sweep(
                    old(self).model(),
                    now,
                    old(self).ttl(),
                ),
                Some(x) => final(self).model() == spec_sweep(
                    old(self).model(),
                    now,
                    old(self).ttl(),
                ).remove(x@),
            },
            match excl {
                None => kept_excl is None,
                Some(x) => match kept_excl {
                    Some(p) => spec_sweep(old(self).model(), now, old(self).ttl()).contains_key(x@)
                        && spec_sweep(old(self).model(), now, old(self).ttl())[x@] == (items_view(
                        p.0@,
                    ), p.1),
                    None => !spec_sweep(old(self).model(), now, old(self).ttl()).contains_key(x@),
                },
            },
    {
        let ghost excl_view: Option<Seq<char>> = match excl {
            Some(x) => Some(x@),
            None => None,
        };
        let ttl = self.ttl_secs;
        let mut pending: Vec<PendingSelection> = Vec::new();
        core::mem::swap(&mut pending, &mut self.entries);
        let ghost orig = pending@;
        let total: usize = pending.len();
        let mut kept: Vec<PendingSelection> = Vec::new();
        let mut captured: Option<(Vec<SelectableItem>, u64)> = None;
        let mut i: usize = 0;
        proof {
            assert(orig.subrange(0, 0) =~= Seq::<PendingSelection>::empty());
            assert(pending@ =~= orig.subrange(0, orig.len() as int));
        }
        while pending.len() > 0
            invariant
                i <= total,
                total == orig.len(),
                i + pending.len() == orig.len(),
                pending@ == orig.subrange(i as int, orig.len() as int),
                unique_ids(orig),
                ttl == self.ttl_secs,
                excl_view == (match excl {
                    Some(x) => Some(x@),
                    None => None,
                }),
                kept@ == filter_entries(orig.subrange(0, i as int), now, ttl, excl_view),
                match excl_view {
                    None => captured is None,
                    Some(x) => match captured {
                        Some(p) => exists|j: int|
                            0 <= j < i && orig[j].session_id@ == x && spec_live(
                                orig[j].created_at,
                                now,
                                ttl,
                            ) && #[trigger] orig[j].created_at == p.1 && orig[j].items@ == p.0@,
                        None => forall|j: int|
                            0 <= j < i ==> !(orig[j].session_id@ == x && spec_live(
                                orig[j].created_at,
                                now,
                                ttl,
                            )),
                    },
                },
            decreases pending.len(),
        {
            let e = pending.remove(0);
            proof {
                assert(e == orig[i as int]);
                assert(pending@ =~= orig.subrange(i + 1, orig.len() as int));
                let pre = orig.subrange(0, i + 1);
                assert(pre.drop_last() =~= orig.subrange(0, i as int));
                assert(pre.last() == orig[i as int]);
            }
            let live: bool = e.created_at > now || now - e.created_at < ttl;
            let mut is_excluded: bool = false;
            match excl {
                Some(x) => {
                    if e.session_id == *x {
                        is_excluded = true;
                    }
                },
                None => {},
            }
            if is_excluded {
                if live {
                    captured = Some((e.items, e.created_at));
                }
            } else if live {
                kept.push(e);
            }
            i += 1;
            proof {
                assert(kept@ =~= filter_entries(orig.subrange(0, i as int), now, ttl, excl_view));
            }
        }
        proof {
            assert(orig.subrange(0, orig.len() as int) =~= orig);
            lemma_filter_model(orig, now, ttl, excl_view);
            match excl_view {
                Some(x) => {
                    if captured is Some {
                        let j = choose|j: int|
                            0 <= j < orig.len() && orig[j].session_id@ == x && spec_live(
                                orig[j].created_at,
                                now,
                                ttl,
                            ) && #[trigger] orig[j].created_at == captured->Some_0.1 && orig[j].items@
                                == captured->Some_0.0@;
                        lemma_map_at(orig, j);
                    } else {
                        lemma_map_domain(orig, x);
                        if entries_map(orig).contains_key(x) {
                            let j = choose|i: int|
                                0 <= i < orig.len() && orig[i].session_id@ == x;
                            lemma_map_at(orig, j);
                        }
                    }
                },
                None => {},
            }
        }
        self.entries = kept;
        captured
    }

    /// Remove every entry whose age has reached the TTL. Expiry is enforced
    /// here, called before every cache operation, not by a timer.
    pub fn sweep_expired(&mut self, now: u64)
        requires
            old(self).wf(),
        ensures
            final(self).wf(),
            final(self).ttl() == old(self).ttl(),
            final(self).model() == spec_sweep(old(self).model(), now, old(self).ttl()),
    {
        let _ = self.sweep_with(now, None);
    }

    /// Store a pending selection, overwriting any entry under the same id;
    /// expired entries are swept out first.
    pub fn put(&mut self, session_id: String, items: Vec<SelectableItem>, now: u64)
        requires
            old(self).wf(),
        ensures
            final(self).wf(),
            final(self).ttl() == old(self).ttl(),
            final(self).model() == spec_sweep(old(self).model(), now, old(self).ttl()).insert(
                session_id@,
                (items_view(items@), now),
            ),
    {
        let _ = self.sweep_with(now, Some(&session_id));
        let ghost pre = self.entries@;
        proof {
            lemma_map_domain(pre, session_id@);
        }
        let entry = PendingSelection { session_id, items, created_at: now };
        self.entries.push(entry);
        proof {
            assert(self.entries@.drop_last() =~= pre);
            assert forall|a: int, b: int|
                0 <= a < b < self.entries@.len() implies self.entries@[a].session_id@
                != self.entries@[b].session_id@ by {
                if b == self.entries@.len() - 1 {
                    assert(self.entries@[a] == pre[a]);
                }
            }
            assert(final(self).model() =~= spec_sweep(
                old(self).model(),
                now,
                old(self).ttl(),
            ).insert(session_id@, (items_view(items@), now)));
        }
    }

    fn lookup(&self, session_id: &String) -> (r: Option<(Vec<SelectableItem>, u64)>)
        requires
            self.wf(),
        ensures
            match r {
                Some(p) => self.model().contains_key(session_id@) && self.model()[session_id@]
                    == (items_view(p.0@), p.1),
                None => !self.model().contains_key(session_id@),
            },
    {
        let mut i: usize = 0;
        while i < self.entries.len()
            invariant
                self.wf(),
                i <= self.entries.len(),
                forall|j: int| 0 <= j < i ==> self.entries@[j].session_id@ != session_id@,
            decreases self.entries.len() - i,
        {
            if self.entries[i].session_id == *session_id {
                let items = clone_items(&self.entries[i].items);
                proof {
                    lemma_map_at(self.entries@, i as int);
                }
                return Some((items, self.entries[i].created_at));
            }
            i += 1;
        }
        proof {
            lemma_map_domain(self.entries@, session_id@);
        }
        None
    }

    /// Read a pending selection without removing it (used to render a
    /// secondary selection step); expired entries are swept out first, so a
    /// lookup at or past the entry's TTL finds nothing.
    pub fn get(&mut self, session_id: &String, now: u64) -> (r: Option<Vec<SelectableItem>>)
        requires
            old(self).wf(),
        ensures
            final(self).wf(),
            final(self).ttl() == old(self).ttl(),
            final(self).model() == spec_sweep(old(self).model(), now, old(self).ttl()),
            ({
                let swept = spec_sweep(old(self).model(), now, old(self).ttl());
                match r {
                    Some(items) => swept.contains_key(session_id@) && items_view(items@)
                        == swept[session_id@].0,
                    None => !swept.contains_key(session_id@),
                }
            }),
    {
        let _ = self.sweep_with(now, None);
        match self.lookup(session_id) {
            Some(p) => Some(p.0),
            None => None,
        }
    }

    /// Read and remove a pending selection (used on terminal confirmation);
    /// of two takes for the same id, only the first can return the items.
    pub fn take(&mut self, session_id: &String, now: u64) -> (r: Option<Vec<SelectableItem>>)
        requires
            old(self).wf(),
        ensures
            final(self).wf(),
            final(self).ttl() == old(self).ttl(),
            final(self).model() == spec_sweep(old(self).model(), now, old(self).ttl()).remove(
                session_id@,
            ),
            ({
                let swept = spec_sweep(old(self).model(), now, old(self).ttl());
                match r {
                    Some(items) => swept.contains_key(session_id@) && items_view(items@)
                        == swept[session_id@].0,
                    None => !swept.contains_key(session_id@),
                }
            }),
    {
        match self.sweep_with(now, Some(session_id)) {
            Some(p) => Some(p.0),
            None => None,
        }
    }
}

/// Selection TTL: a selection stored at `t0` is found by a lookup strictly
/// before `t0 + ttl` and holds the stored items, and is gone from any
/// lookup at or after `t0 + ttl`.
pub proof fn lemma_selection_ttl(
    m: Map<Seq<char>, EntryModel>,
    id: Seq<char>,
    items: Seq<(Seq<char>, Option<u64>, Seq<char>)>,
    t0: u64,
    t: u64,
    ttl: u64,
)
    requires
        t0 <= t,
    ensures
        ({
            let after_put = spec_sweep(m, t0, ttl).insert(id, (items, t0));
            let seen = spec_sweep(after_put, t, ttl);
            &&& (t - t0 < ttl ==> seen.contains_key(id) && seen[id] == (items, t0))
            &&& (t - t0 >= ttl ==> !seen.contains_key(id))
        }),
{
}

/// Exactly-once consumption: once a `take` has removed a session id, no
/// later lookup or take at any time finds it again (until a new `put`).
pub proof fn lemma_exactly_once(
    m: Map<Seq<char>, EntryModel>,
    id: Seq<char>,
    t: u64,
    t2: u64,
    ttl: u64,
)
    ensures
        !spec_sweep(spec_sweep(m, t, ttl).remove(id), t2, ttl).contains_key(id),
        spec_sweep(spec_sweep(m, t, ttl).remove(id), t2, ttl).remove(id) == spec_sweep(
            spec_sweep(m, t, ttl).remove(id),
            t2,
            ttl,
        ),
{
    assert(spec_sweep(spec_sweep(m, t, ttl).remove(id), t2, ttl).remove(id) =~= spec_sweep(
        spec_sweep(m, t, ttl).remove(id),
        t2,
        ttl,
    ));
}

fn clone_items(v: &Vec<SelectableItem>) -> (r: Vec<SelectableItem>)
    ensures
        r@ == v@,
{
    let mut r: Vec<SelectableItem> = Vec::new();
    let mut i: usize = 0;
    while i < v.len()
        invariant
            i <= v.len(),
            r@ == v@.subrange(0, i as int),
        decreases v.len() - i,
    {
        let it = SelectableItem {
            title: v[i].title.clone(),
            size: v[i].size,
            source_label: v[i].source_label.clone(),
        };
        proof {
            assert(it == v@[i as int]);
        }
        r.push(it);
        i += 1;
        proof {
            assert(r@ =~= v@.subrange(0, i as int));
        }
    }
    proof {
        assert(r@ =~= v@);
    }
    r
}

} // verus!
