//! The history-diff poller: it remembers which record ids of an append-only
//! event log it has already seen, suppresses everything on its first page
//! (the baseline), emits one event per newly seen record afterwards, and
//! prunes its memory back to the current page whenever it outgrows a fixed
//! bound. Fetching the page is the caller's business.

use vstd::prelude::*;
use std::collections::HashSet;
use crate::events::{
    evs_view, ev_view, NotificationCategory, NotificationEvent, COLOR_GRAB, COLOR_IMPORT,
};

verus! {

broadcast use vstd::std_specs::hash::group_hash_axioms;

/// The largest number of remembered ids before the memory is pruned back to
/// the current page.
pub const SEEN_BOUND: usize = 1000;

/// One record of a service's history log: plain values only.
pub struct HistoryRecord {
    pub id: u64,
    pub event_type: String,
    pub source_title: Option<String>,
}

/// The title shown for a record: its source title, or `Unknown`.
pub open spec fn rec_title(r: HistoryRecord) -> Seq<char> {
    match r.source_title {
        Some(t) => t@,
        None => "Unknown"@,
    }
}

/// The grab event for a record of `service`.
pub open spec fn grab_ev(service: Seq<char>, title: Seq<char>) -> (
    NotificationCategory,
    Seq<char>,
    Seq<char>,
    u32,
) {
    (NotificationCategory::MediaGrab, service + " Grab"@, "Grabbed: "@ + title, COLOR_GRAB)
}

/// The import event for a record of `service`.
pub open spec fn import_ev(service: Seq<char>, title: Seq<char>) -> (
    NotificationCategory,
    Seq<char>,
    Seq<char>,
    u32,
) {
    (NotificationCategory::MediaImport, service + " Import"@, "Imported: "@ + title, COLOR_IMPORT)
}

/// The events one page produces against a seen set: records already seen
/// are skipped, `grabbed` and `downloadFolderImported` records each emit one
/// event, any other type is silently ignored, and each processed id counts
/// as seen for the records after it.
pub open spec fn spec_hist_events(
    recs: Seq<HistoryRecord>,
    seen: Set<u64>,
    service: Seq<char>,
) -> Seq<(NotificationCategory, Seq<char>, Seq<char>, u32)>
    decreases recs.len(),
{
    if recs.len() == 0 {
        Seq::empty()
    } else {
        let r = recs.first();
        if seen.contains(r.id) {
            spec_hist_events(recs.drop_first(), seen, service)
        } else {
            let tail = spec_hist_events(recs.drop_first(), seen.insert(r.id), service);
            if r.event_type@ == "grabbed"@ {
                seq![grab_ev(service, rec_title(r))] + tail
            } else if r.event_type@ == "downloadFolderImported"@ {
                seq![import_ev(service, rec_title(r))] + tail
            } else {
                tail
            }
        }
    }
}

/// The seen set after one page: the old set plus every id on the page.
pub open spec fn spec_hist_seen(recs: Seq<HistoryRecord>, seen: Set<u64>) -> Set<u64>
    decreases recs.len(),
{
    if recs.len() == 0 {
        seen
    } else {
        spec_hist_seen(recs.drop_first(), seen.insert(recs.first().id))
    }
}

/// The ids present on a page.
pub open spec fn page_ids(recs: Seq<HistoryRecord>) -> Set<u64> {
    spec_hist_seen(recs, Set::empty())
}

/// The seen set a poll leaves behind: everything seen so far, pruned back to
/// the current page when it exceeds the bound.
pub open spec fn spec_post_seen(recs: Seq<HistoryRecord>, seen: Set<u64>) -> Set<u64> {
    let grown = spec_hist_seen(recs, seen);
    if grown.len() > SEEN_BOUND {
        page_ids(recs)
    } else {
        grown
    }
}

/// Growing the seen set keeps it finite and only adds page ids.
pub proof fn lemma_hist_seen_finite(recs: Seq<HistoryRecord>, seen: Set<u64>)
    requires
        seen.finite(),
    ensures
        spec_hist_seen(recs, seen).finite(),
        spec_hist_seen(recs, seen).len() <= seen.len() + recs.len(),
        seen.subset_of(spec_hist_seen(recs, seen)),
    decreases recs.len(),
{
    if recs.len() > 0 {
        lemma_hist_seen_finite(recs.drop_first(), seen.insert(recs.first().id));
    }
}

/// The memory bound: a page's id set is finite and no larger than the page.
pub proof fn lemma_page_ids_bounded(recs: Seq<HistoryRecord>)
    ensures
        page_ids(recs).finite(),
        page_ids(recs).len() <= recs.len(),
{
    lemma_hist_seen_finite(recs, Set::empty());
}

/// A history-diff poller for one service.
pub struct HistoryPoller {
    service_name: String,
    seen: HashSet<u64>,
    first_poll: bool,
}

impl HistoryPoller {
    /// The service's display name, used in event titles.
    pub closed spec fn name_view(&self) -> Seq<char> {
        self.service_name@
    }

    /// The service's display name.
    pub fn name(&self) -> (r: &str)
        ensures
            r@ == self.name_view(),
    {
        self.service_name.as_str()
    }

    /// The ids this poller has seen.
    pub closed spec fn seen_ids(&self) -> Set<u64> {
        self.seen@
    }

    /// Whether the next poll is the baseline-establishing first one.
    pub closed spec fn is_first_poll(&self) -> bool {
        self.first_poll
    }

    /// The remembered seen set is finite.
    pub closed spec fn wf(&self) -> bool {
        self.seen@.finite()
    }

    /// A fresh poller: nothing seen, first poll ahead.
    pub fn new(service_name: &str) -> (r: HistoryPoller)
        ensures
            r.name_view() == service_name@,
            r.seen_ids() == Set::<u64>::empty(),
            r.is_first_poll(),
            r.wf(),
    {
        HistoryPoller {
            service_name: service_name.to_owned(),
            seen: HashSet::new(),
            first_poll: true,
        }
    }

    /// Diff one fetched page against the remembered state. The first page
    /// only establishes the baseline: every id is marked seen and nothing is
    /// emitted. Later pages emit one event per unseen recognised record, in
    /// page order. The seen set then holds every page id, pruned back to the
    /// page alone when it exceeds the bound.
    pub fn poll(&mut self, records: &Vec<HistoryRecord>) -> (events: Vec<NotificationEvent>)
        requires
            old(self).wf(),
        ensures
            final(self).wf(),
            final(self).name_view() == old(self).name_view(),
            !final(self).is_first_poll(),
            final(self).seen_ids() == spec_post_seen(records@, old(self).seen_ids()),
            old(self).is_first_poll() ==> events@.len() == 0,
            !old(self).is_first_poll() ==> evs_view(events@) == spec_hist_events(
                records@,
                old(self).seen_ids(),
                old(self).name_view(),
            ),
    {
        let ghost old_seen = self.seen@;
        let mut events: Vec<NotificationEvent> = Vec::new();
        proof {
            assert(records@.subrange(0, records@.len() as int) =~= records@);
        }
        if self.first_poll {
            let mut i: usize = 0;
            while i < records.len()
                invariant
                    i <= records.len(),
                    self.seen@.finite(),
                    self.service_name@ == old(self).service_name@,
                    self.first_poll,
                    spec_hist_seen(records@, old_seen) == spec_hist_seen(
                        records@.subrange(i as int, records@.len() as int),
                        self.seen@,
                    ),
                decreases records.len() - i,
            {
                proof {
                    let suf = records@.subrange(i as int, records@.len() as int);
                    assert(suf.drop_first() =~= records@.subrange(i + 1, records@.len() as int));
                    assert(suf.first() == records@[i as int]);
                }
                self.seen.insert(records[i].id);
                i += 1;
            }
            proof {
                assert(records@.subrange(records@.len() as int, records@.len() as int)
                    =~= Seq::<HistoryRecord>::empty());
            }
            self.prune(records);
            self.first_poll = false;
            return events;
        }
        let grabbed: String = "grabbed".to_owned();
        let imported: String = "downloadFolderImported".to_owned();
        proof {
            assert(records@.subrange(0, records@.len() as int) =~= records@);
            assert(evs_view(events@) =~= Seq::<(NotificationCategory, Seq<char>, Seq<char>,
                u32)>::empty());
        }
        let mut i: usize = 0;
        while i < records.len()
            invariant
                i <= records.len(),
                self.seen@.finite(),
                self.service_name@ == old(self).service_name@,
                !self.first_poll,
                grabbed@ == "grabbed"@,
                imported@ == "downloadFolderImported"@,
                spec_hist_seen(records@, old_seen) == spec_hist_seen(
                    records@.subrange(i as int, records@.len() as int),
                    self.seen@,
                ),
                spec_hist_events(records@, old_seen, old(self).service_name@) == evs_view(events@)
                    + spec_hist_events(
                    records@.subrange(i as int, records@.len() as int),
                    self.seen@,
                    old(self).service_name@,
                ),
            decreases records.len() - i,
        {
            let ghost suf = records@.subrange(i as int, records@.len() as int);
            proof {
                assert(suf.drop_first() =~= records@.subrange(i + 1, records@.len() as int));
                assert(suf.first() == records@[i as int]);
            }
            let rid = records[i].id;
            if self.seen.contains(&rid) {
                proof {
                    assert(self.seen@.insert(rid) =~= self.seen@);
                }
                i += 1;
                continue;
            }
            self.seen.insert(rid);
            let title: String = match &records[i].source_title {
                Some(t) => t.clone(),
                None => "Unknown".to_owned(),
            };
            if records[i].event_type == grabbed {
                let mut ev_title = self.service_name.clone();
                ev_title.append(" Grab");
                let mut body: String = "Grabbed: ".to_owned();
                body.append(title.as_str());
                let ev = NotificationEvent {
                    category: NotificationCategory::MediaGrab,
                    title: ev_title,
                    body,
                    color: COLOR_GRAB,
                };
                proof {
                    assert(ev_view(ev) == grab_ev(old(self).service_name@, rec_title(suf.first())));
                }
                events.push(ev);
            } else if records[i].event_type == imported {
                let mut ev_title = self.service_name.clone();
                ev_title.append(" Import");
                let mut body: String = "Imported: ".to_owned();
                body.append(title.as_str());
                let ev = NotificationEvent {
                    category: NotificationCategory::MediaImport,
                    title: ev_title,
                    body,
                    color: COLOR_IMPORT,
                };
                proof {
                    assert(ev_view(ev) == import_ev(
                        old(self).service_name@,
                        rec_title(suf.first()),
                    ));
                }
                events.push(ev);
            }
            i += 1;
            proof {
                assert(evs_view(events@) + spec_hist_events(
                    records@.subrange(i as int, records@.len() as int),
                    self.seen@,
                    old(self).service_name@,
                ) =~= spec_hist_events(records@, old_seen, old(self).service_name@));
            }
        }
        proof {
            assert(records@.subrange(records@.len() as int, records@.len() as int)
                =~= Seq::<HistoryRecord>::empty());
            assert(evs_view(events@) =~= spec_hist_events(
                records@,
                old_seen,
                old(self).service_name@,
            ));
        }
        self.prune(records);
        self.first_poll = false;
        events
    }

    /// Keep the seen set from growing without bound: once it exceeds the
    /// bound, remember only the ids of the current page.
    fn prune(&mut self, records: &Vec<HistoryRecord>)
        requires
            old(self).wf(),
        ensures
            final(self).wf(),
            final(self).service_name@ == old(self).service_name@,
            final(self).first_poll == old(self).first_poll,
            final(self).seen@ == (if old(self).seen@.len() > SEEN_BOUND {
                page_ids(records@)
            } else {
                old(self).seen@
            }),
    {
        if self.seen.len() > SEEN_BOUND {
            let mut fresh: HashSet<u64> = HashSet::new();
            proof {
                assert(records@.subrange(0, records@.len() as int) =~= records@);
            }
            let mut i: usize = 0;
            while i < records.len()
                invariant
                    i <= records.len(),
                    fresh@.finite(),
                    page_ids(records@) == spec_hist_seen(
                        records@.subrange(i as int, records@.len() as int),
                        fresh@,
                    ),
                decreases records.len() - i,
            {
                proof {
                    let suf = records@.subrange(i as int, records@.len() as int);
                    assert(suf.drop_first() =~= records@.subrange(i + 1, records@.len() as int));
                    assert(suf.first() == records@[i as int]);
                }
                fresh.insert(records[i].id);
                i += 1;
            }
            proof {
                assert(records@.subrange(records@.len() as int, records@.len() as int)
                    =~= Seq::<HistoryRecord>::empty());
            }
            self.seen = fresh;
        }
    }
}

} // verus!
