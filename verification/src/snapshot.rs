//! The snapshot-diff poller: it compares a full current-state fetch (array
//! mode, disk temperature readings, container lifecycle states) against the
//! previous fetch. Mode changes and container transitions away from RUNNING
//! are edge-triggered; threshold breaches re-fire on every poll while they
//! last. Fetching the snapshot is the caller's business.

use vstd::prelude::*;
use crate::events::{
    evs_view, ev_view, NotificationCategory, NotificationEvent, COLOR_ALERT_CRIT, COLOR_ALERT_WARN,
};
use crate::text::{chars_vec, i64_dec_chars, spec_dec_signed, string_from_chars};

verus! {

/// One container as observed in a snapshot.
pub struct ContainerObs {
    /// The container's names, usually one, each with a leading slash.
    pub names: Vec<String>,
    /// The lifecycle state, `RUNNING` when healthy.
    pub state: String,
}

/// One disk temperature reading; `None` when the disk reports none.
pub struct DiskReading {
    pub name: String,
    pub temperature: Option<i64>,
}

/// A full fetch of the monitored server's state.
pub struct Snapshot {
    /// The array's mode string.
    pub array_state: String,
    pub disks: Vec<DiskReading>,
    pub containers: Vec<ContainerObs>,
}

/// The display name of a container: its first name without the leading
/// slash, or `unknown` when it has none.
pub open spec fn spec_display_name(c: ContainerObs) -> Seq<char> {
    if c.names@.len() == 0 {
        "unknown"@
    } else {
        let n = c.names@[0]@;
        if n.len() > 0 && n[0] == '/' {
            n.drop_first()
        } else {
            n
        }
    }
}

impl ContainerObs {
    /// The container's display name.
    pub fn display_name(&self) -> (r: String)
        ensures
            r@ == spec_display_name(*self),
    {
        if self.names.len() == 0 {
            return "unknown".to_owned();
        }
        let v = chars_vec(self.names[0].as_str());
        if v.len() > 0 && v[0] == '/' {
            let mut out: Vec<char> = Vec::new();
            let mut i: usize = 1;
            while i < v.len()
                invariant
                    1 <= i <= v.len(),
                    v@ == self.names@[0]@,
                    out@ == v@.subrange(1, i as int),
                decreases v.len() - i,
            {
                out.push(v[i]);
                i += 1;
                proof {
                    assert(out@ =~= v@.subrange(1, i as int));
                }
            }
            proof {
                assert(out@ =~= self.names@[0]@.drop_first());
            }
            string_from_chars(&out)
        } else {
            self.names[0].clone()
        }
    }
}

/// The ghost shape of the remembered container states: display name to
/// lifecycle state, in observation order.
pub open spec fn pairs_view(v: Seq<(String, String)>) -> Seq<(Seq<char>, Seq<char>)> {
    v.map_values(|p: (String, String)| (p.0@, p.1@))
}

/// Look a name up in an association list where a later entry overrides an
/// earlier one with the same name.
pub open spec fn assoc_last(entries: Seq<(Seq<char>, Seq<char>)>, name: Seq<char>) -> Option<
    Seq<char>,
>
    decreases entries.len(),
{
    if entries.len() == 0 {
        None
    } else if entries.last().0 == name {
        Some(entries.last().1)
    } else {
        assoc_last(entries.drop_last(), name)
    }
}

/// The remembered pairs a snapshot leaves behind.
pub open spec fn snapshot_pairs(containers: Seq<ContainerObs>) -> Seq<(Seq<char>, Seq<char>)> {
    containers.map_values(|c: ContainerObs| (spec_display_name(c), c.state@))
}

/// The mode-change event: fires exactly when a previous mode exists and
/// differs from the current one.
pub open spec fn mode_events(last: Option<Seq<char>>, cur: Seq<char>) -> Seq<
    (NotificationCategory, Seq<char>, Seq<char>, u32),
> {
    match last {
        Some(l) => if l != cur {
            seq![
                (
                    NotificationCategory::ServerAlert,
                    "Array State Changed"@,
                    l + " -> "@ + cur,
                    COLOR_ALERT_WARN,
                ),
            ]
        } else {
            Seq::empty()
        },
        None => Seq::empty(),
    }
}

/// The alert for one over-threshold disk reading.
pub open spec fn temp_ev(name: Seq<char>, t: int, thr: int) -> (
    NotificationCategory,
    Seq<char>,
    Seq<char>,
    u32,
) {
    (
        NotificationCategory::ServerAlert,
        "Disk Temperature Warning"@,
        name + ": "@ + spec_dec_signed(t) + "C (threshold: "@ + spec_dec_signed(thr) + "C)"@,
        COLOR_ALERT_CRIT,
    )
}

/// One alert per disk at or above the threshold, on every poll, in disk
/// order: deliberately not edge-triggered, so a sustained problem keeps
/// being flagged.
pub open spec fn temp_events(disks: Seq<DiskReading>, thr: int) -> Seq<
    (NotificationCategory, Seq<char>, Seq<char>, u32),
>
    decreases disks.len(),
{
    if disks.len() == 0 {
        Seq::empty()
    } else {
        let head = match disks.first().temperature {
            Some(t) => if t >= thr {
                seq![temp_ev(disks.first().name@, t as int, thr)]
            } else {
                Seq::empty()
            },
            None => Seq::empty(),
        };
        head + temp_events(disks.drop_first(), thr)
    }
}

/// The alert for one container that left the RUNNING state.
pub open spec fn container_ev(name: Seq<char>, last: Seq<char>, cur: Seq<char>) -> (
    NotificationCategory,
    Seq<char>,
    Seq<char>,
    u32,
) {
    (
        NotificationCategory::ServerAlert,
        "Container Down"@,
        name + ": "@ + last + " -> "@ + cur,
        COLOR_ALERT_CRIT,
    )
}

/// One alert per container whose remembered state was RUNNING and whose
/// current state is not: edge-triggered, so a known-down container is
/// reported once, not on every poll.
pub open spec fn container_events(
    containers: Seq<ContainerObs>,
    last: Seq<(Seq<char>, Seq<char>)>,
) -> Seq<(NotificationCategory, Seq<char>, Seq<char>, u32)>
    decreases containers.len(),
{
    if containers.len() == 0 {
        Seq::empty()
    } else {
        let c = containers.first();
        let name = spec_display_name(c);
        let head = match assoc_last(last, name) {
            Some(ls) => if ls == "RUNNING"@ && c.state@ != "RUNNING"@ {
                seq![container_ev(name, ls, c.state@)]
            } else {
                Seq::empty()
            },
            None => Seq::empty(),
        };
        head + container_events(containers.drop_first(), last)
    }
}

/// A snapshot-diff poller.
pub struct SnapshotPoller {
    temp_threshold: i64,
    last_array_state: Option<String>,
    last_container_states: Vec<(String, String)>,
    first_poll: bool,
}

impl SnapshotPoller {
    /// The configured temperature threshold.
    pub closed spec fn threshold(&self) -> int {
        self.temp_threshold as int
    }

    /// The remembered array mode.
    pub closed spec fn last_mode(&self) -> Option<Seq<char>> {
        match self.last_array_state {
            Some(s) => Some(s@),
            None => None,
        }
    }

    /// The remembered container states.
    pub closed spec fn last_states(&self) -> Seq<(Seq<char>, Seq<char>)> {
        pairs_view(self.last_container_states@)
    }

    /// Whether the next poll is the baseline-establishing first one.
    pub closed spec fn is_first_poll(&self) -> bool {
        self.first_poll
    }

    /// A fresh poller with the given temperature threshold.
    pub fn new(temp_threshold: i64) -> (r: SnapshotPoller)
        ensures
            r.threshold() == temp_threshold as int,
            r.last_mode() is None,
            r.last_states() == Seq::<(Seq<char>, Seq<char>)>::empty(),
            r.is_first_poll(),
    {
        let r = SnapshotPoller {
            temp_threshold,
            last_array_state: None,
            last_container_states: Vec::new(),
            first_poll: true,
        };
        proof {
            assert(r.last_states() =~= Seq::<(Seq<char>, Seq<char>)>::empty());
        }
        r
    }

    /// Diff one snapshot against the remembered one. The first snapshot is
    /// only recorded. Afterwards each poll emits, in order: the mode-change
    /// alert if the mode differs from the remembered one, one alert per disk
    /// at or above the threshold, and one alert per container that left
    /// RUNNING since the previous snapshot. The snapshot replaces the
    /// remembered state either way.
    pub fn poll(&mut self, snap: &Snapshot) -> (events: Vec<NotificationEvent>)
        ensures
            final(self).threshold() == old(self).threshold(),
            final(self).last_mode() == Some(snap.array_state@),
            final(self).last_states() == snapshot_pairs(snap.containers@),
            !final(self).is_first_poll(),
            old(self).is_first_poll() ==> events@.len() == 0,
            !old(self).is_first_poll() ==> evs_view(events@) == mode_events(
                old(self).last_mode(),
                snap.array_state@,
            ) + temp_events(snap.disks@, old(self).threshold()) + container_events(
                snap.containers@,
                old(self).last_states(),
            ),
    {
        if self.first_poll {
            self.last_array_state = Some(snap.array_state.clone());
            let pairs = Self::build_pairs(&snap.containers);
            self.last_container_states = pairs;
            self.first_poll = false;
            return Vec::new();
        }
        let mut events: Vec<NotificationEvent> = Vec::new();
        let ghost expected_mode = mode_events(old(self).last_mode(), snap.array_state@);
        match &self.last_array_state {
            Some(l) => {
                if !(*l == snap.array_state) {
                    let mut body = l.clone();
                    body.append(" -> ");
                    body.append(snap.array_state.as_str());
                    let ev = NotificationEvent {
                        category: NotificationCategory::ServerAlert,
                        title: "Array State Changed".to_owned(),
                        body,
                        color: COLOR_ALERT_WARN,
                    };
                    events.push(ev);
                }
            },
            None => {},
        }
        proof {
            assert(evs_view(events@) =~= expected_mode);
        }
        // Disk temperature alerts, re-fired on every poll while over
        // threshold.
        let thr = self.temp_threshold;
        let mut i: usize = 0;
        proof {
            assert(snap.disks@.subrange(0, snap.disks@.len() as int) =~= snap.disks@);
        }
        while i < snap.disks.len()
            invariant
                i <= snap.disks.len(),
                thr == old(self).temp_threshold,
                evs_view(events@) + temp_events(
                    snap.disks@.subrange(i as int, snap.disks@.len() as int),
                    thr as int,
                ) == expected_mode + temp_events(snap.disks@, thr as int),
            decreases snap.disks.len() - i,
        {
            proof {
                let suf = snap.disks@.subrange(i as int, snap.disks@.len() as int);
                assert(suf.drop_first() =~= snap.disks@.subrange(i + 1, snap.disks@.len() as int));
                assert(suf.first() == snap.disks@[i as int]);
            }
            match snap.disks[i].temperature {
                Some(t) => {
                    if t >= thr {
                        let mut body = snap.disks[i].name.clone();
                        body.append(": ");
                        let dt = i64_dec_chars(t);
                        let dts = string_from_chars(&dt);
                        body.append(dts.as_str());
                        body.append("C (threshold: ");
                        let dthr = i64_dec_chars(thr);
                        let dthrs = string_from_chars(&dthr);
                        body.append(dthrs.as_str());
                        body.append("C)");
                        let ev = NotificationEvent {
                            category: NotificationCategory::ServerAlert,
                            title: "Disk Temperature Warning".to_owned(),
                            body,
                            color: COLOR_ALERT_CRIT,
                        };
                        proof {
                            assert(ev_view(ev) == temp_ev(
                                snap.disks@[i as int].name@,
                                t as int,
                                thr as int,
                            ));
                        }
                        events.push(ev);
                    }
                },
                None => {},
            }
            i += 1;
            proof {
                assert(evs_view(events@) + temp_events(
                    snap.disks@.subrange(i as int, snap.disks@.len() as int),
                    thr as int,
                ) =~= expected_mode + temp_events(snap.disks@, thr as int));
            }
        }
        // Container transitions away from RUNNING, edge-triggered against
        // the remembered snapshot.
        let ghost expected_pre = expected_mode + temp_events(snap.disks@, thr as int);
        let running: String = "RUNNING".to_owned();
        let mut j: usize = 0;
        proof {
            assert(snap.containers@.subrange(0, snap.containers@.len() as int)
                =~= snap.containers@);
        }
        while j < snap.containers.len()
            invariant
                j <= snap.containers.len(),
                running@ == "RUNNING"@,
                self.last_container_states@ == old(self).last_container_states@,
                evs_view(events@) + container_events(
                    snap.containers@.subrange(j as int, snap.containers@.len() as int),
                    old(self).last_states(),
                ) == expected_pre + container_events(snap.containers@, old(self).last_states()),
            decreases snap.containers.len() - j,
        {
            proof {
                let suf = snap.containers@.subrange(j as int, snap.containers@.len() as int);
                assert(suf.drop_first() =~= snap.containers@.subrange(
                    j + 1,
                    snap.containers@.len() as int,
                ));
                assert(suf.first() == snap.containers@[j as int]);
            }
            let name = snap.containers[j].display_name();
            let looked = Self::assoc_get(&self.last_container_states, &name);
            match looked {
                Some(ls) => {
                    if ls == running && !(snap.containers[j].state == running) {
                        let mut body = name.clone();
                        body.append(": ");
                        body.append(ls.as_str());
                        body.append(" -> ");
                        body.append(snap.containers[j].state.as_str());
                        let ev = NotificationEvent {
                            category: NotificationCategory::ServerAlert,
                            title: "Container Down".to_owned(),
                            body,
                            color: COLOR_ALERT_CRIT,
                        };
                        proof {
                            assert(ev_view(ev) == container_ev(
                                spec_display_name(snap.containers@[j as int]),
                                ls@,
                                snap.containers@[j as int].state@,
                            ));
                        }
                        events.push(ev);
                    }
                },
                None => {},
            }
            j += 1;
            proof {
                assert(evs_view(events@) + container_events(
                    snap.containers@.subrange(j as int, snap.containers@.len() as int),
                    old(self).last_states(),
                ) =~= expected_pre + container_events(
                    snap.containers@,
                    old(self).last_states(),
                ));
            }
        }
        self.last_array_state = Some(snap.array_state.clone());
        let pairs = Self::build_pairs(&snap.containers);
        self.last_container_states = pairs;
        proof {
            assert(evs_view(events@) =~= expected_pre + container_events(
                snap.containers@,
                old(self).last_states(),
            ));
        }
        events
    }

    fn build_pairs(containers: &Vec<ContainerObs>) -> (r: Vec<(String, String)>)
        ensures
            pairs_view(r@) == snapshot_pairs(containers@),
    {
        let mut r: Vec<(String, String)> = Vec::new();
        let mut i: usize = 0;
        while i < containers.len()
            invariant
                i <= containers.len(),
                pairs_view(r@) =~= snapshot_pairs(containers@.subrange(0, i as int)),
            decreases containers.len() - i,
        {
            let name = containers[i].display_name();
            let state = containers[i].state.clone();
            proof {
                assert(name@ == spec_display_name(containers@[i as int]));
                assert(state@ == containers@[i as int].state@);
            }
            let ghost prev = r@;
            r.push((name, state));
            i += 1;
            proof {
                let lhs = pairs_view(r@);
                let rhs = snapshot_pairs(containers@.subrange(0, i as int));
                assert(pairs_view(prev).len() == prev.len());
                assert(snapshot_pairs(containers@.subrange(0, i - 1)).len() == i - 1);
                assert(prev.len() == i - 1);
                assert(r@ == prev.push((name, state)));
                assert forall|k: int| 0 <= k < rhs.len() implies lhs[k] == rhs[k] by {
                    assert(containers@.subrange(0, i as int)[k] == containers@[k]);
                    if k < i - 1 {
                        assert(r@[k] == prev[k]);
                        assert(pairs_view(prev)[k] == snapshot_pairs(
                            containers@.subrange(0, i - 1),
                        )[k]);
                        assert(snapshot_pairs(containers@.subrange(0, i - 1))[k]
                            == (spec_display_name(containers@.subrange(0, i - 1)[k]),
                        containers@.subrange(0, i - 1)[k].state@));
                        assert(containers@.subrange(0, i - 1)[k] == containers@[k]);
                    }
                };
                assert(lhs =~= rhs);
            }
        }
        proof {
            assert(containers@.subrange(0, containers@.len() as int) =~= containers@);
            assert(pairs_view(r@) =~~= snapshot_pairs(containers@));
        }
        r
    }

    fn assoc_get(entries: &Vec<(String, String)>, name: &String) -> (r: Option<String>)
        ensures
            match r {
                Some(s) => assoc_last(pairs_view(entries@), name@) == Some(s@),
                None => assoc_last(pairs_view(entries@), name@) is None,
            },
    {
        let mut found: Option<String> = None;
        let mut i: usize = 0;
        proof {
            assert(pairs_view(entries@.subrange(0, 0)) =~= Seq::<(Seq<char>, Seq<char>)>::empty());
        }
        while i < entries.len()
            invariant
                i <= entries.len(),
                match found {
                    Some(s) => assoc_last(pairs_view(entries@.subrange(0, i as int)), name@)
                        == Some(s@),
                    None => assoc_last(pairs_view(entries@.subrange(0, i as int)), name@) is None,
                },
            decreases entries.len() - i,
        {
            proof {
                let pre = entries@.subrange(0, i + 1);
                assert(pre.drop_last() =~= entries@.subrange(0, i as int));
                assert(pairs_view(pre).drop_last() =~~= pairs_view(pre.drop_last()));
                assert(pairs_view(pre).last() == (entries@[i as int].0@, entries@[i as int].1@));
            }
            if entries[i].0 == *name {
                found = Some(entries[i].1.clone());
            }
            i += 1;
        }
        proof {
            assert(entries@.subrange(0, entries@.len() as int) =~= entries@);
        }
        found
    }
}

/// A reading at or above threshold alerts on every poll it is observed: the
/// alert for disk `i` is among the poll's temperature events whenever its
/// reading is at or above the threshold, however often the poll repeats.
pub proof fn lemma_threshold_repeat_fire(disks: Seq<DiskReading>, thr: int, i: int)
    requires
        0 <= i < disks.len(),
        disks[i].temperature matches Some(t) && t >= thr,
    ensures
        temp_events(disks, thr).contains(
            temp_ev(disks[i].name@, disks[i].temperature->Some_0 as int, thr),
        ),
    decreases disks.len(),
{
    if i == 0 {
        let ev = temp_ev(disks[0].name@, disks[0].temperature->Some_0 as int, thr);
        assert(temp_events(disks, thr)[0] == ev);
    } else {
        lemma_threshold_repeat_fire(disks.drop_first(), thr, i - 1);
        let ev = temp_ev(disks[i].name@, disks[i].temperature->Some_0 as int, thr);
        let tail = temp_events(disks.drop_first(), thr);
        let k = choose|k: int| 0 <= k < tail.len() && tail[k] == ev;
        let head_len = temp_events(disks, thr).len() - tail.len();
        assert(temp_events(disks, thr)[head_len + k] == ev);
    }
}

/// All display names in a snapshot are distinct.
pub open spec fn distinct_names(containers: Seq<ContainerObs>) -> bool {
    forall|a: int, b: int|
        0 <= a < b < containers.len() ==> spec_display_name(containers[a]) != spec_display_name(
            containers[b],
        )
}

proof fn lemma_assoc_of_snapshot(containers: Seq<ContainerObs>, i: int)
    requires
        0 <= i < containers.len(),
        distinct_names(containers),
    ensures
        assoc_last(snapshot_pairs(containers), spec_display_name(containers[i])) == Some(
            containers[i].state@,
        ),
    decreases containers.len(),
{
    let pairs = snapshot_pairs(containers);
    assert(pairs.drop_last() =~~= snapshot_pairs(containers.drop_last()));
    if i == containers.len() - 1 {
    } else {
        assert(pairs.last().0 != spec_display_name(containers[i]));
        lemma_assoc_of_snapshot(containers.drop_last(), i);
    }
}

proof fn lemma_container_events_unchanged_from(
    containers: Seq<ContainerObs>,
    full: Seq<ContainerObs>,
    k: int,
)
    requires
        0 <= k <= full.len(),
        containers =~= full.subrange(k, full.len() as int),
        distinct_names(full),
    ensures
        container_events(containers, snapshot_pairs(full)) == Seq::<
            (NotificationCategory, Seq<char>, Seq<char>, u32),
        >::empty(),
    decreases containers.len(),
{
    if containers.len() > 0 {
        let c = containers.first();
        assert(c == full[k]);
        lemma_assoc_of_snapshot(full, k);
        assert(assoc_last(snapshot_pairs(full), spec_display_name(c)) == Some(c.state@));
        assert(containers.drop_first() =~= full.subrange(k + 1, full.len() as int));
        lemma_container_events_unchanged_from(containers.drop_first(), full, k + 1);
    }
}

/// Snapshot edge-triggering: when a snapshot with pairwise-distinct
/// container names is polled again unchanged, no container-transition event
/// fires — only the transition away from RUNNING is reported, not every
/// poll while down.
pub proof fn lemma_container_edge_trigger(containers: Seq<ContainerObs>)
    requires
        distinct_names(containers),
    ensures
        container_events(containers, snapshot_pairs(containers)) == Seq::<
            (NotificationCategory, Seq<char>, Seq<char>, u32),
        >::empty(),
{
    assert(containers =~= containers.subrange(0, containers.len() as int));
    lemma_container_events_unchanged_from(containers, containers, 0);
}

} // verus!
