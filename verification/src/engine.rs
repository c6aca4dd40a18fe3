//! The notification engine: it owns one poller per configured source and a
//! destination map, and on every tick polls each source in registration
//! order, routing each resulting event to its category's channel. The
//! engine is driven from outside: the driver fetches each source's page or
//! snapshot (or reports the fetch failed) and hands the results in; it also
//! delivers the routed events and waits out the interval. A failed fetch
//! yields no events and leaves that poller's memory untouched.

use vstd::prelude::*;
use crate::events::{ev_view, DestinationMap, NotificationEvent, spec_route};
use crate::history::{spec_hist_events, spec_post_seen, HistoryPoller, HistoryRecord};
use crate::snapshot::{
    container_events, mode_events, snapshot_pairs, temp_events, Snapshot, SnapshotPoller,
};

verus! {

/// One registered change-detection poller.
pub enum Poller {
    History(HistoryPoller),
    Snapshot(SnapshotPoller),
}

/// What the driver fetched for one poller this tick.
pub enum PollInput {
    /// A page of history records, for a history poller.
    History(Vec<HistoryRecord>),
    /// A full state snapshot, for a snapshot poller.
    Snapshot(Snapshot),
    /// The fetch failed; the poller is skipped this tick.
    Failed,
}

/// The engine's lifecycle.
#[derive(Clone, Copy, PartialEq, Eq, Structural, Debug)]
pub enum EngineState {
    Running,
    Stopped,
}

/// What the engine needs at start: the interval, the snapshot threshold and
/// which sources are configured (each as its service address and key).
pub struct EngineConfig {
    pub poll_interval_secs: u64,
    pub temp_threshold: i64,
    pub sonarr: Option<(String, String)>,
    pub radarr: Option<(String, String)>,
    pub unraid: Option<(String, String)>,
}

/// How the engine finds somewhere to post, decided before it starts.
pub enum StartupPlan {
    /// Legacy mode: one configured channel takes all three categories, and
    /// no discovery is performed.
    Legacy(u64),
    /// Discover or create the named channels within this guild.
    Discover(u64),
    /// Neither a fallback channel nor a guild is configured; the engine
    /// cannot start.
    CannotStart,
}

/// Decide how destinations are resolved: a configured fallback channel wins
/// outright, otherwise discovery runs in the configured guild, and with
/// neither the engine refuses to start.
pub fn startup_plan(fallback_channel_id: Option<u64>, guild_id: Option<u64>) -> (r: StartupPlan)
    ensures
        fallback_channel_id matches Some(ch) ==> r == StartupPlan::Legacy(ch),
        fallback_channel_id is None ==> (guild_id matches Some(g) ==> r == StartupPlan::Discover(
            g,
        )),
        fallback_channel_id is None && guild_id is None ==> r == StartupPlan::CannotStart,
{
    match fallback_channel_id {
        Some(ch) => StartupPlan::Legacy(ch),
        None => match guild_id {
            Some(g) => StartupPlan::Discover(g),
            None => StartupPlan::CannotStart,
        },
    }
}

/// A freshly built history poller for a named service.
pub open spec fn is_fresh_history(p: Poller, name: Seq<char>) -> bool {
    &&& p matches Poller::History(h)
    &&& p->History_0.name_view() == name
    &&& p->History_0.is_first_poll()
    &&& p->History_0.seen_ids() == Set::<u64>::empty()
    &&& p->History_0.wf()
}

/// A freshly built snapshot poller with a threshold.
pub open spec fn is_fresh_snapshot(p: Poller, thr: int) -> bool {
    &&& p matches Poller::Snapshot(s)
    &&& p->Snapshot_0.threshold() == thr
    &&& p->Snapshot_0.is_first_poll()
    &&& p->Snapshot_0.last_mode() is None
    &&& p->Snapshot_0.last_states() == Seq::<(Seq<char>, Seq<char>)>::empty()
}

/// The events one poller yields for one input: nothing on its baseline
/// poll, nothing on a failed or mismatched fetch, otherwise the diff
/// against its remembered state.
pub open spec fn poller_events(p: Poller, inp: PollInput) -> Seq<
    (crate::events::NotificationCategory, Seq<char>, Seq<char>, u32),
> {
    match p {
        Poller::History(h) => match inp {
            PollInput::History(recs) => if h.is_first_poll() {
                Seq::empty()
            } else {
                spec_hist_events(recs@, h.seen_ids(), h.name_view())
            },
            _ => Seq::empty(),
        },
        Poller::Snapshot(s) => match inp {
            PollInput::Snapshot(sn) => if s.is_first_poll() {
                Seq::empty()
            } else {
                mode_events(s.last_mode(), sn.array_state@) + temp_events(
                    sn.disks@,
                    s.threshold(),
                ) + container_events(sn.containers@, s.last_states())
            },
            _ => Seq::empty(),
        },
    }
}

/// How one poller's memory moves for one input: a real input is absorbed,
/// a failed or mismatched fetch leaves it untouched.
pub open spec fn poller_after(p: Poller, inp: PollInput, q: Poller) -> bool {
    match p {
        Poller::History(h) => match inp {
            PollInput::History(recs) => {
                &&& q matches Poller::History(h2)
                &&& q->History_0.name_view() == h.name_view()
                &&& q->History_0.seen_ids() == spec_post_seen(recs@, h.seen_ids())
                &&& !q->History_0.is_first_poll()
                &&& q->History_0.wf()
            },
            _ => q == p,
        },
        Poller::Snapshot(s) => match inp {
            PollInput::Snapshot(sn) => {
                &&& q matches Poller::Snapshot(s2)
                &&& q->Snapshot_0.threshold() == s.threshold()
                &&& q->Snapshot_0.last_mode() == Some(sn.array_state@)
                &&& q->Snapshot_0.last_states() == snapshot_pairs(sn.containers@)
                &&& !q->Snapshot_0.is_first_poll()
            },
            _ => q == p,
        },
    }
}

/// Events paired with the channel their category routes to.
pub open spec fn routed(
    evs: Seq<(crate::events::NotificationCategory, Seq<char>, Seq<char>, u32)>,
    dm: DestinationMap,
) -> Seq<(u64, (crate::events::NotificationCategory, Seq<char>, Seq<char>, u32))> {
    evs.map_values(
        |e: (crate::events::NotificationCategory, Seq<char>, Seq<char>, u32)|
            (spec_route(dm, e.0), e),
    )
}

/// Everything one tick sends: each poller's events, in registration order,
/// each routed to its category's channel.
pub open spec fn spec_tick_out(pollers: Seq<Poller>, inputs: Seq<PollInput>, dm: DestinationMap)
    -> Seq<(u64, (crate::events::NotificationCategory, Seq<char>, Seq<char>, u32))>
    decreases pollers.len(),
{
    if pollers.len() == 0 || inputs.len() == 0 {
        Seq::empty()
    } else {
        routed(poller_events(pollers.first(), inputs.first()), dm) + spec_tick_out(
            pollers.drop_first(),
            inputs.drop_first(),
            dm,
        )
    }
}

/// The ghost shape of a routed, deliverable event.
pub open spec fn out_view(s: Seq<(u64, NotificationEvent)>) -> Seq<
    (u64, (crate::events::NotificationCategory, Seq<char>, Seq<char>, u32)),
> {
    s.map_values(|p: (u64, NotificationEvent)| (p.0, ev_view(p.1)))
}

/// The notification engine.
pub struct Engine {
    destinations: DestinationMap,
    pollers: Vec<Poller>,
    state: EngineState,
    poll_interval_secs: u64,
}

impl Engine {
    /// The resolved destination map.
    pub closed spec fn spec_destinations(&self) -> DestinationMap {
        self.destinations
    }

    /// The registered pollers, in order.
    pub closed spec fn spec_pollers(&self) -> Seq<Poller> {
        self.pollers@
    }

    /// The engine's lifecycle state.
    pub closed spec fn spec_state(&self) -> EngineState {
        self.state
    }

    /// The configured interval between ticks, in seconds.
    pub closed spec fn spec_interval(&self) -> u64 {
        self.poll_interval_secs
    }

    /// Every history poller's memory is finite.
    pub closed spec fn wf(&self) -> bool {
        forall|i: int|
            0 <= i < self.pollers@.len() ==> (#[trigger] self.pollers@[i] matches Poller::History(
                h,
            ) ==> h.wf())
    }

    /// Build the engine: one history poller per configured history source
    /// (in the order Sonarr, Radarr), then the snapshot poller if its
    /// source is configured; the engine starts out running.
    pub fn new(cfg: &EngineConfig, destinations: DestinationMap) -> (r: Engine)
        ensures
            r.wf(),
            r.spec_state() == EngineState::Running,
            r.spec_destinations() == destinations,
            r.spec_interval() == cfg.poll_interval_secs,
            ({
                let n0: int = if cfg.sonarr is Some {
                    1
                } else {
                    0
                };
                let n1: int = if cfg.radarr is Some {
                    1
                } else {
                    0
                };
                let n2: int = if cfg.unraid is Some {
                    1
                } else {
                    0
                };
                &&& r.spec_pollers().len() == n0 + n1 + n2
                &&& (cfg.sonarr is Some ==> is_fresh_history(r.spec_pollers()[0], "Sonarr"@))
                &&& (cfg.radarr is Some ==> is_fresh_history(r.spec_pollers()[n0], "Radarr"@))
                &&& (cfg.unraid is Some ==> is_fresh_snapshot(
                    r.spec_pollers()[n0 + n1],
                    cfg.temp_threshold as int,
                ))
            }),
    {
        let mut pollers: Vec<Poller> = Vec::new();
        match &cfg.sonarr {
            Some(_) => {
                pollers.push(Poller::History(HistoryPoller::new("Sonarr")));
            },
            None => {},
        }
        match &cfg.radarr {
            Some(_) => {
                pollers.push(Poller::History(HistoryPoller::new("Radarr")));
            },
            None => {},
        }
        match &cfg.unraid {
            Some(_) => {
                pollers.push(Poller::Snapshot(SnapshotPoller::new(cfg.temp_threshold)));
            },
            None => {},
        }
        Engine {
            destinations,
            pollers,
            state: EngineState::Running,
            poll_interval_secs: cfg.poll_interval_secs,
        }
    }

    /// Whether the engine is still running.
    pub fn is_running(&self) -> (r: bool)
        ensures
            r == (self.spec_state() == EngineState::Running),
    {
        match self.state {
            EngineState::Running => true,
            EngineState::Stopped => false,
        }
    }

    /// Observe the shutdown signal: the engine stops and ticks no more.
    pub fn stop(&mut self)
        ensures
            final(self).spec_state() == EngineState::Stopped,
            final(self).spec_pollers() == old(self).spec_pollers(),
            final(self).spec_destinations() == old(self).spec_destinations(),
            final(self).spec_interval() == old(self).spec_interval(),
            final(self).wf() == old(self).wf(),
    {
        self.state = EngineState::Stopped;
    }

    /// Run one tick: feed each poller its fetched input, in registration
    /// order, and return every resulting event paired with the channel its
    /// category routes to, in that same order.
    pub fn tick(&mut self, inputs: Vec<PollInput>) -> (out: Vec<(u64, NotificationEvent)>)
        requires
            old(self).wf(),
            old(self).spec_state() == EngineState::Running,
            inputs@.len() == old(self).spec_pollers().len(),
        ensures
            final(self).wf(),
            final(self).spec_state() == EngineState::Running,
            final(self).spec_destinations() == old(self).spec_destinations(),
            final(self).spec_interval() == old(self).spec_interval(),
            final(self).spec_pollers().len() == old(self).spec_pollers().len(),
            forall|i: int|
                0 <= i < old(self).spec_pollers().len() ==> poller_after(
                    old(self).spec_pollers()[i],
                    #[trigger] inputs@[i],
                    final(self).spec_pollers()[i],
                ),
            out_view(out@) == spec_tick_out(
                old(self).spec_pollers(),
                inputs@,
                old(self).spec_destinations(),
            ),
    {
        let dm = self.destinations;
        let mut remaining: Vec<Poller> = Vec::new();
        core::mem::swap(&mut remaining, &mut self.pollers);
        let mut rem_inputs = inputs;
        let ghost orig = remaining@;
        let ghost orig_inputs = rem_inputs@;
        let total: usize = remaining.len();
        let mut out: Vec<(u64, NotificationEvent)> = Vec::new();
        let mut i: usize = 0;
        proof {
            assert(orig == old(self).spec_pollers());
            assert(orig.subrange(0, orig.len() as int) =~= orig);
            assert(orig_inputs.subrange(0, orig_inputs.len() as int) =~= orig_inputs);
            assert(out_view(out@) =~= Seq::<
                (u64, (crate::events::NotificationCategory, Seq<char>, Seq<char>, u32)),
            >::empty());
        }
        while remaining.len() > 0
            invariant
                i <= total,
                total == orig.len(),
                orig == old(self).spec_pollers(),
                old(self).wf(),
                self.destinations == old(self).spec_destinations(),
                self.state == old(self).spec_state(),
                self.poll_interval_secs == old(self).spec_interval(),
                orig_inputs.len() == orig.len(),
                i + remaining.len() == total,
                i + rem_inputs.len() == total,
                remaining@ == orig.subrange(i as int, orig.len() as int),
                rem_inputs@ == orig_inputs.subrange(i as int, orig_inputs.len() as int),
                dm == old(self).destinations,
                self.pollers@.len() == i,
                forall|k: int|
                    0 <= k < i ==> poller_after(
                        orig[k],
                        #[trigger] orig_inputs[k],
                        self.pollers@[k],
                    ),
                forall|k: int|
                    0 <= k < i ==> (#[trigger] self.pollers@[k] matches Poller::History(h)
                        ==> h.wf()),
                out_view(out@) + spec_tick_out(
                    orig.subrange(i as int, orig.len() as int),
                    orig_inputs.subrange(i as int, orig_inputs.len() as int),
                    dm,
                ) == spec_tick_out(orig, orig_inputs, dm),
            decreases remaining.len(),
        {
            let mut p = remaining.remove(0);
            let inp = rem_inputs.remove(0);
            proof {
                assert(p == orig[i as int]);
                assert(inp == orig_inputs[i as int]);
                assert(remaining@ =~= orig.subrange(i + 1, orig.len() as int));
                assert(rem_inputs@ =~= orig_inputs.subrange(i + 1, orig_inputs.len() as int));
                assert(orig.subrange(i as int, orig.len() as int).drop_first() =~= orig.subrange(
                    i + 1,
                    orig.len() as int,
                ));
                assert(orig_inputs.subrange(i as int, orig_inputs.len() as int).drop_first()
                    =~= orig_inputs.subrange(i + 1, orig_inputs.len() as int));
            }
            let ghost evs_expected = poller_events(orig[i as int], orig_inputs[i as int]);
            proof {
                assert(old(self).spec_pollers()[i as int] == p);
                assert(old(self).spec_pollers()[i as int] matches Poller::History(hh) ==> hh.wf());
            }
            match &mut p {
                Poller::History(h) => match &inp {
                    PollInput::History(recs) => {
                        let evs = h.poll(recs);
                        route_into(&dm, evs, &mut out);
                    },
                    _ => {
                        proof {
                            assert(routed(evs_expected, dm) =~= Seq::<
                                (
                                    u64,
                                    (
                                        crate::events::NotificationCategory,
                                        Seq<char>,
                                        Seq<char>,
                                        u32,
                                    ),
                                ),
                            >::empty());
                        }
                    },
                },
                Poller::Snapshot(s) => match &inp {
                    PollInput::Snapshot(sn) => {
                        let evs = s.poll(sn);
                        route_into(&dm, evs, &mut out);
                    },
                    _ => {
                        proof {
                            assert(routed(evs_expected, dm) =~= Seq::<
                                (
                                    u64,
                                    (
                                        crate::events::NotificationCategory,
                                        Seq<char>,
                                        Seq<char>,
                                        u32,
                                    ),
                                ),
                            >::empty());
                        }
                    },
                },
            }
            self.pollers.push(p);
            i += 1;
            proof {
                assert(out_view(out@) + spec_tick_out(
                    orig.subrange(i as int, orig.len() as int),
                    orig_inputs.subrange(i as int, orig_inputs.len() as int),
                    dm,
                ) =~= spec_tick_out(orig, orig_inputs, dm));
            }
        }
        proof {
            assert(orig.subrange(total as int, orig.len() as int) =~= Seq::<Poller>::empty());
            assert(out_view(out@) =~= spec_tick_out(orig, orig_inputs, dm));
        }
        out
    }
}

/// Pair each event with its category's channel and append it to `out`.
fn route_into(
    dm: &DestinationMap,
    evs: Vec<NotificationEvent>,
    out: &mut Vec<(u64, NotificationEvent)>,
)
    ensures
        final(out)@.len() == old(out)@.len() + evs@.len(),
        out_view(final(out)@) == out_view(old(out)@) + routed(
            crate::events::evs_view(evs@),
            *dm,
        ),
{
    let mut evs = evs;
    let ghost orig = evs@;
    let total: usize = evs.len();
    let mut i: usize = 0;
    proof {
        assert(out_view(out@) + routed(crate::events::evs_view(orig.subrange(0, 0)), *dm)
            =~= out_view(out@));
    }
    while evs.len() > 0
        invariant
            i <= total,
            total == orig.len(),
            i + evs.len() == total,
            evs@ == orig.subrange(i as int, orig.len() as int),
            out@.len() == old(out)@.len() + i,
            out_view(out@) == out_view(old(out)@) + routed(
                crate::events::evs_view(orig.subrange(0, i as int)),
                *dm,
            ),
        decreases evs.len(),
    {
        let ev = evs.remove(0);
        proof {
            assert(ev == orig[i as int]);
            assert(evs@ =~= orig.subrange(i + 1, orig.len() as int));
        }
        let ch = crate::events::route_category(dm, ev.category);
        let ghost out_prev = out@;
        let ghost ev_ghost = ev;
        out.push((ch, ev));
        i += 1;
        proof {
            assert(out@ == out_prev.push((ch, ev_ghost)));
            assert(out_view(out@) =~= out_view(out_prev).push((ch, ev_view(ev_ghost))));
            let sub_new = crate::events::evs_view(orig.subrange(0, i as int));
            let sub_old = crate::events::evs_view(orig.subrange(0, i - 1));
            assert(orig.subrange(0, i as int)[i - 1] == orig[i - 1]);
            assert(sub_new =~= sub_old.push(ev_view(ev_ghost)));
            assert(routed(sub_new, *dm) =~= routed(sub_old, *dm).push(
                (spec_route(*dm, ev_view(ev_ghost).0), ev_view(ev_ghost)),
            ));
            assert(ch == spec_route(*dm, ev_view(ev_ghost).0));
            assert(out_view(out@) =~= out_view(old(out)@) + routed(
                crate::events::evs_view(orig.subrange(0, i as int)),
                *dm,
            ));
        }
    }
    proof {
        assert(orig.subrange(0, total as int) =~= orig);
    }
}

} // verus!
