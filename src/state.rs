use vstd::prelude::*;
use crate::gap::{gap_spec, gap_step, gap_wf, secs_of, ticks_to_secs, Config, GapDecision};
use crate::jellyfin::{
    lemma_cache_keeps_unreported, lemma_pick_facts,
    opt_str_view, pick, pick_session_for_user, cache_after, selection_view, ItemView,
    NowPlayingItem, Selection, SelectionView, Session,
};
use crate::records::{
    find_record, ids_unique, lemma_records_at, lemma_records_remove, lemma_records_update,
    records_map, GapState, RecordView, SessionRecord,
};

verus! {

/// All state the presence loop carries from one cycle to the next.
pub struct State {
    /// One record per session id: the cache of last real items and the gaps.
    pub records: Vec<SessionRecord>,
    /// The session whose activity is currently displayed.
    pub active_session_id: Option<String>,
    /// Clock second of the last presence update (the rate-limit clock).
    pub last_update: u64,
}

impl State {
    pub open spec fn wf(&self) -> bool {
        &&& ids_unique(self.records@)
        &&& forall|i: int| 0 <= i < self.records@.len() ==> gap_wf(#[trigger] self.records@[i].gap)
    }

    /// The per-session memory, keyed by session id.
    pub open spec fn sessions(&self) -> Map<Seq<char>, RecordView> {
        records_map(self.records@)
    }

    pub open spec fn active(&self) -> Option<Seq<char>> {
        opt_str_view(self.active_session_id)
    }

    pub fn new() -> (r: State)
        ensures
            r.wf(),
            r.sessions() == Map::<Seq<char>, RecordView>::empty(),
            r.active() is None,
            r.last_update == 0,
    {
        State { records: Vec::new(), active_session_id: None, last_update: 0 }
    }
}

/// The mathematical value of the loop state.
pub struct StateView {
    pub sessions: Map<Seq<char>, RecordView>,
    pub active: Option<Seq<char>>,
    pub last_update: u64,
}

impl View for State {
    type V = StateView;

    open spec fn view(&self) -> StateView {
        StateView { sessions: self.sessions(), active: self.active(), last_update: self.last_update }
    }
}

/// What the presence sink is asked to do after a cycle.
pub enum Action {
    /// Leave the displayed presence as it is.
    Keep,
    /// Clear the displayed activity.
    Clear,
    /// Show `item` with `elapsed` of `runtime` seconds played.
    Emit { item: NowPlayingItem, elapsed: i64, runtime: i64 },
}

pub enum ActionView {
    Keep,
    Clear,
    Emit { item: ItemView, elapsed: int, runtime: int },
}

impl View for Action {
    type V = ActionView;

    open spec fn view(&self) -> ActionView {
        match self {
            Action::Keep => ActionView::Keep,
            Action::Clear => ActionView::Clear,
            Action::Emit { item, elapsed, runtime } => ActionView::Emit {
                item: item@,
                elapsed: *elapsed as int,
                runtime: *runtime as int,
            },
        }
    }
}

/// The rate-limit window since `last` has passed at `now`.
pub open spec fn is_due(last: u64, interval: u64, now: u64) -> bool {
    now >= last + interval
}

/// Runtime of an item in ticks, 0 when unknown.
pub open spec fn runtime_ticks_of(it: ItemView) -> i64 {
    match it.runtime_ticks {
        Some(t) => t,
        None => 0,
    }
}

/// The sessions with the gap of `sid` replaced.
pub open spec fn with_gap(
    m: Map<Seq<char>, RecordView>,
    sid: Seq<char>,
    g: Option<GapState>,
) -> Map<Seq<char>, RecordView> {
    m.insert(sid, RecordView { item: m[sid].item, position: m[sid].position, gap: g })
}

/// One cycle of the presence loop after selection: the next state and the action.
pub open spec fn decide_spec(
    s: StateView,
    sel: Option<SelectionView>,
    cfg: Config,
    now: u64,
) -> (StateView, ActionView) {
    let due = is_due(s.last_update, cfg.update_interval_secs, now);
    let cleared = StateView { sessions: s.sessions, active: None, last_update: now };
    match sel {
        None => if due {
            (cleared, ActionView::Clear)
        } else {
            (s, ActionView::Keep)
        },
        Some(c) => {
            let sid = c.0;
            if c.3 {
                let m = if s.sessions.contains_key(sid) {
                    with_gap(s.sessions, sid, None)
                } else {
                    s.sessions
                };
                let elapsed = secs_of(c.2);
                if !due {
                    (StateView { sessions: m, active: s.active, last_update: s.last_update }, ActionView::Keep)
                } else if elapsed == 0 {
                    (StateView { sessions: m, active: None, last_update: now }, ActionView::Clear)
                } else {
                    match c.1 {
                        Some(it) => (
                            StateView { sessions: m, active: Some(sid), last_update: now },
                            ActionView::Emit {
                                item: it,
                                elapsed,
                                runtime: secs_of(runtime_ticks_of(it)),
                            },
                        ),
                        None => (StateView { sessions: m, active: s.active, last_update: now }, ActionView::Keep),
                    }
                }
            } else if s.sessions.contains_key(sid) {
                let rec = s.sessions[sid];
                let rt = secs_of(runtime_ticks_of(rec.item));
                let step = gap_spec(rec.gap, secs_of(rec.position) as i64, rt as i64, cfg, now);
                match step.1 {
                    GapDecision::Expire | GapDecision::Complete => (
                        StateView { sessions: s.sessions.remove(sid), active: None, last_update: now },
                        ActionView::Clear,
                    ),
                    GapDecision::Hold(_) => (
                        StateView {
                            sessions: with_gap(s.sessions, sid, Some(step.0)),
                            active: s.active,
                            last_update: s.last_update,
                        },
                        ActionView::Keep,
                    ),
                    GapDecision::Synthesize(e) => if due {
                        (
                            StateView {
                                sessions: with_gap(s.sessions, sid, Some(step.0)),
                                active: Some(sid),
                                last_update: now,
                            },
                            ActionView::Emit { item: rec.item, elapsed: e as int, runtime: rt },
                        )
                    } else {
                        (
                            StateView {
                                sessions: with_gap(s.sessions, sid, Some(step.0)),
                                active: s.active,
                                last_update: s.last_update,
                            },
                            ActionView::Keep,
                        )
                    },
                }
            } else if due {
                (cleared, ActionView::Clear)
            } else {
                (s, ActionView::Keep)
            }
        },
    }
}

fn runtime_ticks(it: &NowPlayingItem) -> (r: i64)
    ensures
        r == runtime_ticks_of(it@),
{
    match it.runtime_ticks {
        Some(t) => t,
        None => 0,
    }
}

impl State {
    /// Replace the gap of the record at `j`.
    fn set_gap(&mut self, j: usize, gap: Option<GapState>)
        requires
            old(self).wf(),
            j < old(self).records@.len(),
            gap_wf(gap),
        ensures
            final(self).wf(),
            final(self)@ == (StateView {
                sessions: with_gap(old(self).sessions(), old(self).records@[j as int].id@, gap),
                ..old(self)@
            }),
            final(self).records@.len() == old(self).records@.len(),
            final(self).records@[j as int].item@ == old(self).records@[j as int].item@,
    {
        let ghost s0 = self.records@;
        let mut rec = self.records.remove(j);
        rec.gap = gap;
        self.records.insert(j, rec);
        proof {
            assert(self.records@ =~= s0.update(j as int, rec));
            lemma_records_at(s0, j as int);
            lemma_records_update(s0, j as int, rec);
            assert forall|i: int| 0 <= i < self.records@.len() implies gap_wf(
                #[trigger] self.records@[i].gap,
            ) by {
                if i != j {
                    assert(self.records@[i] == s0[i]);
                }
            }
            assert(self.sessions() =~= with_gap(records_map(s0), rec.id@, gap));
        }
    }

    /// Forget the record at `j`.
    fn forget(&mut self, j: usize)
        requires
            old(self).wf(),
            j < old(self).records@.len(),
        ensures
            final(self).wf(),
            final(self).sessions() == old(self).sessions().remove(old(self).records@[j as int].id@),
            final(self).active_session_id == old(self).active_session_id,
            final(self).last_update == old(self).last_update,
    {
        let ghost s0 = self.records@;
        self.records.remove(j);
        proof {
            lemma_records_remove(s0, j as int);
            assert forall|i: int| 0 <= i < self.records@.len() implies gap_wf(
                #[trigger] self.records@[i].gap,
            ) by {
                if i < j {
                    assert(self.records@[i] == s0[i]);
                } else {
                    assert(self.records@[i] == s0[i + 1]);
                }
            }
        }
    }

    fn clear_now(&mut self, now: u64) -> (r: Action)
        ensures
            final(self).records == old(self).records,
            final(self).active() is None,
            final(self).last_update == now,
            r@ == ActionView::Clear,
    {
        self.active_session_id = None;
        self.last_update = now;
        Action::Clear
    }
}

/// Decide one cycle of the presence loop from the selected session: update the
/// gap and rate-limit state and say what the presence sink should do.
pub fn decide(state: &mut State, sel: Option<Selection>, cfg: &Config, now: u64) -> (r: Action)
    requires
        old(state).wf(),
        cfg.wf(),
    ensures
        final(state).wf(),
        (final(state)@, r@) == decide_spec(old(state)@, selection_view(sel), *cfg, now),
{
    let due = now >= state.last_update && now - state.last_update >= cfg.update_interval_secs;
    match sel {
        None => if due {
            state.clear_now(now)
        } else {
            Action::Keep
        },
        Some((sid, item_opt, pos, has_real)) => {
            if has_real {
                match find_record(&state.records, &sid) {
                    Some(j) => state.set_gap(j, None),
                    None => {},
                }
                let elapsed = ticks_to_secs(pos);
                if !due {
                    Action::Keep
                } else if elapsed == 0 {
                    state.clear_now(now)
                } else {
                    state.last_update = now;
                    match item_opt {
                        Some(item) => {
                            let runtime = ticks_to_secs(runtime_ticks(&item));
                            state.active_session_id = Some(sid);
                            Action::Emit { item, elapsed, runtime }
                        },
                        None => Action::Keep,
                    }
                }
            } else {
                match find_record(&state.records, &sid) {
                    Some(j) => {
                        let last_elapsed = ticks_to_secs(state.records[j].position);
                        let rt = ticks_to_secs(runtime_ticks(&state.records[j].item));
                        let gap = state.records[j].gap;
                        assert(gap_wf(state.records@[j as int].gap));
                        let (g, d) = gap_step(gap, last_elapsed, rt, cfg, now);
                        match d {
                            GapDecision::Expire | GapDecision::Complete => {
                                state.forget(j);
                                state.clear_now(now)
                            },
                            GapDecision::Hold(_) => {
                                state.set_gap(j, Some(g));
                                Action::Keep
                            },
                            GapDecision::Synthesize(e) => {
                                state.set_gap(j, Some(g));
                                if due {
                                    let item = state.records[j].item.copy();
                                    state.active_session_id = Some(sid);
                                    state.last_update = now;
                                    Action::Emit { item, elapsed: e, runtime: rt }
                                } else {
                                    Action::Keep
                                }
                            },
                        }
                    },
                    None => if due {
                        state.clear_now(now)
                    } else {
                        Action::Keep
                    },
                }
            }
        },
    }
}

/// One whole cycle: select the user's session among those polled, then decide.
pub fn run_cycle(state: &mut State, sessions: Vec<Session>, user: &str, cfg: &Config, now: u64) -> (r:
    Action)
    requires
        old(state).wf(),
        cfg.wf(),
    ensures
        final(state).wf(),
        (final(state)@, r@) == decide_spec(
            StateView {
                sessions: cache_after(old(state).sessions(), sessions@, user@),
                ..old(state)@
            },
            pick(old(state).sessions(), sessions@, user@),
            *cfg,
            now,
        ),
{
    let sel = pick_session_for_user(state, sessions, user);
    decide(state, sel, cfg, now)
}

/// An update emitted at `now1` is the only one until the update interval has
/// passed: no cycle in that window emits again, though one may still clear.
pub proof fn lemma_rate_limited(
    s: StateView,
    sel1: Option<SelectionView>,
    sel2: Option<SelectionView>,
    cfg: Config,
    now1: u64,
    now2: u64,
)
    requires
        decide_spec(s, sel1, cfg, now1).1 is Emit,
        now1 <= now2 < now1 + cfg.update_interval_secs,
    ensures
        decide_spec(s, sel1, cfg, now1).0.last_update == now1,
        !(decide_spec(decide_spec(s, sel1, cfg, now1).0, sel2, cfg, now2).1 is Emit),
{
}

/// A recalled session whose gap has outlasted the maximum is cleared at once,
/// whether or not the rate-limit window has passed, and everything remembered
/// about it is dropped.
pub proof fn lemma_expired_gap_clears(
    s: StateView,
    sel: SelectionView,
    cfg: Config,
    now: u64,
)
    requires
        !sel.3,
        s.sessions.contains_key(sel.0),
        s.sessions[sel.0].gap is Some,
        s.sessions[sel.0].gap->0.started_at <= now,
        now - s.sessions[sel.0].gap->0.started_at > cfg.max_gap_secs,
    ensures
        decide_spec(s, Some(sel), cfg, now) == (
        StateView { sessions: s.sessions.remove(sel.0), active: None, last_update: now },
        ActionView::Clear,
        ),
{
}

/// A recalled session whose item had already played to its end is cleared on
/// the first cycle of its gap, whatever the maximum gap and the rate limit.
pub proof fn lemma_finished_item_clears(s: StateView, sel: SelectionView, cfg: Config, now: u64)
    requires
        !sel.3,
        s.sessions.contains_key(sel.0),
        s.sessions[sel.0].gap is None,
        secs_of(runtime_ticks_of(s.sessions[sel.0].item)) > 0,
        secs_of(s.sessions[sel.0].position) >= secs_of(runtime_ticks_of(s.sessions[sel.0].item)),
    ensures
        decide_spec(s, Some(sel), cfg, now) == (
        StateView { sessions: s.sessions.remove(sel.0), active: None, last_update: now },
        ActionView::Clear,
        ),
{
}

/// A cycle in which no session has id `k` leaves what is remembered about `k`
/// as it was.
pub proof fn lemma_cycle_keeps_unpolled(
    s: StateView,
    ss: Seq<Session>,
    user: Seq<char>,
    cfg: Config,
    now: u64,
    k: Seq<char>,
)
    requires
        forall|j: int| 0 <= j < ss.len() ==> (#[trigger] ss[j]).id@ != k,
    ensures
        ({
            let after = decide_spec(
                StateView { sessions: cache_after(s.sessions, ss, user), ..s },
                pick(s.sessions, ss, user),
                cfg,
                now,
            ).0;
            &&& after.sessions.contains_key(k) == s.sessions.contains_key(k)
            &&& s.sessions.contains_key(k) ==> after.sessions[k] == s.sessions[k]
        }),
{
    lemma_cache_keeps_unreported(s.sessions, ss, user, k);
    lemma_pick_facts(s.sessions, ss, user);
}

} // verus!
