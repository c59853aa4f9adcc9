use vstd::prelude::*;
use crate::records::{find_record, lemma_records_push, lemma_records_update, RecordView, SessionRecord};
use crate::state::State;
use crate::text::{lower_of, lowercase};

verus! {

/// What the media server reports as playing in one session.
pub struct NowPlayingItem {
    pub id: String,
    pub name: String,
    pub artists: Option<Vec<String>>,
    pub runtime_ticks: Option<i64>,
    pub album_id: Option<String>,
    pub parent_id: Option<String>,
    pub item_type: Option<String>,
    pub series_id: Option<String>,
    pub series_name: Option<String>,
    pub season_id: Option<String>,
    pub season_number: Option<i32>,
    pub episode_number: Option<i32>,
    pub production_year: Option<i32>,
    /// Image tags as (kind, tag) pairs; `None` when the server sent none.
    pub image_tags: Option<Vec<(String, String)>>,
}

/// The mathematical value of a `NowPlayingItem`.
pub struct ItemView {
    pub id: Seq<char>,
    pub name: Seq<char>,
    pub artists: Option<Seq<Seq<char>>>,
    pub runtime_ticks: Option<i64>,
    pub album_id: Option<Seq<char>>,
    pub parent_id: Option<Seq<char>>,
    pub item_type: Option<Seq<char>>,
    pub series_id: Option<Seq<char>>,
    pub series_name: Option<Seq<char>>,
    pub season_id: Option<Seq<char>>,
    pub season_number: Option<i32>,
    pub episode_number: Option<i32>,
    pub production_year: Option<i32>,
    pub image_tags: Option<Seq<(Seq<char>, Seq<char>)>>,
}

pub open spec fn opt_str_view(o: Option<String>) -> Option<Seq<char>> {
    match o {
        Some(s) => Some(s@),
        None => None,
    }
}

pub open spec fn strings_view(v: Seq<String>) -> Seq<Seq<char>> {
    v.map_values(|s: String| s@)
}

pub open spec fn pairs_view(v: Seq<(String, String)>) -> Seq<(Seq<char>, Seq<char>)> {
    v.map_values(|p: (String, String)| (p.0@, p.1@))
}

impl View for NowPlayingItem {
    type V = ItemView;

    open spec fn view(&self) -> ItemView {
        ItemView {
            id: self.id@,
            name: self.name@,
            artists: match self.artists {
                Some(v) => Some(strings_view(v@)),
                None => None,
            },
            runtime_ticks: self.runtime_ticks,
            album_id: opt_str_view(self.album_id),
            parent_id: opt_str_view(self.parent_id),
            item_type: opt_str_view(self.item_type),
            series_id: opt_str_view(self.series_id),
            series_name: opt_str_view(self.series_name),
            season_id: opt_str_view(self.season_id),
            season_number: self.season_number,
            episode_number: self.episode_number,
            production_year: self.production_year,
            image_tags: match self.image_tags {
                Some(v) => Some(pairs_view(v@)),
                None => None,
            },
        }
    }
}

fn copy_opt_str(o: &Option<String>) -> (r: Option<String>)
    ensures
        r == *o,
{
    match o {
        Some(s) => Some(s.clone()),
        None => None,
    }
}

fn copy_strings(v: &Vec<String>) -> (r: Vec<String>)
    ensures
        r@ == v@,
{
    let mut r: Vec<String> = Vec::new();
    let mut i: usize = 0;
    while i < v.len()
        invariant
            i <= v@.len(),
            r@ == v@.subrange(0, i as int),
        decreases v@.len() - i,
    {
        r.push(v[i].clone());
        i = i + 1;
    }
    assert(r@ =~= v@);
    r
}

fn copy_pairs(v: &Vec<(String, String)>) -> (r: Vec<(String, String)>)
    ensures
        r@ == v@,
{
    let mut r: Vec<(String, String)> = Vec::new();
    let mut i: usize = 0;
    while i < v.len()
        invariant
            i <= v@.len(),
            r@ == v@.subrange(0, i as int),
        decreases v@.len() - i,
    {
        let p = (v[i].0.clone(), v[i].1.clone());
        r.push(p);
        i = i + 1;
    }
    assert(r@ =~= v@);
    r
}

impl NowPlayingItem {
    /// A copy of this item with the same value.
    pub fn copy(&self) -> (r: NowPlayingItem)
        ensures
            r@ == self@,
    {
        let artists = match &self.artists {
            Some(v) => Some(copy_strings(v)),
            None => None,
        };
        let image_tags = match &self.image_tags {
            Some(v) => Some(copy_pairs(v)),
            None => None,
        };
        NowPlayingItem {
            id: self.id.clone(),
            name: self.name.clone(),
            artists,
            runtime_ticks: self.runtime_ticks,
            album_id: copy_opt_str(&self.album_id),
            parent_id: copy_opt_str(&self.parent_id),
            item_type: copy_opt_str(&self.item_type),
            series_id: copy_opt_str(&self.series_id),
            series_name: copy_opt_str(&self.series_name),
            season_id: copy_opt_str(&self.season_id),
            season_number: self.season_number,
            episode_number: self.episode_number,
            production_year: self.production_year,
            image_tags,
        }
    }
}

/// The playback state of a session.
pub struct PlayState {
    pub position_ticks: Option<i64>,
}

/// One session as reported by the media server in one poll.
pub struct Session {
    pub id: String,
    pub username: String,
    pub now_playing_item: Option<NowPlayingItem>,
    pub play_state: Option<PlayState>,
}

/// The chosen session: its id, its effective item, its position in ticks, and
/// whether the item was reported in this poll (rather than recalled).
pub type Selection = (String, Option<NowPlayingItem>, i64, bool);

pub type SelectionView = (Seq<char>, Option<ItemView>, i64, bool);

pub open spec fn selection_view(o: Option<Selection>) -> Option<SelectionView> {
    match o {
        Some(t) => Some((t.0@, match t.1 {
            Some(it) => Some(it@),
            None => None,
        }, t.2, t.3)),
        None => None,
    }
}

/// The session belongs to `user`, compared case-insensitively.
pub open spec fn is_candidate(s: Session, user: Seq<char>) -> bool {
    lower_of(s.username@) == lower_of(user)
}

/// The reported position, 0 when absent.
pub open spec fn position_of(s: Session) -> i64 {
    match s.play_state {
        Some(p) => match p.position_ticks {
            Some(t) => t,
            None => 0,
        },
        None => 0,
    }
}

/// The cache after one observation: a real item of the user is recorded with
/// its position; a gap in progress is kept.
pub open spec fn observe(
    m: Map<Seq<char>, RecordView>,
    s: Session,
    user: Seq<char>,
) -> Map<Seq<char>, RecordView> {
    if is_candidate(s, user) && s.now_playing_item is Some {
        m.insert(
            s.id@,
            RecordView {
                item: s.now_playing_item->0@,
                position: position_of(s),
                gap: if m.contains_key(s.id@) {
                    m[s.id@].gap
                } else {
                    None
                },
            },
        )
    } else {
        m
    }
}

/// The cache after observing every session in order.
pub open spec fn cache_after(
    m: Map<Seq<char>, RecordView>,
    ss: Seq<Session>,
    user: Seq<char>,
) -> Map<Seq<char>, RecordView>
    decreases ss.len(),
{
    if ss.len() == 0 {
        m
    } else {
        observe(cache_after(m, ss.drop_last(), user), ss.last(), user)
    }
}

/// The candidate that session `s` stands for, given the cache `m` seen just before it.
pub open spec fn candidate(m: Map<Seq<char>, RecordView>, s: Session) -> SelectionView {
    let item = match s.now_playing_item {
        Some(it) => Some(it@),
        None => if m.contains_key(s.id@) {
            Some(m[s.id@].item)
        } else {
            None
        },
    };
    (s.id@, item, position_of(s), s.now_playing_item is Some)
}

/// `c` displaces the current best `b`: a real item beats a recalled one, and
/// among equals a strictly greater position wins.
pub open spec fn beats(c: SelectionView, b: SelectionView) -> bool {
    (c.3 && !b.3) || (c.3 == b.3 && c.2 > b.2)
}

/// The session chosen among `ss` for `user`, starting from cache `m`.
pub open spec fn pick(
    m: Map<Seq<char>, RecordView>,
    ss: Seq<Session>,
    user: Seq<char>,
) -> Option<SelectionView>
    decreases ss.len(),
{
    if ss.len() == 0 {
        None
    } else {
        let prev = pick(m, ss.drop_last(), user);
        let s = ss.last();
        if !is_candidate(s, user) {
            prev
        } else {
            let c = candidate(cache_after(m, ss.drop_last(), user), s);
            match prev {
                None => Some(c),
                Some(b) => if beats(c, b) {
                    Some(c)
                } else {
                    prev
                },
            }
        }
    }
}

fn position_ticks(s: &Session) -> (r: i64)
    ensures
        r == position_of(*s),
{
    match &s.play_state {
        Some(p) => match p.position_ticks {
            Some(t) => t,
            None => 0,
        },
        None => 0,
    }
}

/// Choose the session to track for `user` among those reported, recording every
/// real item of the user in the cache on the way.
pub fn pick_session_for_user(state: &mut State, sessions: Vec<Session>, user: &str) -> (r: Option<
    Selection,
>)
    requires
        old(state).wf(),
    ensures
        final(state).wf(),
        final(state).sessions() == cache_after(old(state).sessions(), sessions@, user@),
        selection_view(r) == pick(old(state).sessions(), sessions@, user@),
        final(state).active() == old(state).active(),
        final(state).last_update == old(state).last_update,
{
    let ghost m0 = state.sessions();
    let luser = lowercase(user);
    let mut best: Option<Selection> = None;
    let mut i: usize = 0;
    while i < sessions.len()
        invariant
            i <= sessions@.len(),
            state.wf(),
            luser@ == lower_of(user@),
            state.sessions() == cache_after(m0, sessions@.subrange(0, i as int), user@),
            selection_view(best) == pick(m0, sessions@.subrange(0, i as int), user@),
            state.active() == old(state).active(),
            state.last_update == old(state).last_update,
        decreases sessions@.len() - i,
    {
        let ghost pre = sessions@.subrange(0, i as int);
        let ghost cur = sessions@.subrange(0, i + 1);
        assert(cur.drop_last() =~= pre);
        let s = &sessions[i];
        let lname = lowercase(s.username.as_str());
        if lname == luser {
            let pos = position_ticks(s);
            let has_real = s.now_playing_item.is_some();
            let item_opt = match &s.now_playing_item {
                Some(it) => Some(it.copy()),
                None => match find_record(&state.records, &s.id) {
                    Some(j) => Some(state.records[j].item.copy()),
                    None => None,
                },
            };
            if let Some(it) = &s.now_playing_item {
                let found = find_record(&state.records, &s.id);
                match found {
                    Some(j) => {
                        let gap = state.records[j].gap;
                        let rec = SessionRecord { id: s.id.clone(), item: it.copy(), position: pos, gap };
                        proof {
                            lemma_records_update(state.records@, j as int, rec);
                        }
                        state.records.set(j, rec);
                    },
                    None => {
                        let rec = SessionRecord { id: s.id.clone(), item: it.copy(), position: pos, gap: None };
                        proof {
                            lemma_records_push(state.records@, rec);
                        }
                        state.records.push(rec);
                    },
                }
                assert(state.sessions() =~= cache_after(m0, cur, user@));
            }
            let replace = match &best {
                None => true,
                Some(b) => (has_real && !b.3) || (has_real == b.3 && pos > b.2),
            };
            if replace {
                best = Some((s.id.clone(), item_opt, pos, has_real));
            }
        }
        i = i + 1;
    }
    assert(sessions@.subrange(0, sessions@.len() as int) =~= sessions@);
    best
}

/// Facts about the choice made from any list of sessions: it is `None` exactly
/// when no session belongs to the user; it is one of the user's sessions; it
/// holds a reported item whenever some session of the user does; and no session
/// of the user as real as it reports a greater position.
pub proof fn lemma_pick_facts(m: Map<Seq<char>, RecordView>, ss: Seq<Session>, user: Seq<char>)
    ensures
        pick(m, ss, user) is None <==> (forall|j: int| 0 <= j < ss.len() ==> !is_candidate(#[trigger] ss[j], user)),
        pick(m, ss, user) is Some ==> exists|j: int|
            0 <= j < ss.len() && is_candidate(#[trigger] ss[j], user) && pick(m, ss, user).unwrap().0 == ss[j].id@
                && pick(m, ss, user).unwrap().2 == position_of(ss[j])
                && pick(m, ss, user).unwrap().3 == (ss[j].now_playing_item is Some),
        (exists|j: int| 0 <= j < ss.len() && is_candidate(#[trigger] ss[j], user) && ss[j].now_playing_item is Some)
            ==> pick(m, ss, user).unwrap().3,
        forall|j: int|
            0 <= j < ss.len() && is_candidate(#[trigger] ss[j], user)
                && (ss[j].now_playing_item is Some) == pick(m, ss, user).unwrap().3
                ==> position_of(ss[j]) <= pick(m, ss, user).unwrap().2,
    decreases ss.len(),
{
    if ss.len() > 0 {
        let pre = ss.drop_last();
        lemma_pick_facts(m, pre, user);
        let n = ss.len() - 1;
        assert forall|j: int| 0 <= j < n implies ss[j] == pre[j] by {}
        if pick(m, pre, user) is Some {
            let j = choose|j: int|
                0 <= j < pre.len() && is_candidate(#[trigger] pre[j], user) && pick(m, pre, user).unwrap().0 == pre[j].id@
                    && pick(m, pre, user).unwrap().2 == position_of(pre[j])
                    && pick(m, pre, user).unwrap().3 == (pre[j].now_playing_item is Some);
            assert(is_candidate(ss[j], user));
        }
        if exists|j: int| 0 <= j < ss.len() && is_candidate(#[trigger] ss[j], user) && ss[j].now_playing_item is Some {
            let j = choose|j: int| 0 <= j < ss.len() && is_candidate(#[trigger] ss[j], user) && ss[j].now_playing_item is Some;
            if j < n {
                assert(is_candidate(pre[j], user));
            }
        }
        if forall|j: int| 0 <= j < ss.len() ==> !is_candidate(#[trigger] ss[j], user) {
            assert(!is_candidate(ss[n], user));
        }
    }
}

/// A session of the user that reports an item is chosen over any that only has
/// one recalled from the cache: when it is the only one of the user with a
/// reported item, it is the one chosen, whatever the others' positions.
pub proof fn lemma_real_item_preferred(
    m: Map<Seq<char>, RecordView>,
    ss: Seq<Session>,
    user: Seq<char>,
    a: int,
)
    requires
        0 <= a < ss.len(),
        is_candidate(ss[a], user),
        ss[a].now_playing_item is Some,
        forall|j: int|
            0 <= j < ss.len() && j != a && is_candidate(#[trigger] ss[j], user) ==> ss[j].now_playing_item is None,
    ensures
        pick(m, ss, user) is Some,
        pick(m, ss, user).unwrap().3,
        pick(m, ss, user).unwrap().0 == ss[a].id@,
        pick(m, ss, user).unwrap().2 == position_of(ss[a]),
{
    lemma_pick_facts(m, ss, user);
    assert(is_candidate(ss[a], user) && ss[a].now_playing_item is Some);
}

/// Among sessions of the user that all report an item, the one with the greatest
/// position is chosen.
pub proof fn lemma_greatest_position_wins(m: Map<Seq<char>, RecordView>, ss: Seq<Session>, user: Seq<char>, a: int)
    requires
        0 <= a < ss.len(),
        is_candidate(ss[a], user),
        ss[a].now_playing_item is Some,
    ensures
        pick(m, ss, user) is Some,
        pick(m, ss, user).unwrap().3,
        forall|j: int|
            0 <= j < ss.len() && is_candidate(#[trigger] ss[j], user) && ss[j].now_playing_item is Some
                ==> position_of(ss[j]) <= pick(m, ss, user).unwrap().2,
{
    lemma_pick_facts(m, ss, user);
    assert(is_candidate(ss[a], user) && ss[a].now_playing_item is Some);
}

/// A session of the user that reports an item is in the cache afterwards with
/// that item and position, unless a later report of the same id replaced it.
pub proof fn lemma_cache_records_real_item(
    m: Map<Seq<char>, RecordView>,
    ss: Seq<Session>,
    user: Seq<char>,
    i: int,
)
    requires
        0 <= i < ss.len(),
        is_candidate(ss[i], user),
        ss[i].now_playing_item is Some,
        forall|j: int|
            i < j < ss.len() && is_candidate(#[trigger] ss[j], user) && ss[j].now_playing_item is Some
                ==> ss[j].id@ != ss[i].id@,
    ensures
        cache_after(m, ss, user).contains_key(ss[i].id@),
        cache_after(m, ss, user)[ss[i].id@].item == ss[i].now_playing_item->0@,
        cache_after(m, ss, user)[ss[i].id@].position == position_of(ss[i]),
    decreases ss.len(),
{
    if i < ss.len() - 1 {
        let pre = ss.drop_last();
        assert forall|j: int| i < j < pre.len() && is_candidate(#[trigger] pre[j], user) && pre[j].now_playing_item is Some
            implies pre[j].id@ != pre[i].id@ by {
            assert(ss[j] == pre[j]);
        }
        lemma_cache_records_real_item(m, pre, user, i);
        let n = ss.len() - 1;
        assert(is_candidate(ss[n], user) && ss[n].now_playing_item is Some ==> ss[n].id@ != ss[i].id@);
    } else {
        assert(ss.drop_last().len() == i);
    }
}

/// A session id that no session of the user reports an item for keeps its cache
/// entry, or its absence, unchanged.
pub proof fn lemma_cache_keeps_unreported(
    m: Map<Seq<char>, RecordView>,
    ss: Seq<Session>,
    user: Seq<char>,
    k: Seq<char>,
)
    requires
        forall|j: int|
            0 <= j < ss.len() && is_candidate(#[trigger] ss[j], user) && ss[j].now_playing_item is Some
                ==> ss[j].id@ != k,
    ensures
        cache_after(m, ss, user).contains_key(k) == m.contains_key(k),
        m.contains_key(k) ==> cache_after(m, ss, user)[k] == m[k],
    decreases ss.len(),
{
    if ss.len() > 0 {
        let pre = ss.drop_last();
        assert forall|j: int| 0 <= j < pre.len() && is_candidate(#[trigger] pre[j], user) && pre[j].now_playing_item is Some
            implies pre[j].id@ != k by {
            assert(ss[j] == pre[j]);
        }
        lemma_cache_keeps_unreported(m, pre, user, k);
        let n = ss.len() - 1;
        assert(is_candidate(ss[n], user) && ss[n].now_playing_item is Some ==> ss[n].id@ != k);
    }
}

} // verus!
