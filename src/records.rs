use vstd::prelude::*;
use crate::jellyfin::{ItemView, NowPlayingItem};

verus! {

/// Bookkeeping for a session whose item has stopped being reported.
#[derive(Clone, Copy)]
pub struct GapState {
    /// Clock second at which the gap began.
    pub started_at: u64,
    /// The frozen baseline of the synthesized elapsed value; `Some` exactly once
    /// the rewind has been applied in this gap episode.
    pub base_elapsed: Option<i64>,
}

impl GapState {
    pub fn rewind_applied(&self) -> (r: bool)
        ensures
            r == self.base_elapsed.is_some(),
    {
        self.base_elapsed.is_some()
    }
}

/// Everything remembered about one session id: the last real item seen, its
/// position, and the gap in progress if any.
pub struct SessionRecord {
    pub id: String,
    pub item: NowPlayingItem,
    pub position: i64,
    pub gap: Option<GapState>,
}

pub struct RecordView {
    pub item: ItemView,
    pub position: i64,
    pub gap: Option<GapState>,
}

impl View for SessionRecord {
    type V = RecordView;

    open spec fn view(&self) -> RecordView {
        RecordView { item: self.item@, position: self.position, gap: self.gap }
    }
}

/// The records as a map from session id.
pub open spec fn records_map(s: Seq<SessionRecord>) -> Map<Seq<char>, RecordView>
    decreases s.len(),
{
    if s.len() == 0 {
        Map::empty()
    } else {
        records_map(s.drop_last()).insert(s.last().id@, s.last()@)
    }
}

pub open spec fn ids_unique(s: Seq<SessionRecord>) -> bool {
    forall|i: int, j: int| 0 <= i < j < s.len() ==> s[i].id@ != s[j].id@
}

pub proof fn lemma_records_domain(s: Seq<SessionRecord>, k: Seq<char>)
    ensures
        records_map(s).contains_key(k) <==> exists|i: int| 0 <= i < s.len() && s[i].id@ == k,
    decreases s.len(),
{
    if s.len() > 0 {
        lemma_records_domain(s.drop_last(), k);
        if records_map(s.drop_last()).contains_key(k) {
            let i = choose|i: int| 0 <= i < s.drop_last().len() && s.drop_last()[i].id@ == k;
            assert(s[i].id@ == k);
        }
        if exists|i: int| 0 <= i < s.len() && s[i].id@ == k {
            let i = choose|i: int| 0 <= i < s.len() && s[i].id@ == k;
            if i < s.len() - 1 {
                assert(s.drop_last()[i].id@ == k);
            }
        }
    }
}

pub proof fn lemma_records_at(s: Seq<SessionRecord>, i: int)
    requires
        ids_unique(s),
        0 <= i < s.len(),
    ensures
        records_map(s).contains_key(s[i].id@),
        records_map(s)[s[i].id@] == s[i]@,
    decreases s.len(),
{
    if i < s.len() - 1 {
        lemma_records_at(s.drop_last(), i);
    }
}

pub proof fn lemma_records_update(s: Seq<SessionRecord>, i: int, r: SessionRecord)
    requires
        ids_unique(s),
        0 <= i < s.len(),
        r.id@ == s[i].id@,
    ensures
        ids_unique(s.update(i, r)),
        records_map(s.update(i, r)) == records_map(s).insert(r.id@, r@),
    decreases s.len(),
{
    let t = s.update(i, r);
    if i == s.len() - 1 {
        assert(t.drop_last() =~= s.drop_last());
        assert(records_map(t) =~= records_map(s).insert(r.id@, r@));
    } else {
        assert(t.drop_last() =~= s.drop_last().update(i, r));
        lemma_records_update(s.drop_last(), i, r);
        assert(s.last().id@ != r.id@);
        assert(records_map(t) =~= records_map(s).insert(r.id@, r@));
    }
}

pub proof fn lemma_records_push(s: Seq<SessionRecord>, r: SessionRecord)
    requires
        ids_unique(s),
        !records_map(s).contains_key(r.id@),
    ensures
        ids_unique(s.push(r)),
        records_map(s.push(r)) == records_map(s).insert(r.id@, r@),
{
    lemma_records_domain(s, r.id@);
    assert(s.push(r).drop_last() =~= s);
}

pub proof fn lemma_records_remove(s: Seq<SessionRecord>, i: int)
    requires
        ids_unique(s),
        0 <= i < s.len(),
    ensures
        ids_unique(s.remove(i)),
        records_map(s.remove(i)) == records_map(s).remove(s[i].id@),
    decreases s.len(),
{
    let t = s.remove(i);
    let k = s[i].id@;
    if i == s.len() - 1 {
        assert(t =~= s.drop_last());
        lemma_records_domain(s.drop_last(), k);
        assert(!records_map(s.drop_last()).contains_key(k));
        assert(records_map(t) =~= records_map(s).remove(k));
    } else {
        assert(t.drop_last() =~= s.drop_last().remove(i));
        assert(t.last() == s.last());
        lemma_records_remove(s.drop_last(), i);
        assert(s.last().id@ != k);
        assert(records_map(t) =~= records_map(s).remove(k));
    }
}

/// The index of the record of session `id`, if there is one.
pub fn find_record(records: &Vec<SessionRecord>, id: &String) -> (r: Option<usize>)
    requires
        ids_unique(records@),
    ensures
        match r {
            Some(i) => i < records@.len() && records@[i as int].id@ == id@
                && records_map(records@).contains_key(id@)
                && records_map(records@)[id@] == records@[i as int]@,
            None => !records_map(records@).contains_key(id@),
        },
{
    let mut i: usize = 0;
    while i < records.len()
        invariant
            i <= records@.len(),
            ids_unique(records@),
            forall|j: int| 0 <= j < i ==> records@[j].id@ != id@,
        decreases records@.len() - i,
    {
        if records[i].id == *id {
            proof {
                lemma_records_at(records@, i as int);
            }
            return Some(i);
        }
        i = i + 1;
    }
    proof {
        lemma_records_domain(records@, id@);
    }
    None
}

} // verus!
