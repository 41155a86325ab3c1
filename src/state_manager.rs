//! The fingerprint store: the last known fingerprint of every observed item,
//! an append-only deletion journal, and the retention purge.
//!
//! The store lives in memory; the caller persists what
//! [`StateManager::fingerprint_list`], [`StateManager::deletion_list`] and
//! [`StateManager::next_deletion_id`] hand out, and brings it back with
//! [`StateManager::restore`].

use vstd::prelude::*;
use crate::config::StateConfig;
use crate::fingerprint::{
    MessageFingerprint, FingerprintView, DeletionRecord, RecordView, blake3_hex_of, attachment_key,
};

verus! {

/// Seconds in a day.
pub const SECONDS_PER_DAY: i64 = 86400;

/// Why the store refused an operation.
#[derive(Debug, Clone, Copy, PartialEq, Eq, Structural)]
pub enum StateError {
    /// Two fingerprints handed to [`StateManager::restore`] share this item id.
    DuplicateFingerprint(i32),
    /// The journal handed to [`StateManager::restore`] does not have
    /// positive, strictly increasing ids below the next id.
    JournalOutOfOrder,
    /// Every journal id has been used.
    JournalExhausted,
}

/// Mathematical model of the store.
pub struct StoreView {
    /// Last stored fingerprint of each item id.
    pub fingerprints: Map<i32, FingerprintView>,
    /// Journal entries, in the order they were appended.
    pub journal: Seq<RecordView>,
    /// The id the next appended entry gets.
    pub next_id: i64,
}

/// Whether some fingerprint of `s` has item id `id`.
pub open spec fn holds_id(s: Seq<MessageFingerprint>, id: i32) -> bool {
    exists|i: int| 0 <= i < s.len() && s[i].message_id == id
}

/// Whether no two fingerprints of `s` share an item id.
pub open spec fn unique_ids(s: Seq<MessageFingerprint>) -> bool {
    forall|i: int, j: int|
        0 <= i < s.len() && 0 <= j < s.len() && i != j ==> s[i].message_id != s[j].message_id
}

/// The fingerprints of `s`, keyed by item id.
pub open spec fn fingerprint_index(s: Seq<MessageFingerprint>) -> Map<i32, FingerprintView> {
    Map::new(
        |id: i32| holds_id(s, id),
        |id: i32| s[choose|i: int| 0 <= i < s.len() && s[i].message_id == id]@,
    )
}

/// Models of a list of records.
pub open spec fn record_views(s: Seq<DeletionRecord>) -> Seq<RecordView> {
    s.map_values(|d: DeletionRecord| d@)
}

/// Whether journal ids are positive, below `next_id`, and strictly
/// increasing in journal order.
pub open spec fn journal_ordered(j: Seq<RecordView>, next_id: i64) -> bool {
    &&& 1 <= next_id
    &&& forall|i: int| 0 <= i < j.len() ==> 1 <= #[trigger] j[i].id < next_id
    &&& forall|i: int, k: int| 0 <= i < k < j.len() ==> j[i].id < j[k].id
}

/// The entries of `m` whose timestamp is at or after `cutoff`.
pub open spec fn fingerprints_since(m: Map<i32, FingerprintView>, cutoff: i64) -> Map<
    i32,
    FingerprintView,
> {
    Map::new(|id: i32| m.dom().contains(id) && m[id].timestamp >= cutoff, |id: i32| m[id])
}

/// Whether a journal entry survives a purge with this cutoff.
pub open spec fn kept_after(r: RecordView, cutoff: i64) -> bool {
    r.deletion_timestamp >= cutoff
}

/// The journal entries at or after `cutoff`, in journal order.
pub open spec fn journal_since(j: Seq<RecordView>, cutoff: i64) -> Seq<RecordView> {
    j.filter(|r: RecordView| kept_after(r, cutoff))
}

/// The purge cutoff for a retention horizon of `days` days at time `now`:
/// `now` minus that many seconds, or the smallest timestamp where that is
/// not representable.
pub open spec fn retention_cutoff(now: i64, days: u32) -> i64 {
    let c = now - days * SECONDS_PER_DAY;
    if c < i64::MIN {
        i64::MIN
    } else {
        c as i64
    }
}

/// Models of a list of fingerprints.
pub open spec fn fingerprint_views(s: Seq<MessageFingerprint>) -> Seq<FingerprintView> {
    s.map_values(|f: MessageFingerprint| f@)
}

/// `m` after storing each fingerprint of `puts`, in order.
pub open spec fn put_all(m: Map<i32, FingerprintView>, puts: Seq<FingerprintView>) -> Map<
    i32,
    FingerprintView,
>
    decreases puts.len(),
{
    if puts.len() == 0 {
        m
    } else {
        put_all(m, puts.drop_last()).insert(puts.last().message_id, puts.last())
    }
}

/// `r` with journal id `id`.
pub open spec fn with_id(r: RecordView, id: i64) -> RecordView {
    RecordView { id, ..r }
}

/// Whether a restored store would accept these fingerprints, journal and
/// next journal id.
pub open spec fn restore_accepts(
    fps: Seq<MessageFingerprint>,
    journal: Seq<DeletionRecord>,
    next_id: i64,
) -> bool {
    unique_ids(fps) && journal_ordered(record_views(journal), next_id)
}

/// Whether a journal entry falls in the closed time range `[start, end]`.
pub open spec fn in_range(r: RecordView, start: i64, end: i64) -> bool {
    start <= r.deletion_timestamp <= end
}

/// The journal entries in `[start, end]`, in journal order.
pub open spec fn journal_in_range(j: Seq<RecordView>, start: i64, end: i64) -> Seq<RecordView> {
    j.filter(|r: RecordView| in_range(r, start, end))
}

/// Order of query results: later deletions first, and of two at the same
/// time the later journal entry first.
pub open spec fn newer_first(a: RecordView, b: RecordView) -> bool {
    a.deletion_timestamp > b.deletion_timestamp || (a.deletion_timestamp == b.deletion_timestamp
        && a.id > b.id)
}

/// Whether every entry of `s` comes before the entries that follow it.
pub open spec fn sorted_newest_first(s: Seq<RecordView>) -> bool {
    forall|i: int, j: int| 0 <= i < j < s.len() ==> newer_first(#[trigger] s[i], #[trigger] s[j])
}

/// Storing fingerprints one after the other leaves, for an item id, the last
/// fingerprint stored for it: whatever came before, the most recent put of
/// that id is what the store returns.
pub proof fn law_last_write_wins(m: Map<i32, FingerprintView>, puts: Seq<FingerprintView>, id: i32)
    requires
        puts.len() > 0,
        forall|i: int| 0 <= i < puts.len() ==> #[trigger] puts[i].message_id == id,
    ensures
        put_all(m, puts).dom().contains(id),
        put_all(m, puts)[id] == puts.last(),
{
}

/// Puts of other item ids leave an item's fingerprint as it was.
pub proof fn law_other_ids_untouched(m: Map<i32, FingerprintView>, puts: Seq<FingerprintView>, id: i32)
    requires
        forall|i: int| 0 <= i < puts.len() ==> #[trigger] puts[i].message_id != id,
    ensures
        put_all(m, puts).dom().contains(id) == m.dom().contains(id),
        m.dom().contains(id) ==> put_all(m, puts)[id] == m[id],
    decreases puts.len(),
{
    if puts.len() > 0 {
        law_other_ids_untouched(m, puts.drop_last(), id);
    }
}

/// Appending to an ordered journal gives the new entry an id above every id
/// already used, and keeps the journal ordered; since the next id only ever
/// grows and is persisted with the journal, no id is handed out twice.
pub proof fn law_journal_ids_increase(j: Seq<RecordView>, next_id: i64, d: RecordView)
    requires
        journal_ordered(j, next_id),
        next_id < i64::MAX,
    ensures
        forall|i: int| 0 <= i < j.len() ==> #[trigger] j[i].id < next_id,
        journal_ordered(j.push(with_id(d, next_id)), (next_id + 1) as i64),
{
}

/// A purge keeps the journal ordered under the same next id, so ids purged
/// are never handed out again.
pub proof fn law_purge_keeps_journal_ordered(j: Seq<RecordView>, next_id: i64, cutoff: i64)
    requires
        journal_ordered(j, next_id),
    ensures
        journal_ordered(journal_since(j, cutoff), next_id),
{
    lemma_filter_ordered(j, next_id, |r: RecordView| kept_after(r, cutoff));
}

/// After a retention purge and a restart (the store's contents handed out
/// and restored), every fingerprint and journal entry older than the cutoff
/// is still absent, and every other one is exactly as it was stored.
pub proof fn law_purge_survives_restart(
    fps: Seq<MessageFingerprint>,
    journal: Seq<DeletionRecord>,
    next_id: i64,
    cutoff: i64,
    kept_fps: Seq<MessageFingerprint>,
    kept_journal: Seq<DeletionRecord>,
)
    requires
        restore_accepts(fps, journal, next_id),
        unique_ids(kept_fps),
        fingerprint_index(kept_fps) == fingerprints_since(fingerprint_index(fps), cutoff),
        record_views(kept_journal) == journal_since(record_views(journal), cutoff),
    ensures
        restore_accepts(kept_fps, kept_journal, next_id),
        forall|id: i32|
            #![trigger fingerprint_index(kept_fps).dom().contains(id)]
            fingerprint_index(fps).dom().contains(id) ==> (fingerprint_index(kept_fps).dom().contains(id)
                <==> fingerprint_index(fps)[id].timestamp >= cutoff),
        forall|id: i32|
            fingerprint_index(kept_fps).dom().contains(id) ==> #[trigger] fingerprint_index(kept_fps)[id]
                == fingerprint_index(fps)[id],
        forall|i: int|
            0 <= i < record_views(kept_journal).len() ==> kept_after(
                #[trigger] record_views(kept_journal)[i],
                cutoff,
            ) && record_views(journal).contains(record_views(kept_journal)[i]),
        forall|i: int|
            0 <= i < record_views(journal).len() && kept_after(#[trigger] record_views(journal)[i], cutoff)
                ==> record_views(kept_journal).contains(record_views(journal)[i]),
{
    law_purge_keeps_journal_ordered(record_views(journal), next_id, cutoff);
    let pred = |r: RecordView| kept_after(r, cutoff);
    broadcast use vstd::seq_lib::group_filter_ensures;

    assert forall|i: int|
        0 <= i < record_views(journal).len() && kept_after(#[trigger] record_views(journal)[i], cutoff)
            implies record_views(kept_journal).contains(record_views(journal)[i]) by {
        record_views(journal).lemma_filter_contains(pred, i);
    }
    assert forall|i: int| 0 <= i < record_views(kept_journal).len() implies kept_after(
        #[trigger] record_views(kept_journal)[i],
        cutoff,
    ) && record_views(journal).contains(record_views(kept_journal)[i]) by {
        record_views(journal).lemma_filter_pred(pred, i);
        record_views(journal).lemma_filter_contains_rev(pred, record_views(kept_journal)[i]);
    }
}

proof fn lemma_filter_ordered(j: Seq<RecordView>, next_id: i64, pred: spec_fn(RecordView) -> bool)
    requires
        journal_ordered(j, next_id),
    ensures
        journal_ordered(j.filter(pred), next_id),
    decreases j.len(),
{
    if j.len() > 0 {
        let init = j.drop_last();
        lemma_filter_ordered(init, next_id, pred);
        assert(j == init.push(j.last()));
        init.lemma_filter_push(j.last(), pred);
        let f = init.filter(pred);
        assert forall|i: int| 0 <= i < f.len() implies f[i].id < j.last().id by {
            init.lemma_filter_contains_rev(pred, f[i]);
            let k = choose|k: int| 0 <= k < init.len() && init[k] == f[i];
            assert(init[k] == j[k]);
        }
    }
}

proof fn lemma_index_update(s: Seq<MessageFingerprint>, k: int, f: MessageFingerprint)
    requires
        unique_ids(s),
        0 <= k < s.len(),
        s[k].message_id == f.message_id,
    ensures
        unique_ids(s.update(k, f)),
        fingerprint_index(s.update(k, f)) == fingerprint_index(s).insert(f.message_id, f@),
{
    let t = s.update(k, f);
    assert(unique_ids(t));
    assert forall|id: i32| #[trigger] holds_id(t, id) == (holds_id(s, id) || id == f.message_id) by {
        if holds_id(s, id) {
            let i = choose|i: int| 0 <= i < s.len() && s[i].message_id == id;
            assert(t[i].message_id == id);
        }
        if id == f.message_id {
            assert(t[k].message_id == id);
        }
        if holds_id(t, id) {
            let i = choose|i: int| 0 <= i < t.len() && t[i].message_id == id;
            assert(s[i].message_id == id);
        }
    }
    assert forall|id: i32| holds_id(t, id) implies #[trigger] fingerprint_index(t)[id]
        == fingerprint_index(s).insert(f.message_id, f@)[id] by {
        let i = choose|i: int| 0 <= i < t.len() && t[i].message_id == id;
        if id == f.message_id {
            assert(i == k);
        } else {
            let j = choose|j: int| 0 <= j < s.len() && s[j].message_id == id;
            assert(s[i].message_id == id);
            assert(i == j);
        }
    }
    assert(fingerprint_index(t) =~= fingerprint_index(s).insert(f.message_id, f@));
}

proof fn lemma_index_push(s: Seq<MessageFingerprint>, f: MessageFingerprint)
    requires
        unique_ids(s),
        !holds_id(s, f.message_id),
    ensures
        unique_ids(s.push(f)),
        fingerprint_index(s.push(f)) == fingerprint_index(s).insert(f.message_id, f@),
{
    let t = s.push(f);
    assert forall|i: int, j: int|
        0 <= i < t.len() && 0 <= j < t.len() && i != j implies t[i].message_id
        != t[j].message_id by {
        if i == s.len() {
            assert(s[j].message_id == t[j].message_id);
        } else if j == s.len() {
            assert(s[i].message_id == t[i].message_id);
        }
    }
    assert forall|id: i32| #[trigger] holds_id(t, id) == (holds_id(s, id) || id == f.message_id) by {
        if holds_id(s, id) {
            let i = choose|i: int| 0 <= i < s.len() && s[i].message_id == id;
            assert(t[i].message_id == id);
        }
        if id == f.message_id {
            assert(t[s.len() as int].message_id == id);
        }
        if holds_id(t, id) && id != f.message_id {
            let i = choose|i: int| 0 <= i < t.len() && t[i].message_id == id;
            assert(s[i].message_id == id);
        }
    }
    assert forall|id: i32| holds_id(t, id) implies #[trigger] fingerprint_index(t)[id]
        == fingerprint_index(s).insert(f.message_id, f@)[id] by {
        let i = choose|i: int| 0 <= i < t.len() && t[i].message_id == id;
        if id == f.message_id {
            assert(i == s.len());
        } else {
            let j = choose|j: int| 0 <= j < s.len() && s[j].message_id == id;
            assert(s[i].message_id == id);
            assert(i == j);
        }
    }
    assert(fingerprint_index(t) =~= fingerprint_index(s).insert(f.message_id, f@));
}

/// Persistent state of the tracker, held in memory.
pub struct StateManager {
    config: StateConfig,
    fingerprints: Vec<MessageFingerprint>,
    deletions: Vec<DeletionRecord>,
    next_deletion_id: i64,
}

impl View for StateManager {
    type V = StoreView;

    closed spec fn view(&self) -> StoreView {
        StoreView {
            fingerprints: fingerprint_index(self.fingerprints@),
            journal: record_views(self.deletions@),
            next_id: self.next_deletion_id,
        }
    }
}

impl StateManager {
    /// The store's internal consistency: one fingerprint per item id, and an
    /// ordered journal.
    pub closed spec fn wf(&self) -> bool {
        &&& unique_ids(self.fingerprints@)
        &&& journal_ordered(record_views(self.deletions@), self.next_deletion_id)
    }

    /// The configuration the store was made with.
    pub closed spec fn spec_config(&self) -> StateConfig {
        self.config
    }

    /// An empty store whose first journal id is 1.
    pub fn new(config: StateConfig) -> (r: StateManager)
        ensures
            r.wf(),
            r@.fingerprints == Map::<i32, FingerprintView>::empty(),
            r@.journal == Seq::<RecordView>::empty(),
            r@.next_id == 1,
            r.spec_config() == config,
    {
        let r = StateManager {
            config,
            fingerprints: Vec::new(),
            deletions: Vec::new(),
            next_deletion_id: 1,
        };
        assert(fingerprint_index(r.fingerprints@) =~= Map::<i32, FingerprintView>::empty());
        assert(record_views(r.deletions@) =~= Seq::<RecordView>::empty());
        r
    }

    /// The configuration the store was made with.
    pub fn config(&self) -> (r: &StateConfig)
        ensures
            *r == self.spec_config(),
    {
        &self.config
    }

    /// Position of the fingerprint of `message_id`, if any.
    fn find(&self, message_id: i32) -> (r: Option<usize>)
        requires
            self.wf(),
        ensures
            r matches Some(k) ==> k < self.fingerprints@.len() && self.fingerprints@[k as int].message_id
                == message_id,
            r is None ==> !holds_id(self.fingerprints@, message_id),
    {
        let mut k: usize = 0;
        while k < self.fingerprints.len()
            invariant
                k <= self.fingerprints@.len(),
                forall|i: int| 0 <= i < k ==> self.fingerprints@[i].message_id != message_id,
            decreases self.fingerprints@.len() - k,
        {
            if self.fingerprints[k].message_id == message_id {
                return Some(k);
            }
            k = k + 1;
        }
        None
    }

    /// The last fingerprint stored for `message_id`, or none.
    pub fn get_fingerprint(&self, message_id: i32) -> (r: Option<MessageFingerprint>)
        requires
            self.wf(),
        ensures
            r matches Some(f) ==> self@.fingerprints.dom().contains(message_id)
                && f@ == self@.fingerprints[message_id],
            r is None ==> !self@.fingerprints.dom().contains(message_id),
    {
        match self.find(message_id) {
            Some(k) => {
                let f = self.fingerprints[k].snapshot();
                proof {
                    let s = self.fingerprints@;
                    let i = choose|i: int| 0 <= i < s.len() && s[i].message_id == message_id;
                    assert(i == k);
                }
                Some(f)
            },
            None => None,
        }
    }

    /// Stores `fingerprint` as the last known one of its item, replacing
    /// any earlier one.
    pub fn store_fingerprint(&mut self, fingerprint: &MessageFingerprint)
        requires
            old(self).wf(),
        ensures
            final(self).wf(),
            final(self)@.fingerprints == old(self)@.fingerprints.insert(
                fingerprint.message_id,
                fingerprint@,
            ),
            final(self)@.journal == old(self)@.journal,
            final(self)@.next_id == old(self)@.next_id,
            final(self).spec_config() == old(self).spec_config(),
    {
        let f = fingerprint.snapshot();
        match self.find(fingerprint.message_id) {
            Some(k) => {
                proof {
                    lemma_index_update(self.fingerprints@, k as int, f);
                }
                self.fingerprints.set(k, f);
            },
            None => {
                proof {
                    lemma_index_push(self.fingerprints@, f);
                }
                self.fingerprints.push(f);
            },
        }
    }
    /// Stores every fingerprint of `fingerprints`, in order, as one step:
    /// the store is never seen with only some of them stored.
    pub fn batch_store_fingerprints(&mut self, fingerprints: &Vec<MessageFingerprint>)
        requires
            old(self).wf(),
        ensures
            final(self).wf(),
            final(self)@.fingerprints == put_all(
                old(self)@.fingerprints,
                fingerprint_views(fingerprints@),
            ),
            final(self)@.journal == old(self)@.journal,
            final(self)@.next_id == old(self)@.next_id,
            final(self).spec_config() == old(self).spec_config(),
    {
        let mut i: usize = 0;
        while i < fingerprints.len()
            invariant
                i <= fingerprints@.len(),
                self.wf(),
                self@.fingerprints == put_all(
                    old(self)@.fingerprints,
                    fingerprint_views(fingerprints@).take(i as int),
                ),
                self@.journal == old(self)@.journal,
                self@.next_id == old(self)@.next_id,
                self.spec_config() == old(self).spec_config(),
            decreases fingerprints@.len() - i,
        {
            self.store_fingerprint(&fingerprints[i]);
            proof {
                let v = fingerprint_views(fingerprints@);
                assert(v.take(i + 1).drop_last() =~= v.take(i as int));
            }
            i = i + 1;
        }
        proof {
            let v = fingerprint_views(fingerprints@);
            assert(v.take(i as int) =~= v);
        }
    }

    /// Appends `deletion` to the journal under the next journal id, which is
    /// returned; the record's own id is ignored. Fails, changing nothing,
    /// when every id has been used.
    pub fn store_deletion(&mut self, deletion: &DeletionRecord) -> (r: Result<i64, StateError>)
        requires
            old(self).wf(),
        ensures
            final(self).wf(),
            final(self).spec_config() == old(self).spec_config(),
            final(self)@.fingerprints == old(self)@.fingerprints,
            old(self)@.next_id == i64::MAX ==> r == Err::<i64, StateError>(StateError::JournalExhausted)
                && final(self)@ == old(self)@,
            old(self)@.next_id < i64::MAX ==> r == Ok::<i64, StateError>(old(self)@.next_id)
                && final(self)@.journal == old(self)@.journal.push(
                with_id(deletion@, old(self)@.next_id),
            ) && final(self)@.next_id == old(self)@.next_id + 1,
    {
        if self.next_deletion_id == i64::MAX {
            return Err(StateError::JournalExhausted);
        }
        let id = self.next_deletion_id;
        let mut entry = deletion.snapshot();
        entry.id = id;
        proof {
            law_journal_ids_increase(record_views(self.deletions@), id, deletion@);
        }
        self.next_deletion_id = id + 1;
        self.deletions.push(entry);
        proof {
            assert(record_views(self.deletions@) =~= record_views(old(self).deletions@).push(
                with_id(deletion@, id),
            ));
        }
        Ok(id)
    }

    /// The journal entries whose deletion time lies in `[start_time,
    /// end_time]`, latest first; of two at the same time, the later entry
    /// comes first.
    pub fn get_deletions_in_range(&self, start_time: i64, end_time: i64) -> (r: Vec<DeletionRecord>)
        requires
            self.wf(),
        ensures
            record_views(r@).to_multiset() == journal_in_range(
                self@.journal,
                start_time,
                end_time,
            ).to_multiset(),
            sorted_newest_first(record_views(r@)),
    {
        let ghost j = record_views(self.deletions@);
        let ghost pred = |x: RecordView| in_range(x, start_time, end_time);
        let mut out: Vec<DeletionRecord> = Vec::new();
        let mut i: usize = 0;
        proof {
            assert(j.take(0).filter(pred) =~= Seq::<RecordView>::empty());
            assert(record_views(out@) =~= Seq::<RecordView>::empty());
        }
        while i < self.deletions.len()
            invariant
                self.wf(),
                j == record_views(self.deletions@),
                pred == (|x: RecordView| in_range(x, start_time, end_time)),
                i <= self.deletions@.len(),
                record_views(out@).to_multiset() == j.take(i as int).filter(pred).to_multiset(),
                sorted_newest_first(record_views(out@)),
                forall|a: int, k: int|
                    #![trigger out@[a], j[k]]
                    0 <= a < out@.len() && i <= k < j.len() ==> out@[a].id < j[k].id,
            decreases self.deletions@.len() - i,
        {
            let d = &self.deletions[i];
            proof {
                assert(j.take(i + 1) =~= j.take(i as int).push(j[i as int]));
                j.take(i as int).lemma_filter_push(j[i as int], pred);
            }
            if start_time <= d.deletion_timestamp && d.deletion_timestamp <= end_time {
                let mut p: usize = 0;
                while p < out.len() && out[p].deletion_timestamp > d.deletion_timestamp
                    invariant
                        p <= out@.len(),
                        forall|q: int| 0 <= q < p ==> out@[q].deletion_timestamp > d.deletion_timestamp,
                    decreases out@.len() - p,
                {
                    p = p + 1;
                }
                let ghost before = record_views(out@);
                let ghost out_before = out@;
                let entry = d.snapshot();
                out.insert(p, entry);
                proof {
                    let after = record_views(out@);
                    assert(after =~= before.insert(p as int, d@));
                    vstd::seq_lib::to_multiset_insert(before, p as int, d@);
                    vstd::seq_lib::to_multiset_build(j.take(i as int).filter(pred), d@);
                    assert forall|a: int, b: int| 0 <= a < b < after.len() implies newer_first(
                        #[trigger] after[a],
                        #[trigger] after[b],
                    ) by {
                        if b < p {
                        } else if a < p && b == p {
                        } else if a < p {
                            assert(after[b] == before[b - 1]);
                        } else if a == p {
                            assert(after[b] == before[b - 1]);
                            assert(before[b - 1].id < j[i as int].id);
                            if p < before.len() {
                                assert(before[p as int].deletion_timestamp <= d.deletion_timestamp);
                                if b - 1 > p {
                                    assert(newer_first(before[p as int], before[b - 1]));
                                }
                            }
                        } else {
                            assert(after[a] == before[a - 1]);
                            assert(after[b] == before[b - 1]);
                        }
                    }
                    assert forall|a: int, k: int|
                        #![trigger out@[a], j[k]]
                        0 <= a < out@.len() && i + 1 <= k < j.len() implies out@[a].id
                        < j[k].id by {
                        assert(j[i as int].id < j[k].id);
                        if a < p {
                            assert(out@[a] == out_before[a]);
                        } else if a > p {
                            assert(out@[a] == out_before[a - 1]);
                            assert(out_before[a - 1].id < j[k].id);
                        }
                    }
                }
            }
            i = i + 1;
        }
        proof {
            assert(j.take(i as int) =~= j);
        }
        out
    }

    /// Removes, for good, every fingerprint whose timestamp is before
    /// `cutoff` and every journal entry whose deletion time is before
    /// `cutoff`; entries at or after `cutoff` stay as they were. The next
    /// journal id is kept, so purged ids are not handed out again.
    pub fn purge_older_than(&mut self, cutoff: i64)
        requires
            old(self).wf(),
        ensures
            final(self).wf(),
            final(self)@.fingerprints == fingerprints_since(old(self)@.fingerprints, cutoff),
            final(self)@.journal == journal_since(old(self)@.journal, cutoff),
            final(self)@.next_id == old(self)@.next_id,
            final(self).spec_config() == old(self).spec_config(),
    {
        let ghost s = self.fingerprints@;
        let mut kept: Vec<MessageFingerprint> = Vec::new();
        let mut i: usize = 0;
        proof {
            assert(fingerprint_index(kept@) =~= fingerprints_since(
                fingerprint_index(s.take(0)),
                cutoff,
            ));
        }
        while i < self.fingerprints.len()
            invariant
                s == self.fingerprints@,
                unique_ids(s),
                i <= s.len(),
                unique_ids(kept@),
                forall|id: i32| holds_id(kept@, id) ==> holds_id(s.take(i as int), id),
                fingerprint_index(kept@) == fingerprints_since(
                    fingerprint_index(s.take(i as int)),
                    cutoff,
                ),
            decreases s.len() - i,
        {
            let f = &self.fingerprints[i];
            proof {
                let t = s.take(i as int);
                assert(s.take(i + 1) =~= t.push(s[i as int]));
                assert(unique_ids(t));
                assert(!holds_id(t, f.message_id)) by {
                    if holds_id(t, f.message_id) {
                        let k = choose|k: int| 0 <= k < t.len() && t[k].message_id == f.message_id;
                        assert(s[k].message_id == s[i as int].message_id);
                    }
                }
                lemma_index_push(t, s[i as int]);
            }
            if f.timestamp >= cutoff {
                let g = f.snapshot();
                let ghost kept_before = kept@;
                proof {
                    lemma_index_push(kept@, g);
                }
                kept.push(g);
                proof {
                    assert(fingerprint_index(kept@) =~= fingerprints_since(
                        fingerprint_index(s.take(i + 1)),
                        cutoff,
                    ));
                    assert forall|id: i32| holds_id(kept@, id) implies holds_id(
                        s.take(i + 1),
                        id,
                    ) by {
                        let k = choose|k: int| 0 <= k < kept@.len() && kept@[k].message_id == id;
                        if k == kept@.len() - 1 {
                            assert(s.take(i + 1)[i as int].message_id == id);
                        } else {
                            assert(kept_before[k].message_id == id);
                            assert(holds_id(kept_before, id));
                            assert(holds_id(s.take(i as int), id));
                            let m = choose|m: int|
                                0 <= m < s.take(i as int).len() && s.take(i as int)[m].message_id
                                    == id;
                            assert(s.take(i + 1)[m].message_id == id);
                        }
                    }
                }
            } else {
                proof {
                    assert(fingerprint_index(kept@) =~= fingerprints_since(
                        fingerprint_index(s.take(i + 1)),
                        cutoff,
                    ));
                    assert forall|id: i32| holds_id(kept@, id) implies holds_id(
                        s.take(i + 1),
                        id,
                    ) by {
                        let m = choose|m: int|
                            0 <= m < s.take(i as int).len() && s.take(i as int)[m].message_id == id;
                        assert(s.take(i + 1)[m].message_id == id);
                    }
                }
            }
            i = i + 1;
        }
        proof {
            assert(s.take(i as int) =~= s);
        }
        let ghost jv = record_views(self.deletions@);
        let ghost pred = |r: RecordView| kept_after(r, cutoff);
        let mut kept_journal: Vec<DeletionRecord> = Vec::new();
        let mut k: usize = 0;
        proof {
            assert(jv.take(0).filter(pred) =~= Seq::<RecordView>::empty());
            assert(record_views(kept_journal@) =~= Seq::<RecordView>::empty());
        }
        while k < self.deletions.len()
            invariant
                jv == record_views(self.deletions@),
                pred == (|r: RecordView| kept_after(r, cutoff)),
                k <= jv.len(),
                record_views(kept_journal@) == jv.take(k as int).filter(pred),
            decreases jv.len() - k,
        {
            let d = &self.deletions[k];
            proof {
                assert(jv.take(k + 1) =~= jv.take(k as int).push(jv[k as int]));
                jv.take(k as int).lemma_filter_push(jv[k as int], pred);
            }
            if d.deletion_timestamp >= cutoff {
                let e = d.snapshot();
                let ghost kept_before = kept_journal@;
                kept_journal.push(e);
                proof {
                    assert(record_views(kept_journal@) =~= record_views(kept_before).push(
                        d@,
                    ));
                }
            }
            k = k + 1;
        }
        proof {
            assert(jv.take(k as int) =~= jv);
            law_purge_keeps_journal_ordered(jv, self.next_deletion_id, cutoff);
        }
        self.fingerprints = kept;
        self.deletions = kept_journal;
    }

    /// The one-time retention purge run when the tracker starts: removes
    /// what is older than the configured number of days before `now`.
    pub fn cleanup_old_records(&mut self, now: i64)
        requires
            old(self).wf(),
        ensures
            final(self).wf(),
            final(self)@.fingerprints == fingerprints_since(
                old(self)@.fingerprints,
                retention_cutoff(now, old(self).spec_config().retention_days),
            ),
            final(self)@.journal == journal_since(
                old(self)@.journal,
                retention_cutoff(now, old(self).spec_config().retention_days),
            ),
            final(self)@.next_id == old(self)@.next_id,
            final(self).spec_config() == old(self).spec_config(),
    {
        let horizon: i64 = self.config.retention_days as i64 * SECONDS_PER_DAY;
        let cutoff: i64 = if now < i64::MIN + horizon {
            i64::MIN
        } else {
            now - horizon
        };
        self.purge_older_than(cutoff);
    }

    /// A store holding `fingerprints`, the journal `deletions` and the next
    /// journal id `next_deletion_id`, as a previous run left them. Refused
    /// when two fingerprints share an item id, or when journal ids are not
    /// positive, strictly increasing and below the next id.
    pub fn restore(
        config: StateConfig,
        fingerprints: Vec<MessageFingerprint>,
        deletions: Vec<DeletionRecord>,
        next_deletion_id: i64,
    ) -> (r: Result<StateManager, StateError>)
        ensures
            r is Ok <==> restore_accepts(fingerprints@, deletions@, next_deletion_id),
            r matches Ok(st) ==> st.wf() && st.spec_config() == config && st@.fingerprints
                == fingerprint_index(fingerprints@) && st@.journal == record_views(deletions@)
                && st@.next_id == next_deletion_id,
            !unique_ids(fingerprints@) ==> (r matches Err(StateError::DuplicateFingerprint(id))
                && exists|a: int, b: int|
                0 <= a < b < fingerprints@.len() && fingerprints@[a].message_id == id
                    && fingerprints@[b].message_id == id),
            unique_ids(fingerprints@) && !journal_ordered(record_views(deletions@), next_deletion_id)
                ==> r matches Err(StateError::JournalOutOfOrder),
    {
        let mut i: usize = 0;
        while i < fingerprints.len()
            invariant
                i <= fingerprints@.len(),
                unique_ids(fingerprints@.take(i as int)),
            decreases fingerprints@.len() - i,
        {
            let mut k: usize = 0;
            while k < i
                invariant
                    i < fingerprints@.len(),
                    k <= i,
                    forall|a: int| 0 <= a < k ==> fingerprints@[a].message_id != fingerprints@[i as int].message_id,
                decreases i - k,
            {
                if fingerprints[k].message_id == fingerprints[i].message_id {
                    let id = fingerprints[i].message_id;
                    return Err(StateError::DuplicateFingerprint(id));
                }
                k = k + 1;
            }
            proof {
                let t = fingerprints@.take(i + 1);
                assert forall|a: int, b: int|
                    0 <= a < t.len() && 0 <= b < t.len() && a != b implies t[a].message_id
                    != t[b].message_id by {
                    if a < i && b < i {
                        assert(fingerprints@.take(i as int)[a] == t[a]);
                        assert(fingerprints@.take(i as int)[b] == t[b]);
                    }
                }
            }
            i = i + 1;
        }
        proof {
            assert(fingerprints@.take(i as int) =~= fingerprints@);
        }
        let ghost jv = record_views(deletions@);
        if next_deletion_id < 1 {
            return Err(StateError::JournalOutOfOrder);
        }
        let mut k: usize = 0;
        while k < deletions.len()
            invariant
                jv == record_views(deletions@),
                1 <= next_deletion_id,
                k <= jv.len(),
                journal_ordered(jv.take(k as int), next_deletion_id),
                unique_ids(fingerprints@),
            decreases jv.len() - k,
        {
            let id = deletions[k].id;
            if id < 1 || id >= next_deletion_id {
                proof {
                    assert(jv[k as int].id == id);
                }
                return Err(StateError::JournalOutOfOrder);
            }
            if k > 0 && deletions[k - 1].id >= id {
                proof {
                    assert(jv[k - 1].id == deletions@[k - 1].id);
                    assert(jv[k as int].id == id);
                }
                return Err(StateError::JournalOutOfOrder);
            }
            proof {
                let t = jv.take(k + 1);
                assert forall|a: int, b: int| 0 <= a < b < t.len() implies t[a].id < t[b].id by {
                    if b == k && a < k - 1 {
                        assert(jv.take(k as int)[a] == t[a]);
                        assert(jv.take(k as int)[k - 1] == t[k - 1]);
                    } else if b < k {
                        assert(jv.take(k as int)[a] == t[a]);
                        assert(jv.take(k as int)[b] == t[b]);
                    }
                }
                assert forall|a: int| 0 <= a < t.len() implies 1 <= #[trigger] t[a].id
                    < next_deletion_id by {
                    if a < k {
                        assert(jv.take(k as int)[a] == t[a]);
                    }
                }
            }
            k = k + 1;
        }
        proof {
            assert(jv.take(k as int) =~= jv);
        }
        Ok(StateManager { config, fingerprints, deletions, next_deletion_id })
    }

    /// The stored fingerprints, one per item id, for persisting.
    pub fn fingerprint_list(&self) -> (r: &Vec<MessageFingerprint>)
        requires
            self.wf(),
        ensures
            unique_ids(r@),
            fingerprint_index(r@) == self@.fingerprints,
    {
        &self.fingerprints
    }

    /// The journal, in append order, for persisting.
    pub fn deletion_list(&self) -> (r: &Vec<DeletionRecord>)
        requires
            self.wf(),
        ensures
            record_views(r@) == self@.journal,
            journal_ordered(self@.journal, self@.next_id),
    {
        &self.deletions
    }

    /// Content digest of an item's text: see [`crate::fingerprint::hash_content`].
    pub fn hash_content(content: &str) -> (r: String)
        ensures
            r@ == blake3_hex_of(content@),
    {
        crate::fingerprint::hash_content(content)
    }

    /// Digest of an attachment's metadata: see
    /// [`crate::fingerprint::hash_attachment`].
    pub fn hash_attachment(filename: &str, size: u64, modified: Option<i64>) -> (r: String)
        ensures
            r@ == blake3_hex_of(attachment_key(filename@, size, modified)),
    {
        crate::fingerprint::hash_attachment(filename, size, modified)
    }

    /// The id the next journal entry gets, for persisting.
    pub fn next_deletion_id(&self) -> (r: i64)
        ensures
            r == self@.next_id,
    {
        self.next_deletion_id
    }
}

} // verus!
