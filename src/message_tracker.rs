//! The polling tracker: it caches messages with visible text and, on every
//! poll, compares fresh rows with the cached ones to find texts that were
//! silently removed.

use vstd::prelude::*;
use crate::database::{
    RealMessage, Handle, DeletionEvent, DeletionEventView, matches_filter, has_visible_text,
    silently_deleted, event_for, event_views, conversation_matches, visible_text,
    is_silent_deletion, create_deletion_event,
};

verus! {

/// Whether some cached row has id `id`.
pub open spec fn caches_id(s: Seq<RealMessage>, id: i32) -> bool {
    exists|k: int| 0 <= k < s.len() && s[k].id == id
}

/// Whether no two cached rows share an id.
pub open spec fn unique_message_ids(s: Seq<RealMessage>) -> bool {
    forall|i: int, j: int| 0 <= i < s.len() && 0 <= j < s.len() && i != j ==> s[i].id != s[j].id
}

/// The position of the cached row with id `id`.
pub open spec fn position_of(s: Seq<RealMessage>, id: i32) -> int {
    choose|k: int| 0 <= k < s.len() && s[k].id == id
}

/// Whether a fresh row is taken into the cache: it passes the
/// conversation filter, if any, has visible text, and is not cached yet.
pub open spec fn admits(
    cache: Seq<RealMessage>,
    m: RealMessage,
    handles: Seq<Handle>,
    filter: Option<Seq<char>>,
) -> bool {
    &&& match filter {
        Some(f) => matches_filter(m, handles, f),
        None => true,
    }
    &&& has_visible_text(m.text.deep_view())
    &&& !caches_id(cache, m.id)
}

/// The cache after offering it `msgs`, in order.
pub open spec fn admitted(
    cache: Seq<RealMessage>,
    msgs: Seq<RealMessage>,
    handles: Seq<Handle>,
    filter: Option<Seq<char>>,
) -> Seq<RealMessage>
    decreases msgs.len(),
{
    if msgs.len() == 0 {
        cache
    } else {
        let c = admitted(cache, msgs.drop_last(), handles, filter);
        if admits(c, msgs.last(), handles, filter) {
            c.push(msgs.last())
        } else {
            c
        }
    }
}

/// The cache and the events after comparing the fresh rows `current`, in
/// order, with the cache: a cached row whose fresh row shows a silent
/// removal yields an event and is replaced by the fresh row.
pub open spec fn scanned(
    cache: Seq<RealMessage>,
    current: Seq<RealMessage>,
    handles: Seq<Handle>,
) -> (Seq<RealMessage>, Seq<DeletionEventView>)
    decreases current.len(),
{
    if current.len() == 0 {
        (cache, Seq::empty())
    } else {
        let (c, evs) = scanned(cache, current.drop_last(), handles);
        let m = current.last();
        if caches_id(c, m.id) && silently_deleted(c[position_of(c, m.id)], m) {
            (
                c.update(position_of(c, m.id), m),
                evs.push(event_for(c[position_of(c, m.id)], handles)),
            )
        } else {
            (c, evs)
        }
    }
}

/// The largest cached id, or 0 when nothing is cached.
pub open spec fn max_cached(s: Seq<RealMessage>) -> i32
    decreases s.len(),
{
    if s.len() == 0 {
        0
    } else if s.len() == 1 {
        s[0].id
    } else {
        let m = max_cached(s.drop_last());
        if s.last().id > m {
            s.last().id
        } else {
            m
        }
    }
}

/// The polling tracker's cache of messages.
pub struct MessageTracker {
    conversation_filter: Option<String>,
    message_cache: Vec<RealMessage>,
}

impl MessageTracker {
    /// The cached rows.
    pub closed spec fn spec_cache(&self) -> Seq<RealMessage> {
        self.message_cache@
    }

    /// The conversation filter.
    pub closed spec fn spec_filter(&self) -> Option<Seq<char>> {
        self.conversation_filter.deep_view()
    }

    /// The cache holds at most one row per id.
    pub closed spec fn wf(&self) -> bool {
        unique_message_ids(self.message_cache@)
    }

    /// A tracker with an empty cache and the given conversation filter.
    pub fn new(conversation_filter: Option<String>) -> (r: MessageTracker)
        ensures
            r.wf(),
            r.spec_cache().len() == 0,
            r.spec_filter() == conversation_filter.deep_view(),
    {
        MessageTracker { conversation_filter, message_cache: Vec::new() }
    }

    /// Position of the cached row with id `id`, if any.
    fn find(&self, id: i32) -> (r: Option<usize>)
        requires
            self.wf(),
        ensures
            r matches Some(k) ==> k < self.message_cache@.len() && self.message_cache@[k as int].id == id
                && position_of(self.message_cache@, id) == k,
            r is None ==> !caches_id(self.message_cache@, id),
    {
        let mut k: usize = 0;
        while k < self.message_cache.len()
            invariant
                k <= self.message_cache@.len(),
                forall|q: int| 0 <= q < k ==> self.message_cache@[q].id != id,
                unique_message_ids(self.message_cache@),
            decreases self.message_cache@.len() - k,
        {
            if self.message_cache[k].id == id {
                proof {
                    let s = self.message_cache@;
                    assert(0 <= k < s.len() && s[k as int].id == id);
                    let j = position_of(s, id);
                    assert(s[j].id == id);
                }
                return Some(k);
            }
            k = k + 1;
        }
        None
    }

    /// Offers fresh rows to the cache, in order: a row is cached when it
    /// passes the conversation filter, has visible text, and its id is not
    /// cached yet.
    pub fn admit_messages(&mut self, messages: Vec<RealMessage>, handles: &Vec<Handle>)
        requires
            old(self).wf(),
        ensures
            final(self).wf(),
            final(self).spec_filter() == old(self).spec_filter(),
            final(self).spec_cache() == admitted(
                old(self).spec_cache(),
                messages@,
                handles@,
                old(self).spec_filter(),
            ),
    {
        let ghost msgs = messages@;
        let mut i: usize = 0;
        let mut rest = messages;
        proof {
            assert(msgs.skip(0) =~= msgs);
        }
        let n = rest.len();
        while i < n
            invariant
                n == msgs.len(),
                i <= msgs.len(),
                self.wf(),
                self.spec_filter() == old(self).spec_filter(),
                self.spec_cache() == admitted(old(self).spec_cache(), msgs.take(i as int), handles@, old(self).spec_filter()),
                rest@ == msgs.skip(i as int),
            decreases msgs.len() - i,
        {
            let m = rest.remove(0);
            proof {
                assert(rest@ =~= msgs.skip(i + 1));
                assert(msgs.take(i + 1).drop_last() =~= msgs.take(i as int));
                assert(m == msgs[i as int]);
            }
            let passes = match &self.conversation_filter {
                Some(f) => conversation_matches(&m, handles, f.as_str()),
                None => true,
            };
            if passes && visible_text(&m.text) && self.find(m.id).is_none() {
                proof {
                    let s = self.message_cache@;
                    assert forall|a: int, b: int|
                        0 <= a < s.len() + 1 && 0 <= b < s.len() + 1 && a != b implies s.push(m)[a].id
                        != s.push(m)[b].id by {
                        if a == s.len() {
                            assert(!caches_id(s, m.id));
                            assert(s[b].id == s.push(m)[b].id);
                        } else if b == s.len() {
                            assert(s[a].id == s.push(m)[a].id);
                        }
                    }
                }
                self.message_cache.push(m);
            }
            i = i + 1;
        }
        proof {
            assert(msgs.take(i as int) =~= msgs);
        }
    }

    /// Ids of the cached rows, in cache order.
    pub fn tracked_ids(&self) -> (r: Vec<i32>)
        ensures
            r@ == self.spec_cache().map_values(|m: RealMessage| m.id),
    {
        let mut out: Vec<i32> = Vec::new();
        let mut k: usize = 0;
        while k < self.message_cache.len()
            invariant
                k <= self.message_cache@.len(),
                out@ == self.message_cache@.take(k as int).map_values(|m: RealMessage| m.id),
            decreases self.message_cache@.len() - k,
        {
            out.push(self.message_cache[k].id);
            proof {
                assert(self.message_cache@.take(k + 1).map_values(|m: RealMessage| m.id)
                    =~= self.message_cache@.take(k as int).map_values(|m: RealMessage| m.id).push(
                    self.message_cache@[k as int].id,
                ));
            }
            k = k + 1;
        }
        proof {
            assert(self.message_cache@.take(k as int) =~= self.message_cache@);
        }
        out
    }

    /// The largest cached id, or 0 when nothing is cached: fresh rows are
    /// asked for above it.
    pub fn max_cached_id(&self) -> (r: i32)
        ensures
            r == max_cached(self.spec_cache()),
    {
        let n = self.message_cache.len();
        if n == 0 {
            return 0;
        }
        let mut best = self.message_cache[0].id;
        let mut k: usize = 1;
        proof {
            assert(self.message_cache@.take(1).drop_last() =~= Seq::<RealMessage>::empty());
        }
        while k < n
            invariant
                1 <= k <= n,
                n == self.message_cache@.len(),
                best == max_cached(self.message_cache@.take(k as int)),
            decreases n - k,
        {
            proof {
                assert(self.message_cache@.take(k + 1).drop_last() =~= self.message_cache@.take(
                    k as int,
                ));
            }
            if self.message_cache[k].id > best {
                best = self.message_cache[k].id;
            }
            k = k + 1;
        }
        proof {
            assert(self.message_cache@.take(k as int) =~= self.message_cache@);
        }
        best
    }

    /// Compares fresh rows, in order, with the cache: for every cached
    /// message whose fresh row shows a silent removal of its text, reports a
    /// deletion event built from the cached row and caches the fresh row in
    /// its place.
    pub fn detect_deletions(&mut self, current: Vec<RealMessage>, handles: &Vec<Handle>) -> (r: Vec<
        DeletionEvent,
    >)
        requires
            old(self).wf(),
        ensures
            final(self).wf(),
            final(self).spec_filter() == old(self).spec_filter(),
            (final(self).spec_cache(), event_views(r@)) == scanned(
                old(self).spec_cache(),
                current@,
                handles@,
            ),
    {
        let ghost cur = current@;
        let mut events: Vec<DeletionEvent> = Vec::new();
        let mut i: usize = 0;
        let mut rest = current;
        proof {
            assert(cur.skip(0) =~= cur);
        }
        proof {
            assert(event_views(events@) =~= Seq::<DeletionEventView>::empty());
        }
        let n = rest.len();
        while i < n
            invariant
                n == cur.len(),
                i <= cur.len(),
                self.wf(),
                self.spec_filter() == old(self).spec_filter(),
                (self.spec_cache(), event_views(events@)) == scanned(old(self).spec_cache(), cur.take(i as int), handles@),
                rest@ == cur.skip(i as int),
            decreases cur.len() - i,
        {
            let m = rest.remove(0);
            proof {
                assert(rest@ =~= cur.skip(i + 1));
                assert(cur.take(i + 1).drop_last() =~= cur.take(i as int));
                assert(m == cur[i as int]);
            }
            match self.find(m.id) {
                Some(k) => {
                    if is_silent_deletion(&self.message_cache[k], &m) {
                        let event = create_deletion_event(&self.message_cache[k], handles);
                        let ghost before = event_views(events@);
                        events.push(event);
                        proof {
                            assert(event_views(events@) =~= before.push(event@));
                            let s = self.message_cache@;
                            assert(unique_message_ids(s.update(k as int, m)));
                        }
                        self.message_cache.set(k, m);
                    }
                },
                None => {},
            }
            i = i + 1;
        }
        proof {
            assert(cur.take(i as int) =~= cur);
        }
        events
    }
}

} // verus!
