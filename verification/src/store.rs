//! The two keyed collections of the session state: per-dialog transcripts
//! and per-dialog unread counters. Both are association lists with unique
//! keys; an absent key reads as an empty transcript or a zero counter.

use vstd::prelude::*;
use crate::model::{DialogSummary, MessageSummary};

verus! {

/// The transcript kept for one dialog.
pub struct MessageLog {
    pub dialog_id: i64,
    pub messages: Vec<MessageSummary>,
}

/// First-match transcript lookup over a sequence of logs.
pub open spec fn log_in(entries: Seq<MessageLog>, id: i64) -> Seq<MessageSummary>
    decreases entries.len(),
{
    if entries.len() == 0 {
        Seq::empty()
    } else if entries[0].dialog_id == id {
        entries[0].messages@
    } else {
        log_in(entries.drop_first(), id)
    }
}

/// Unique keys among a sequence of logs.
pub open spec fn log_keys_unique(entries: Seq<MessageLog>) -> bool {
    forall|i: int, j: int|
        #![trigger entries[i].dialog_id, entries[j].dialog_id]
        0 <= i < j < entries.len() ==> entries[i].dialog_id != entries[j].dialog_id
}

proof fn lemma_log_in_skip(entries: Seq<MessageLog>, id: i64, k: int)
    requires
        0 <= k <= entries.len(),
        forall|j: int| 0 <= j < k ==> entries[j].dialog_id != id,
    ensures
        log_in(entries, id) == log_in(entries.skip(k), id),
    decreases k,
{
    if k > 0 {
        lemma_log_in_skip(entries.drop_first(), id, k - 1);
        assert(entries.drop_first().skip(k - 1) =~= entries.skip(k));
    } else {
        assert(entries.skip(0) =~= entries);
    }
}

proof fn lemma_log_in_update(entries: Seq<MessageLog>, i: int, e: MessageLog, q: i64)
    requires
        0 <= i < entries.len(),
        e.dialog_id == entries[i].dialog_id,
        forall|k: int| 0 <= k < i ==> entries[k].dialog_id != e.dialog_id,
    ensures
        log_in(entries.update(i, e), q) == if q == e.dialog_id {
            e.messages@
        } else {
            log_in(entries, q)
        },
    decreases i,
{
    let u = entries.update(i, e);
    if i == 0 {
        if q != e.dialog_id {
            assert(u.drop_first() =~= entries.drop_first());
        }
    } else {
        assert(entries[0].dialog_id != e.dialog_id);
        assert(u[0] == entries[0]);
        if q == entries[0].dialog_id {
        } else {
            assert(u.drop_first() =~= entries.drop_first().update(i - 1, e));
            lemma_log_in_update(entries.drop_first(), i - 1, e, q);
        }
    }
}

proof fn lemma_log_in_push(entries: Seq<MessageLog>, e: MessageLog, q: i64)
    requires
        forall|k: int| 0 <= k < entries.len() ==> entries[k].dialog_id != e.dialog_id,
    ensures
        log_in(entries.push(e), q) == if q == e.dialog_id {
            e.messages@
        } else {
            log_in(entries, q)
        },
    decreases entries.len(),
{
    let u = entries.push(e);
    assert(u.len() == entries.len() + 1);
    if entries.len() == 0 {
        assert(u[0] == e);
        if q == e.dialog_id {
            assert(log_in(u, q) == e.messages@);
        } else {
            assert(u.drop_first() =~= Seq::<MessageLog>::empty());
            assert(log_in(u, q) == log_in(u.drop_first(), q));
        }
    } else {
        assert(u[0] == entries[0]);
        assert(entries[0].dialog_id != e.dialog_id);
        if q == entries[0].dialog_id {
            assert(log_in(u, q) == u[0].messages@);
            assert(log_in(entries, q) == entries[0].messages@);
        } else {
            let tail = entries.drop_first();
            assert forall|k: int| 0 <= k < tail.len() implies tail[k].dialog_id != e.dialog_id by {
                assert(tail[k] == entries[k + 1]);
            }
            lemma_log_in_push(tail, e, q);
            assert(u.drop_first() =~= tail.push(e));
            assert(log_in(u, q) == log_in(u.drop_first(), q));
            assert(log_in(entries, q) == log_in(tail, q));
        }
    }
}

/// Whether a transcript already holds a message with the given id.
pub open spec fn has_message_id(msgs: Seq<MessageSummary>, id: i32) -> bool {
    exists|i: int| 0 <= i < msgs.len() && #[trigger] msgs[i].id == id
}

/// Per-dialog transcripts, keyed by dialog id. A dialog without an entry
/// has an empty transcript.
pub struct MessageStore {
    entries: Vec<MessageLog>,
}

impl MessageStore {
    /// The transcript stored for `id` (empty when none is stored).
    pub closed spec fn log_of(self, id: i64) -> Seq<MessageSummary> {
        log_in(self.entries@, id)
    }

    /// Each dialog id keys at most one entry.
    pub closed spec fn wf(self) -> bool {
        log_keys_unique(self.entries@)
    }

    /// An empty store: every transcript is empty.
    pub fn new() -> (r: Self)
        ensures
            r.wf(),
            forall|id: i64| #[trigger] r.log_of(id) == Seq::<MessageSummary>::empty(),
    {
        MessageStore { entries: Vec::new() }
    }

    fn find_entry(&self, id: i64) -> (r: Option<usize>)
        ensures
            match r {
                Some(i) => i < self.entries@.len() && self.entries@[i as int].dialog_id == id
                    && forall|k: int| 0 <= k < i ==> self.entries@[k].dialog_id != id,
                None => forall|k: int|
                    0 <= k < self.entries@.len() ==> self.entries@[k].dialog_id != id,
            },
    {
        let n = self.entries.len();
        let mut i: usize = 0;
        while i < n
            invariant
                n == self.entries@.len(),
                i <= n,
                forall|k: int| 0 <= k < i ==> self.entries@[k].dialog_id != id,
            decreases n - i,
        {
            if self.entries[i].dialog_id == id {
                return Some(i);
            }
            i = i + 1;
        }
        None
    }

    /// A borrow of the transcript stored for `id`, if one is stored.
    pub fn get_log(&self, id: i64) -> (r: Option<&Vec<MessageSummary>>)
        ensures
            match r {
                Some(v) => v@ == self.log_of(id),
                None => self.log_of(id).len() == 0,
            },
    {
        match self.find_entry(id) {
            Some(i) => {
                proof {
                    lemma_log_in_skip(self.entries@, id, i as int);
                    assert(self.entries@.skip(i as int)[0] == self.entries@[i as int]);
                }
                Some(&self.entries[i].messages)
            },
            None => {
                proof {
                    lemma_log_in_skip(self.entries@, id, self.entries@.len() as int);
                    assert(self.entries@.skip(self.entries@.len() as int).len() == 0);
                }
                None
            },
        }
    }

    /// Replace the transcript for `id` wholesale.
    pub fn set_log(&mut self, id: i64, messages: Vec<MessageSummary>)
        requires
            old(self).wf(),
        ensures
            final(self).wf(),
            final(self).log_of(id) == messages@,
            forall|q: i64| q != id ==> final(self).log_of(q) == #[trigger] old(self).log_of(q),
    {
        let ghost before = self.entries@;
        match self.find_entry(id) {
            Some(i) => {
                let mut e = self.entries.remove(i);
                e.messages = messages;
                self.entries.insert(i, e);
                proof {
                    assert(self.entries@ =~= before.update(i as int, e));
                    assert forall|q: i64| true implies log_in(before.update(i as int, e), q) == (
                    if q == id {
                        e.messages@
                    } else {
                        log_in(before, q)
                    }) by {
                        lemma_log_in_update(before, i as int, e, q);
                    }
                }
            },
            None => {
                let e = MessageLog { dialog_id: id, messages };
                self.entries.push(e);
                proof {
                    assert forall|q: i64| true implies log_in(before.push(e), q) == (if q == id {
                        e.messages@
                    } else {
                        log_in(before, q)
                    }) by {
                        lemma_log_in_push(before, e, q);
                    }
                }
            },
        }
    }

    /// Append `message` to the transcript for `id` unless a message with
    /// the same id is already there; reports whether it was appended.
    pub fn append_if_missing(&mut self, id: i64, message: MessageSummary) -> (appended: bool)
        requires
            old(self).wf(),
        ensures
            final(self).wf(),
            appended == !has_message_id(old(self).log_of(id), message.id),
            appended ==> final(self).log_of(id) == old(self).log_of(id).push(message),
            !appended ==> *final(self) == *old(self),
            forall|q: i64| q != id ==> final(self).log_of(q) == #[trigger] old(self).log_of(q),
    {
        let ghost before = self.entries@;
        match self.find_entry(id) {
            Some(i) => {
                proof {
                    lemma_log_in_skip(before, id, i as int);
                    assert(before.skip(i as int)[0] == before[i as int]);
                    assert(self.log_of(id) == before[i as int].messages@);
                }
                if contains_message_id(&self.entries[i].messages, message.id) {
                    return false;
                }
                let mut e = self.entries.remove(i);
                e.messages.push(message);
                self.entries.insert(i, e);
                proof {
                    assert(self.entries@ =~= before.update(i as int, e));
                    assert forall|q: i64| true implies log_in(before.update(i as int, e), q) == (
                    if q == id {
                        e.messages@
                    } else {
                        log_in(before, q)
                    }) by {
                        lemma_log_in_update(before, i as int, e, q);
                    }
                }
                true
            },
            None => {
                proof {
                    lemma_log_in_skip(before, id, before.len() as int);
                    assert(before.skip(before.len() as int).len() == 0);
                    assert(self.log_of(id) =~= Seq::<MessageSummary>::empty());
                }
                let mut messages: Vec<MessageSummary> = Vec::new();
                messages.push(message);
                let e = MessageLog { dialog_id: id, messages };
                self.entries.push(e);
                proof {
                    assert(e.messages@ =~= Seq::<MessageSummary>::empty().push(message));
                    assert forall|q: i64| true implies log_in(before.push(e), q) == (if q == id {
                        e.messages@
                    } else {
                        log_in(before, q)
                    }) by {
                        lemma_log_in_push(before, e, q);
                    }
                }
                true
            },
        }
    }
}

/// One unread counter; only dialogs with unread messages keep an entry.
pub struct BadgeEntry {
    pub dialog_id: i64,
    pub count: usize,
}

/// First-match counter lookup over a sequence of entries; absent is zero.
pub open spec fn count_in(entries: Seq<BadgeEntry>, id: i64) -> usize
    decreases entries.len(),
{
    if entries.len() == 0 {
        0
    } else if entries[0].dialog_id == id {
        entries[0].count
    } else {
        count_in(entries.drop_first(), id)
    }
}

/// Whether some entry carries the given key.
pub open spec fn has_badge_key(entries: Seq<BadgeEntry>, id: i64) -> bool {
    exists|i: int| 0 <= i < entries.len() && #[trigger] entries[i].dialog_id == id
}

/// Unique keys among a sequence of counter entries.
pub open spec fn badge_keys_unique(entries: Seq<BadgeEntry>) -> bool {
    forall|i: int, j: int|
        #![trigger entries[i].dialog_id, entries[j].dialog_id]
        0 <= i < j < entries.len() ==> entries[i].dialog_id != entries[j].dialog_id
}

proof fn lemma_count_in_skip(entries: Seq<BadgeEntry>, id: i64, k: int)
    requires
        0 <= k <= entries.len(),
        forall|j: int| 0 <= j < k ==> entries[j].dialog_id != id,
    ensures
        count_in(entries, id) == count_in(entries.skip(k), id),
    decreases k,
{
    if k > 0 {
        lemma_count_in_skip(entries.drop_first(), id, k - 1);
        assert(entries.drop_first().skip(k - 1) =~= entries.skip(k));
    } else {
        assert(entries.skip(0) =~= entries);
    }
}

proof fn lemma_count_in_update(entries: Seq<BadgeEntry>, i: int, e: BadgeEntry, q: i64)
    requires
        0 <= i < entries.len(),
        e.dialog_id == entries[i].dialog_id,
        forall|k: int| 0 <= k < i ==> entries[k].dialog_id != e.dialog_id,
    ensures
        count_in(entries.update(i, e), q) == if q == e.dialog_id {
            e.count
        } else {
            count_in(entries, q)
        },
    decreases i,
{
    let u = entries.update(i, e);
    if i == 0 {
        if q != e.dialog_id {
            assert(u.drop_first() =~= entries.drop_first());
        }
    } else {
        assert(u[0] == entries[0]);
        if q != entries[0].dialog_id {
            let tail = entries.drop_first();
            assert forall|k: int| 0 <= k < i - 1 implies tail[k].dialog_id != e.dialog_id by {
                assert(tail[k] == entries[k + 1]);
            }
            lemma_count_in_update(tail, i - 1, e, q);
            assert(u.drop_first() =~= tail.update(i - 1, e));
        }
    }
}

proof fn lemma_count_in_push(entries: Seq<BadgeEntry>, e: BadgeEntry, q: i64)
    requires
        !has_badge_key(entries, e.dialog_id),
    ensures
        count_in(entries.push(e), q) == if q == e.dialog_id {
            e.count
        } else {
            count_in(entries, q)
        },
    decreases entries.len(),
{
    let u = entries.push(e);
    assert(u.len() == entries.len() + 1);
    if entries.len() == 0 {
        assert(u[0] == e);
        if q == e.dialog_id {
            assert(count_in(u, q) == e.count);
        } else {
            assert(u.drop_first() =~= Seq::<BadgeEntry>::empty());
            assert(count_in(u, q) == count_in(u.drop_first(), q));
        }
    } else {
        assert(u[0] == entries[0]);
        assert(entries[0].dialog_id != e.dialog_id);
        if q == entries[0].dialog_id {
            assert(count_in(u, q) == u[0].count);
            assert(count_in(entries, q) == entries[0].count);
        } else {
            let tail = entries.drop_first();
            assert forall|k: int| 0 <= k < tail.len() implies #[trigger] tail[k].dialog_id
                != e.dialog_id by {
                assert(tail[k] == entries[k + 1]);
                if tail[k].dialog_id == e.dialog_id {
                    assert(entries[k + 1].dialog_id == e.dialog_id);
                    assert(has_badge_key(entries, e.dialog_id));
                }
            }
            assert(!has_badge_key(tail, e.dialog_id));
            lemma_count_in_push(tail, e, q);
            assert(u.drop_first() =~= tail.push(e));
            assert(count_in(u, q) == count_in(u.drop_first(), q));
            assert(count_in(entries, q) == count_in(tail, q));
        }
    }
}

proof fn lemma_count_in_remove(entries: Seq<BadgeEntry>, i: int, q: i64)
    requires
        badge_keys_unique(entries),
        0 <= i < entries.len(),
        forall|k: int| 0 <= k < i ==> entries[k].dialog_id != entries[i].dialog_id,
    ensures
        count_in(entries.remove(i), q) == if q == entries[i].dialog_id {
            0
        } else {
            count_in(entries, q)
        },
    decreases i,
{
    let u = entries.remove(i);
    let id = entries[i].dialog_id;
    if i == 0 {
        assert(u =~= entries.drop_first());
        if q == id {
            assert forall|k: int| 0 <= k < u.len() implies u[k].dialog_id != id by {
                assert(u[k] == entries[k + 1]);
            }
            lemma_count_in_skip(u, id, u.len() as int);
            assert(u.skip(u.len() as int).len() == 0);
        }
    } else {
        assert(u[0] == entries[0]);
        assert(entries[0].dialog_id != id);
        if q != entries[0].dialog_id {
            let tail = entries.drop_first();
            assert(badge_keys_unique(tail)) by {
                assert forall|a: int, b: int|
                    0 <= a < b < tail.len() implies #[trigger] tail[a].dialog_id
                    != #[trigger] tail[b].dialog_id by {
                    assert(tail[a] == entries[a + 1]);
                    assert(tail[b] == entries[b + 1]);
                }
            }
            assert forall|k: int| 0 <= k < i - 1 implies #[trigger] tail[k].dialog_id
                != tail[i - 1].dialog_id by {
                assert(tail[k] == entries[k + 1]);
                assert(tail[i - 1] == entries[i as int]);
            }
            lemma_count_in_remove(tail, i - 1, q);
            assert(u.drop_first() =~= tail.remove(i - 1));
            assert(tail[i - 1] == entries[i as int]);
        }
    }
}

/// Per-dialog unread counters, keyed by dialog id. A dialog without an
/// entry counts zero.
pub struct BadgeCounters {
    entries: Vec<BadgeEntry>,
}

impl BadgeCounters {
    /// The counter kept for `id` (zero when none is kept).
    pub closed spec fn count_of(self, id: i64) -> usize {
        count_in(self.entries@, id)
    }

    /// Each dialog id keys at most one entry.
    pub closed spec fn wf(self) -> bool {
        badge_keys_unique(self.entries@)
    }

    /// Empty counters: every dialog counts zero.
    pub fn new() -> (r: Self)
        ensures
            r.wf(),
            forall|id: i64| #[trigger] r.count_of(id) == 0,
    {
        BadgeCounters { entries: Vec::new() }
    }

    fn find_entry(&self, id: i64) -> (r: Option<usize>)
        ensures
            match r {
                Some(i) => i < self.entries@.len() && self.entries@[i as int].dialog_id == id
                    && forall|k: int| 0 <= k < i ==> self.entries@[k].dialog_id != id,
                None => forall|k: int|
                    0 <= k < self.entries@.len() ==> self.entries@[k].dialog_id != id,
            },
    {
        let n = self.entries.len();
        let mut i: usize = 0;
        while i < n
            invariant
                n == self.entries@.len(),
                i <= n,
                forall|k: int| 0 <= k < i ==> self.entries@[k].dialog_id != id,
            decreases n - i,
        {
            if self.entries[i].dialog_id == id {
                return Some(i);
            }
            i = i + 1;
        }
        None
    }

    /// The unread count for `id`.
    pub fn get(&self, id: i64) -> (r: usize)
        ensures
            r == self.count_of(id),
    {
        match self.find_entry(id) {
            Some(i) => {
                proof {
                    lemma_count_in_skip(self.entries@, id, i as int);
                    assert(self.entries@.skip(i as int)[0] == self.entries@[i as int]);
                }
                self.entries[i].count
            },
            None => {
                proof {
                    lemma_count_in_skip(self.entries@, id, self.entries@.len() as int);
                    assert(self.entries@.skip(self.entries@.len() as int).len() == 0);
                }
                0
            },
        }
    }

    /// Count one more unread message for `id`, saturating at the top.
    pub fn increment(&mut self, id: i64)
        requires
            old(self).wf(),
        ensures
            final(self).wf(),
            final(self).count_of(id) == (if old(self).count_of(id) == usize::MAX {
                usize::MAX as int
            } else {
                old(self).count_of(id) + 1
            }),
            forall|q: i64| q != id ==> final(self).count_of(q) == #[trigger] old(self).count_of(q),
    {
        let ghost before = self.entries@;
        match self.find_entry(id) {
            Some(i) => {
                proof {
                    lemma_count_in_skip(before, id, i as int);
                    assert(before.skip(i as int)[0] == before[i as int]);
                }
                let mut e = self.entries.remove(i);
                e.count = if e.count == usize::MAX {
                    usize::MAX
                } else {
                    e.count + 1
                };
                self.entries.insert(i, e);
                proof {
                    assert(self.entries@ =~= before.update(i as int, e));
                    assert forall|q: i64| true implies count_in(before.update(i as int, e), q) == (
                    if q == id {
                        e.count
                    } else {
                        count_in(before, q)
                    }) by {
                        lemma_count_in_update(before, i as int, e, q);
                    }
                }
            },
            None => {
                proof {
                    lemma_count_in_skip(before, id, before.len() as int);
                    assert(before.skip(before.len() as int).len() == 0);
                }
                let e = BadgeEntry { dialog_id: id, count: 1 };
                self.entries.push(e);
                proof {
                    assert(!has_badge_key(before, id));
                    assert forall|q: i64| true implies count_in(before.push(e), q) == (if q == id {
                        e.count
                    } else {
                        count_in(before, q)
                    }) by {
                        lemma_count_in_push(before, e, q);
                    }
                }
            },
        }
    }

    /// Forget the counter for `id`: it reads zero afterwards.
    pub fn clear(&mut self, id: i64)
        requires
            old(self).wf(),
        ensures
            final(self).wf(),
            final(self).count_of(id) == 0,
            forall|q: i64| q != id ==> final(self).count_of(q) == #[trigger] old(self).count_of(q),
    {
        let ghost before = self.entries@;
        match self.find_entry(id) {
            Some(i) => {
                self.entries.remove(i);
                proof {
                    assert forall|q: i64| true implies count_in(before.remove(i as int), q) == (
                    if q == id {
                        0
                    } else {
                        count_in(before, q)
                    }) by {
                        lemma_count_in_remove(before, i as int, q);
                    }
                    let u = before.remove(i as int);
                    assert(badge_keys_unique(u)) by {
                        assert forall|a: int, b: int|
                            0 <= a < b < u.len() implies #[trigger] u[a].dialog_id
                            != #[trigger] u[b].dialog_id by {
                            if b < i {
                                assert(u[a] == before[a] && u[b] == before[b]);
                            } else if a < i {
                                assert(u[a] == before[a] && u[b] == before[b + 1]);
                            } else {
                                assert(u[a] == before[a + 1] && u[b] == before[b + 1]);
                            }
                        }
                    }
                }
            },
            None => {
                proof {
                    lemma_count_in_skip(before, id, before.len() as int);
                    assert(before.skip(before.len() as int).len() == 0);
                }
            },
        }
    }

    /// Keep only the counters whose dialog is in the given list; the rest
    /// read zero afterwards.
    pub fn retain_present(&mut self, dialogs: &Vec<DialogSummary>)
        requires
            old(self).wf(),
        ensures
            final(self).wf(),
            forall|q: i64|
                #[trigger] final(self).count_of(q) == (if has_dialog_id(dialogs@, q) {
                    old(self).count_of(q)
                } else {
                    0
                }),
    {
        let ghost before = self.entries@;
        let n = self.entries.len();
        let mut kept: Vec<BadgeEntry> = Vec::new();
        let mut i: usize = 0;
        while i < n
            invariant
                n == before.len(),
                self.entries@ == before,
                badge_keys_unique(before),
                i <= n,
                badge_keys_unique(kept@),
                forall|q: i64|
                    has_badge_key(kept@, q) ==> has_badge_key(before.subrange(0, i as int), q),
                forall|q: i64|
                    #[trigger] count_in(kept@, q) == (if has_dialog_id(dialogs@, q) {
                        count_in(before.subrange(0, i as int), q)
                    } else {
                        0
                    }),
            decreases n - i,
        {
            let ghost prefix = before.subrange(0, i as int);
            let ghost next = before.subrange(0, i as int + 1);
            let ghost cur = before[i as int];
            proof {
                assert(next.drop_last() =~= prefix);
                assert(next.last() == cur);
                assert forall|q: i64| true implies count_in(next, q) == (if q == cur.dialog_id {
                    cur.count
                } else {
                    count_in(prefix, q)
                }) by {
                    assert forall|k: int| 0 <= k < prefix.len() implies prefix[k].dialog_id
                        != cur.dialog_id by {
                        assert(prefix[k] == before[k]);
                    }
                    assert(!has_badge_key(prefix, cur.dialog_id));
                    lemma_count_in_push(prefix, cur, q);
                    assert(next =~= prefix.push(cur));
                }
                assert forall|q: i64| has_badge_key(next, q) implies q == cur.dialog_id
                    || has_badge_key(prefix, q) by {
                    let k = choose|k: int|
                        0 <= k < next.len() && #[trigger] next[k].dialog_id == q;
                    if k < i as int {
                        assert(prefix[k].dialog_id == q);
                    }
                }
            }
            let e = &self.entries[i];
            if dialogs_contain(dialogs, e.dialog_id) {
                proof {
                    if has_badge_key(kept@, e.dialog_id) {
                        assert(has_badge_key(prefix, e.dialog_id));
                        let k = choose|k: int|
                            0 <= k < prefix.len() && #[trigger] prefix[k].dialog_id == e.dialog_id;
                        assert(before[k].dialog_id == before[i as int].dialog_id);
                        assert(false);
                    }
                }
                let ghost kept_before = kept@;
                let copy = BadgeEntry { dialog_id: e.dialog_id, count: e.count };
                kept.push(copy);
                proof {
                    assert forall|q: i64| true implies count_in(kept_before.push(copy), q) == (
                    if q == copy.dialog_id {
                        copy.count
                    } else {
                        count_in(kept_before, q)
                    }) by {
                        lemma_count_in_push(kept_before, copy, q);
                    }
                    assert forall|q: i64| has_badge_key(kept@, q) implies has_badge_key(next, q) by {
                        let k = choose|k: int|
                            0 <= k < kept@.len() && #[trigger] kept@[k].dialog_id == q;
                        if k < kept_before.len() {
                            assert(kept_before[k].dialog_id == q);
                            assert(has_badge_key(kept_before, q));
                            assert(has_badge_key(prefix, q));
                            let j = choose|j: int|
                                0 <= j < prefix.len() && #[trigger] prefix[j].dialog_id == q;
                            assert(next[j].dialog_id == q);
                        } else {
                            assert(next[i as int].dialog_id == q);
                        }
                    }
                }
            } else {
                proof {
                    assert forall|q: i64| has_badge_key(kept@, q) implies has_badge_key(
                        next,
                        q,
                    ) by {
                        assert(has_badge_key(prefix, q));
                        let j = choose|j: int|
                            0 <= j < prefix.len() && #[trigger] prefix[j].dialog_id == q;
                        assert(next[j].dialog_id == q);
                    }
                }
            }
            i = i + 1;
        }
        proof {
            assert(before.subrange(0, n as int) =~= before);
        }
        self.entries = kept;
    }
}

/// Whether the dialog list holds a dialog with the given id.
pub open spec fn has_dialog_id(dialogs: Seq<DialogSummary>, id: i64) -> bool {
    exists|i: int| 0 <= i < dialogs.len() && #[trigger] dialogs[i].id == id
}

/// Whether the dialog list holds a dialog with the given id.
pub fn dialogs_contain(dialogs: &Vec<DialogSummary>, id: i64) -> (r: bool)
    ensures
        r == has_dialog_id(dialogs@, id),
{
    let n = dialogs.len();
    let mut i: usize = 0;
    while i < n
        invariant
            n == dialogs@.len(),
            i <= n,
            forall|k: int| 0 <= k < i ==> dialogs@[k].id != id,
        decreases n - i,
    {
        if dialogs[i].id == id {
            return true;
        }
        i = i + 1;
    }
    false
}

/// Whether the transcript holds a message with the given id.
pub fn contains_message_id(messages: &Vec<MessageSummary>, id: i32) -> (r: bool)
    ensures
        r == has_message_id(messages@, id),
{
    let n = messages.len();
    let mut i: usize = 0;
    while i < n
        invariant
            n == messages@.len(),
            i <= n,
            forall|k: int| 0 <= k < i ==> messages@[k].id != id,
        decreases n - i,
    {
        if messages[i].id == id {
            return true;
        }
        i = i + 1;
    }
    false
}

} // verus!
