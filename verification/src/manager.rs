//! The notification manager: an ordered sequence of notifications tagged
//! read or unread. The display limit bounds the unread subset with
//! ring-buffer eviction; the read subset only grows until entries are
//! discarded by a collaborator.
//!
//! The manager is a plain value with exclusive-write methods. The two
//! execution contexts of the daemon (ingestion and the event loop) share it
//! behind a single mutual-exclusion lock owned by the embedding program;
//! nothing here leaks a reference to the internal storage.

use vstd::prelude::*;
use crate::error::Error;
use crate::notification::Notification;

verus! {

/// Appending one notification to the unread sequence under a display limit:
/// the new entry goes last, and with a positive limit the oldest entries
/// beyond the limit are evicted first.
pub open spec fn spec_enqueue(s: Seq<Notification>, n: Notification, limit: int) -> Seq<
    Notification,
> {
    let t = s.push(n);
    if limit > 0 && t.len() > limit {
        t.skip(t.len() - limit)
    } else {
        t
    }
}

/// The window of the `max` most recent entries (all of them if `max` is 0 or
/// larger than the sequence), oldest of the window first.
pub open spec fn spec_window(s: Seq<Notification>, max: int) -> Seq<Notification> {
    if max == 0 || s.len() <= max {
        s
    } else {
        s.skip(s.len() - max)
    }
}

/// Pairwise-distinct identities.
pub open spec fn distinct_ids(s: Seq<Notification>) -> bool {
    forall|i: int, j: int| 0 <= i < j < s.len() ==> s[i].id != s[j].id
}

/// Owns the live notification set: unread entries in arrival order, read
/// entries retained in the order they were acknowledged.
#[derive(Debug)]
pub struct Manager {
    unread: Vec<Notification>,
    read: Vec<Notification>,
    display_limit: usize,
}

impl Manager {
    /// The unread notifications, oldest first.
    pub closed spec fn unread_view(&self) -> Seq<Notification> {
        self.unread@
    }

    /// The read notifications, in acknowledgement order.
    pub closed spec fn read_view(&self) -> Seq<Notification> {
        self.read@
    }

    /// The display limit this manager was created with; 0 means unlimited.
    pub closed spec fn limit(&self) -> usize {
        self.display_limit
    }

    /// Well-formed: unread identities are pairwise distinct and a positive
    /// display limit bounds the unread count.
    pub open spec fn wf(&self) -> bool {
        &&& distinct_ids(self.unread_view())
        &&& self.limit() > 0 ==> self.unread_view().len() <= self.limit()
    }

    /// Creates an empty manager with the given display limit (0 for
    /// unlimited).
    pub fn new(display_limit: usize) -> (r: Manager)
        ensures
            r.wf(),
            r.unread_view() == Seq::<Notification>::empty(),
            r.read_view() == Seq::<Notification>::empty(),
            r.limit() == display_limit,
    {
        Manager { unread: Vec::new(), read: Vec::new(), display_limit }
    }

    /// Appends a notification as unread; if the display limit is positive
    /// and the unread count would exceed it, the oldest unread entry is
    /// evicted first. Always succeeds.
    pub fn enqueue(&mut self, notification: Notification)
        requires
            old(self).wf(),
            forall|i: int|
                0 <= i < old(self).unread_view().len() ==> old(self).unread_view()[i].id
                    != notification.id,
        ensures
            final(self).wf(),
            final(self).limit() == old(self).limit(),
            final(self).read_view() == old(self).read_view(),
            final(self).unread_view() == spec_enqueue(
                old(self).unread_view(),
                notification,
                old(self).limit() as int,
            ),
    {
        let ghost s0 = self.unread@;
        self.unread.push(notification);
        if self.display_limit > 0 && self.unread.len() > self.display_limit {
            self.unread.remove(0);
            proof {
                assert(self.unread@ =~= s0.push(notification).skip(1));
                assert(s0.push(notification).len() - self.display_limit == 1);
            }
        }
    }

    /// The number of currently unread notifications.
    pub fn unread_count(&self) -> (r: usize)
        ensures
            r == self.unread_view().len(),
    {
        self.unread.len()
    }

    /// Up to `max` most recent unread notifications, oldest of the selected
    /// window first; all of them if `max` is 0.
    pub fn unread_buffer(&self, max: usize) -> (r: Vec<Notification>)
        ensures
            r@ == spec_window(self.unread_view(), max as int),
    {
        let len = self.unread.len();
        let start: usize = if max == 0 || len <= max {
            0
        } else {
            len - max
        };
        let mut r: Vec<Notification> = Vec::new();
        let mut i: usize = start;
        while i < len
            invariant
                len == self.unread_view().len(),
                start <= i <= len,
                r@ == self.unread_view().subrange(start as int, i as int),
            decreases len - i,
        {
            let n = self.unread[i].clone();
            r.push(n);
            proof {
                assert(self.unread_view().subrange(start as int, i + 1 as int)
                    =~= self.unread_view().subrange(start as int, i as int).push(
                    self.unread_view()[i as int],
                ));
            }
            i = i + 1;
        }
        proof {
            assert(r@ =~= spec_window(self.unread_view(), max as int));
        }
        r
    }

    /// The most recently enqueued unread notification; fails with
    /// `EmptyState` if and only if nothing is unread.
    pub fn last_unread(&self) -> (r: Result<Notification, Error>)
        ensures
            match r {
                Ok(n) => self.unread_view().len() > 0 && n == self.unread_view().last(),
                Err(e) => self.unread_view().len() == 0 && e == Error::EmptyState,
            },
    {
        let len = self.unread.len();
        if len == 0 {
            Err(Error::EmptyState)
        } else {
            Ok(self.unread[len - 1].clone())
        }
    }

    /// Transitions the most recent unread notification to read; no-op if
    /// nothing is unread.
    pub fn mark_last_as_read(&mut self)
        requires
            old(self).wf(),
        ensures
            final(self).wf(),
            final(self).limit() == old(self).limit(),
            old(self).unread_view().len() > 0 ==> {
                &&& final(self).unread_view() == old(self).unread_view().drop_last()
                &&& final(self).read_view() == old(self).read_view().push(
                    old(self).unread_view().last(),
                )
            },
            old(self).unread_view().len() == 0 ==> final(self).unread_view() == old(
                self,
            ).unread_view() && final(self).read_view() == old(self).read_view(),
    {
        match self.unread.pop() {
            Some(n) => {
                self.read.push(n);
            },
            None => {},
        }
    }

    /// Removes the notification at the given index of the current unread
    /// sequence; silently a no-op if the index no longer refers to a present
    /// entry.
    pub fn dismiss(&mut self, index: usize)
        requires
            old(self).wf(),
        ensures
            final(self).wf(),
            final(self).limit() == old(self).limit(),
            final(self).read_view() == old(self).read_view(),
            index < old(self).unread_view().len() ==> final(self).unread_view() == old(
                self,
            ).unread_view().remove(index as int),
            index >= old(self).unread_view().len() ==> final(self).unread_view() == old(
                self,
            ).unread_view(),
    {
        if index < self.unread.len() {
            let ghost s0 = self.unread@;
            self.unread.remove(index);
            proof {
                lemma_remove_keeps_distinct(s0, index as int);
            }
        }
    }

    /// Removes the notification with the given identity, wherever it now
    /// sits; silently a no-op if it has already left. Callers resolve a
    /// clicked index against their unread-buffer snapshot to an identity
    /// first, so a concurrent mutation between snapshot and dismissal can
    /// never remove the wrong entry.
    pub fn dismiss_by_id(&mut self, id: u32)
        requires
            old(self).wf(),
        ensures
            final(self).wf(),
            final(self).limit() == old(self).limit(),
            final(self).read_view() == old(self).read_view(),
            match spec_index_of_id(old(self).unread_view(), id, 0) {
                Some(i) => final(self).unread_view() == old(self).unread_view().remove(i),
                None => final(self).unread_view() == old(self).unread_view(),
            },
    {
        let n = self.unread.len();
        let mut i: usize = 0;
        #[verifier::loop_isolation(false)]
        while i < n
            invariant
                i <= n,
                *self == *old(self),
                n == self.unread@.len(),
                spec_index_of_id(self.unread@, id as u32, 0) == spec_index_of_id(
                    self.unread@,
                    id as u32,
                    i as int,
                ),
            decreases n - i,
        {
            if self.unread[i].id == id {
                let ghost s0 = self.unread@;
                self.unread.remove(i);
                proof {
                    lemma_remove_keeps_distinct(s0, i as int);
                }
                return ;
            }
            i = i + 1;
        }
    }
}

/// The position of the entry with the given identity at or after `from`.
pub open spec fn spec_index_of_id(s: Seq<Notification>, id: u32, from: int) -> Option<int>
    decreases s.len() - from,
{
    if from < 0 || from >= s.len() {
        None
    } else if s[from].id == id {
        Some(from)
    } else {
        spec_index_of_id(s, id, from + 1)
    }
}

/// Removing one entry keeps the remaining identities pairwise distinct.
proof fn lemma_remove_keeps_distinct(s: Seq<Notification>, at: int)
    requires
        distinct_ids(s),
        0 <= at < s.len(),
    ensures
        distinct_ids(s.remove(at)),
{
    let t = s.remove(at);
    assert forall|i: int, j: int| 0 <= i < j < t.len() implies t[i].id != t[j].id by {
        let oi = if i < at { i } else { i + 1 };
        let oj = if j < at { j } else { j + 1 };
        assert(t[i] == s[oi]);
        assert(t[j] == s[oj]);
    }
}

/// The unread sequence after a whole series of enqueues into an initially
/// empty manager, in call order.
pub open spec fn spec_enqueue_all(ns: Seq<Notification>, limit: int) -> Seq<Notification>
    decreases ns.len(),
{
    if ns.len() == 0 {
        Seq::<Notification>::empty()
    } else {
        spec_enqueue(spec_enqueue_all(ns.drop_last(), limit), ns.last(), limit)
    }
}

/// Law: for any sequence of enqueues with a positive display limit, the
/// retained unread set never exceeds the limit and is exactly the most
/// recently enqueued notifications, oldest excess evicted first.
pub proof fn lemma_ring_buffer(ns: Seq<Notification>, limit: int)
    requires
        limit > 0,
    ensures
        spec_enqueue_all(ns, limit).len() <= limit,
        spec_enqueue_all(ns, limit) == if ns.len() <= limit {
            ns
        } else {
            ns.skip(ns.len() - limit)
        },
    decreases ns.len(),
{
    if ns.len() == 0 {
        assert(spec_enqueue_all(ns, limit) =~= ns);
    } else {
        let head = ns.drop_last();
        lemma_ring_buffer(head, limit);
        let prev = spec_enqueue_all(head, limit);
        let t = prev.push(ns.last());
        if head.len() <= limit {
            assert(prev == head);
            assert(t =~= ns);
            if t.len() > limit {
                assert(spec_enqueue_all(ns, limit) =~= ns.skip(ns.len() - limit));
            }
        } else {
            assert(prev == head.skip(head.len() - limit));
            assert(t.len() == limit + 1);
            assert(spec_enqueue_all(ns, limit) == t.skip(1));
            assert(t.skip(1) =~= ns.skip(ns.len() - limit));
        }
    }
}

/// Law: marking the last unread notification as read and then asking for the
/// last unread one never yields the same identity twice in a row without an
/// intervening enqueue. `before` is the manager at the first query; `after`
/// is the manager once `mark_last_as_read` ran.
pub proof fn lemma_mark_then_last_differs(before: Manager, after: Manager)
    requires
        before.wf(),
        before.unread_view().len() > 0,
        after.unread_view() == before.unread_view().drop_last(),
        after.unread_view().len() > 0,
    ensures
        after.unread_view().last().id != before.unread_view().last().id,
{
    let s = before.unread_view();
    assert(after.unread_view().last() == s[s.len() - 2]);
}

} // verus!
