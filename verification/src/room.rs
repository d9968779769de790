//! One chat room: its member identities and its fan-out medium, a bounded
//! queue per subscriber. A broadcast is appended to every active
//! subscriber's queue; when a queue is full its oldest entry is dropped, so
//! a slow reader never blocks the room.

use vstd::prelude::*;

verus! {

/// How many undelivered messages one subscriber may have queued before the
/// oldest is dropped.
pub const QUEUE_CAPACITY: usize = 69;

/// One subscriber's delivery queue; `active` is cleared when the
/// subscription ends, and the slot stays so later subscribers keep their
/// positions.
pub struct Subscriber {
    pub active: bool,
    pub queue: Vec<String>,
}

/// The mathematical content of one subscriber slot.
#[verifier::ext_equal]
pub ghost struct QueueModel {
    pub active: bool,
    pub msgs: Seq<Seq<char>>,
}

impl Subscriber {
    /// The slot as a model value.
    pub open spec fn model(self) -> QueueModel {
        QueueModel { active: self.active, msgs: self.queue.deep_view() }
    }
}

/// The mathematical content of one room: who is a member, and what each
/// subscriber slot still has to deliver.
#[verifier::ext_equal]
pub ghost struct RoomModel {
    pub members: Seq<Seq<char>>,
    pub queues: Seq<QueueModel>,
}

/// No identity occurs twice.
pub open spec fn distinct_seqs(s: Seq<Seq<char>>) -> bool {
    forall|i: int, j: int| 0 <= i < j < s.len() ==> s[i] != s[j]
}

/// The index of the first occurrence of `u` in `s`, or `-1` when there is
/// none.
pub open spec fn member_index(s: Seq<Seq<char>>, u: Seq<char>) -> int
    decreases s.len(),
{
    if s.len() == 0 {
        -1
    } else if s[0] == u {
        0
    } else if member_index(s.drop_first(), u) < 0 {
        -1
    } else {
        member_index(s.drop_first(), u) + 1
    }
}

/// What `member_index` returns: an in-range index holding `u` with no
/// earlier occurrence, or `-1` exactly when `u` does not occur.
pub proof fn lemma_member_index(s: Seq<Seq<char>>, u: Seq<char>)
    ensures
        -1 <= member_index(s, u) < s.len(),
        member_index(s, u) >= 0 ==> s[member_index(s, u)] == u,
        forall|j: int| 0 <= j < member_index(s, u) ==> s[j] != u,
        member_index(s, u) == -1 ==> forall|j: int| 0 <= j < s.len() ==> s[j] != u,
        (member_index(s, u) >= 0) == s.contains(u),
    decreases s.len(),
{
    if s.len() == 0 {
    } else if s[0] == u {
    } else {
        lemma_member_index(s.drop_first(), u);
        assert(forall|j: int| 0 <= j < s.drop_first().len() ==> s.drop_first()[j] == s[j + 1]);
        assert forall|j: int| 0 <= j < member_index(s, u) implies s[j] != u by {
            if j > 0 {
                assert(s.drop_first()[j - 1] == s[j]);
                assert(s.drop_first()[j - 1] != u);
            }
        }
        if member_index(s, u) == -1 && s.contains(u) {
            let k = choose|k: int| 0 <= k < s.len() && s[k] == u;
            assert(s.drop_first()[k - 1] == u);
        }
        if member_index(s, u) >= 0 && !s.contains(u) {
            assert(s[member_index(s, u)] == u);
        }
    }
}

/// `member_index` gives exactly `i` when `s[i] == u` and no earlier element
/// equals `u`.
pub proof fn lemma_member_index_is(s: Seq<Seq<char>>, u: Seq<char>, i: int)
    requires
        0 <= i < s.len(),
        s[i] == u,
        forall|j: int| 0 <= j < i ==> s[j] != u,
    ensures
        member_index(s, u) == i,
    decreases i,
{
    if i == 0 {
    } else {
        assert(s[0] != u);
        assert(forall|j: int| 0 <= j < s.drop_first().len() ==> s.drop_first()[j] == s[j + 1]);
        lemma_member_index_is(s.drop_first(), u, i - 1);
    }
}

/// What a broadcast does to one subscriber slot: nothing when it is
/// inactive, else the message is appended, dropping the oldest queued entry
/// when the queue is full.
pub open spec fn queue_append(q: QueueModel, msg: Seq<char>) -> QueueModel {
    if !q.active {
        q
    } else if q.msgs.len() < QUEUE_CAPACITY {
        QueueModel { msgs: q.msgs.push(msg), ..q }
    } else {
        QueueModel { msgs: q.msgs.drop_first().push(msg), ..q }
    }
}

/// One chat room.
pub struct RoomState {
    pub members: Vec<String>,
    pub subs: Vec<Subscriber>,
}

impl RoomState {
    /// The room as a model value.
    pub open spec fn model(self) -> RoomModel {
        RoomModel {
            members: self.members.deep_view(),
            queues: self.subs@.map_values(|s: Subscriber| s.model()),
        }
    }

    /// Each member at most once, and every queue within its bound.
    pub open spec fn wf(self) -> bool {
        &&& distinct_seqs(self.members.deep_view())
        &&& forall|i: int| 0 <= i < self.subs@.len() ==> self.subs@[i].queue@.len() <= QUEUE_CAPACITY
    }

    /// Whether `u` is a member.
    pub open spec fn is_member(self, u: Seq<char>) -> bool {
        self.members.deep_view().contains(u)
    }

    /// A fresh room: no members, no subscribers.
    pub fn new() -> (r: RoomState)
        ensures
            r.wf(),
            r.model().members =~= Seq::<Seq<char>>::empty(),
            r.model().queues =~= Seq::<QueueModel>::empty(),
    {
        RoomState { members: Vec::new(), subs: Vec::new() }
    }

    /// How many members the room has.
    pub fn member_count(&self) -> (n: usize)
        ensures
            n == self.model().members.len(),
    {
        self.members.len()
    }

    /// Whether `user` is a member.
    pub fn contains_member(&self, user: &String) -> (r: bool)
        ensures
            r == self.is_member(user@),
    {
        let ghost ms = self.members.deep_view();
        let mut i: usize = 0;
        while i < self.members.len()
            invariant
                i <= self.members@.len(),
                ms == self.members.deep_view(),
                forall|j: int| 0 <= j < i ==> ms[j] != user@,
            decreases self.members@.len() - i,
        {
            if self.members[i] == *user {
                proof {
                    assert(ms[i as int] == user@);
                }
                return true;
            }
            i = i + 1;
        }
        proof {
            if ms.contains(user@) {
                let k = choose|k: int| 0 <= k < ms.len() && ms[k] == user@;
                assert(ms[k] != user@);
            }
        }
        false
    }

    /// Adds `user` unless it is already a member; reports whether it was
    /// added.
    pub fn add_member(&mut self, user: &String) -> (added: bool)
        requires
            old(self).wf(),
        ensures
            final(self).wf(),
            added == !old(self).is_member(user@),
            added ==> final(self).members.deep_view() == old(self).members.deep_view().push(user@),
            !added ==> *final(self) == *old(self),
            final(self).subs == old(self).subs,
    {
        if self.contains_member(user) {
            false
        } else {
            let ghost oldms = self.members.deep_view();
            self.members.push(user.clone());
            proof {
                assert(self.members.deep_view() =~= oldms.push(user@));
                assert forall|i: int, j: int|
                    0 <= i < j < self.members.deep_view().len() implies self.members.deep_view()[i]
                    != self.members.deep_view()[j] by {
                    if j == oldms.len() {
                        assert(!oldms.contains(user@));
                        assert(oldms[i] != user@);
                    }
                }
            }
            true
        }
    }

    /// Removes `user` if it is a member; reports whether it was removed.
    /// Afterwards `user` is no member, whatever held before.
    pub fn remove_member(&mut self, user: &String) -> (removed: bool)
        requires
            old(self).wf(),
        ensures
            final(self).wf(),
            removed == old(self).is_member(user@),
            removed ==> final(self).members.deep_view() == old(self).members.deep_view().remove(
                member_index(old(self).members.deep_view(), user@),
            ),
            removed ==> final(self).members.deep_view().len() == old(
                self,
            ).members.deep_view().len() - 1,
            !removed ==> *final(self) == *old(self),
            !final(self).is_member(user@),
            final(self).subs == old(self).subs,
    {
        let ghost ms = self.members.deep_view();
        proof {
            assert(distinct_seqs(ms));
        }
        let mut i: usize = 0;
        while i < self.members.len()
            invariant
                old(self).wf(),
                i <= self.members@.len(),
                self.members == old(self).members,
                self.subs == old(self).subs,
                ms == self.members.deep_view(),
                distinct_seqs(ms),
                forall|j: int| 0 <= j < i ==> ms[j] != user@,
            decreases self.members@.len() - i,
        {
            if self.members[i] == *user {
                self.members.remove(i);
                proof {
                    assert(ms[i as int] == user@);
                    assert(ms.contains(user@)) by {
                        assert(ms[i as int] == user@ && (i as int) < ms.len());
                    }
                    lemma_member_index_is(ms, user@, i as int);
                    ms.remove_ensures(i as int);
                    assert(self.members.deep_view() =~= ms.remove(i as int));
                    assert forall|j: int|
                        0 <= j < self.members.deep_view().len() implies self.members.deep_view()[j]
                        != user@ by {
                        if j < i {
                            assert(ms.remove(i as int)[j] == ms[j]);
                        } else {
                            assert(ms.remove(i as int)[j] == ms[j + 1]);
                            assert(distinct_seqs(ms) && (i as int) < j + 1 && j + 1 < ms.len());
                            assert(ms[i as int] != ms[j + 1]);
                        }
                    }
                    if self.members.deep_view().contains(user@) {
                        let k = choose|k: int|
                            0 <= k < self.members.deep_view().len() && self.members.deep_view()[k]
                                == user@;
                        assert(self.members.deep_view()[k] != user@);
                    }
                    assert forall|a: int, b: int|
                        0 <= a < b < self.members.deep_view().len()
                        implies self.members.deep_view()[a] != self.members.deep_view()[b] by {
                        let fa: int = if a < i { a } else { a + 1 };
                        let fb: int = if b < i { b } else { b + 1 };
                        if a < i {
                            assert(ms.remove(i as int)[a] == ms[a]);
                        } else {
                            assert(ms.remove(i as int)[a] == ms[a + 1]);
                        }
                        if b < i {
                            assert(ms.remove(i as int)[b] == ms[b]);
                        } else {
                            assert(ms.remove(i as int)[b] == ms[b + 1]);
                        }
                        assert(distinct_seqs(ms) && 0 <= fa && fa < fb && fb < ms.len());
                        assert(ms[fa] != ms[fb]);
                    }
                    assert forall|q: int|
                        0 <= q < self.subs@.len() implies self.subs@[q].queue@.len()
                        <= QUEUE_CAPACITY by {
                        assert(self.subs@[q] == old(self).subs@[q]);
                        assert(old(self).subs@[q].queue@.len() <= QUEUE_CAPACITY);
                    }
                }
                return true;
            }
            i = i + 1;
        }
        proof {
            if ms.contains(user@) {
                let k = choose|k: int| 0 <= k < ms.len() && ms[k] == user@;
                assert(ms[k] != user@);
            }
        }
        false
    }

    /// Opens a new subscriber slot and returns its handle; the slot starts
    /// active with an empty queue and sees only what is broadcast after
    /// this call.
    pub fn subscribe(&mut self) -> (id: usize)
        requires
            old(self).wf(),
        ensures
            final(self).wf(),
            id == old(self).model().queues.len(),
            final(self).members == old(self).members,
            final(self).model().queues == old(self).model().queues.push(
                QueueModel { active: true, msgs: Seq::empty() },
            ),
    {
        let id = self.subs.len();
        self.subs.push(Subscriber { active: true, queue: Vec::new() });
        proof {
            assert(self.model().queues =~~= old(self).model().queues.push(
                QueueModel { active: true, msgs: Seq::empty() },
            ));
        }
        id
    }

    /// Closes the slot `id`: it turns inactive and its queue is dropped. A
    /// handle that is not a slot is ignored.
    pub fn unsubscribe(&mut self, id: usize)
        requires
            old(self).wf(),
        ensures
            final(self).wf(),
            final(self).members == old(self).members,
            id >= old(self).subs@.len() ==> *final(self) == *old(self),
            id < old(self).subs@.len() ==> final(self).model().queues == old(
                self,
            ).model().queues.update(id as int, QueueModel { active: false, msgs: Seq::empty() }),
    {
        if id < self.subs.len() {
            let mut sub = self.subs.remove(id);
            sub.active = false;
            sub.queue = Vec::new();
            self.subs.insert(id, sub);
            proof {
                assert(self.model().queues =~~= old(self).model().queues.update(
                    id as int,
                    QueueModel { active: false, msgs: Seq::empty() },
                ));
            }
        }
    }

    /// Delivers `msg` to every active subscriber slot, dropping the oldest
    /// queued entry of a slot that is full. Membership is untouched.
    pub fn broadcast(&mut self, msg: &String)
        requires
            old(self).wf(),
        ensures
            final(self).wf(),
            final(self).members == old(self).members,
            final(self).model().queues == old(self).model().queues.map_values(
                |q: QueueModel| queue_append(q, msg@),
            ),
    {
        let ghost oldsubs = self.subs@;
        let mut i: usize = 0;
        while i < self.subs.len()
            invariant
                i <= self.subs@.len(),
                self.subs@.len() == oldsubs.len(),
                self.members == old(self).members,
                forall|j: int|
                    0 <= j < self.subs@.len() ==> self.subs@[j].queue@.len() <= QUEUE_CAPACITY,
                forall|j: int|
                    i <= j < self.subs@.len() ==> self.subs@[j] == oldsubs[j],
                forall|j: int|
                    0 <= j < i ==> self.subs@[j].model() == queue_append(oldsubs[j].model(), msg@),
            decreases self.subs@.len() - i,
        {
            let ghost s0 = self.subs@;
            let mut sub = self.subs.remove(i);
            let ghost pre = sub;
            if sub.active {
                if sub.queue.len() == QUEUE_CAPACITY {
                    sub.queue.remove(0);
                    sub.queue.push(msg.clone());
                    proof {
                        assert(sub.queue.deep_view() =~= pre.queue.deep_view().drop_first().push(
                            msg@,
                        ));
                        assert(sub.model() =~~= queue_append(pre.model(), msg@));
                    }
                } else {
                    sub.queue.push(msg.clone());
                    proof {
                        assert(sub.queue.deep_view() =~= pre.queue.deep_view().push(msg@));
                        assert(sub.model() =~~= queue_append(pre.model(), msg@));
                    }
                }
            } else {
                proof {
                    assert(sub.model() =~~= queue_append(pre.model(), msg@));
                }
            }
            self.subs.insert(i, sub);
            proof {
                assert(self.subs@ =~= s0.update(i as int, sub));
                assert forall|j: int|
                    0 <= j < i + 1 implies self.subs@[j].model() == queue_append(
                    oldsubs[j].model(),
                    msg@,
                ) by {}
            }
            i = i + 1;
        }
        proof {
            assert(self.model().queues =~~= old(self).model().queues.map_values(
                |q: QueueModel| queue_append(q, msg@),
            ));
        }
    }

    /// Takes the oldest queued message of slot `id`, when the slot exists,
    /// is active and has one; everything else is left untouched.
    pub fn recv(&mut self, id: usize) -> (r: Option<String>)
        requires
            old(self).wf(),
        ensures
            final(self).wf(),
            final(self).members == old(self).members,
            match r {
                Some(msg) => {
                    &&& id < old(self).model().queues.len()
                    &&& old(self).model().queues[id as int].active
                    &&& old(self).model().queues[id as int].msgs.len() > 0
                    &&& msg@ == old(self).model().queues[id as int].msgs[0]
                    &&& final(self).model().queues == old(self).model().queues.update(
                        id as int,
                        QueueModel {
                            active: true,
                            msgs: old(self).model().queues[id as int].msgs.drop_first(),
                        },
                    )
                },
                None => {
                    &&& *final(self) == *old(self)
                    &&& (id < old(self).model().queues.len() ==> !old(
                        self,
                    ).model().queues[id as int].active || old(
                        self,
                    ).model().queues[id as int].msgs.len() == 0)
                },
            },
    {
        if id < self.subs.len() {
            if self.subs[id].active && self.subs[id].queue.len() > 0 {
                let mut sub = self.subs.remove(id);
                let msg = sub.queue.remove(0);
                self.subs.insert(id, sub);
                proof {
                    assert(self.model().queues =~~= old(self).model().queues.update(
                        id as int,
                        QueueModel {
                            active: true,
                            msgs: old(self).model().queues[id as int].msgs.drop_first(),
                        },
                    ));
                    assert(msg@ == old(self).model().queues[id as int].msgs[0]);
                }
                Some(msg)
            } else {
                None
            }
        } else {
            None
        }
    }
}

} // verus!
