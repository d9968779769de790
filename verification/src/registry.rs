//! The room registry: the single source of truth mapping room keys to
//! rooms. Rooms are created on demand, all membership changes go through
//! one critical section per call, and a room is torn down the moment its
//! last member leaves.

use vstd::prelude::*;

use crate::room::{member_index, lemma_member_index, queue_append, QueueModel, RoomModel, RoomState};

verus! {

/// One registry entry: a room under its key.
pub struct RoomEntry {
    pub key: String,
    pub state: RoomState,
}

impl RoomEntry {
    /// The entry as a model value.
    pub open spec fn model(self) -> (Seq<char>, RoomModel) {
        (self.key@, self.state.model())
    }
}

/// The registry model: the rooms in insertion order, each under its key.
pub type RegistryModel = Seq<(Seq<char>, RoomModel)>;

/// The index of the first entry under `k`, or `-1` when there is none.
pub open spec fn room_index(m: RegistryModel, k: Seq<char>) -> int
    decreases m.len(),
{
    if m.len() == 0 {
        -1
    } else if m[0].0 == k {
        0
    } else if room_index(m.drop_first(), k) < 0 {
        -1
    } else {
        room_index(m.drop_first(), k) + 1
    }
}

/// No key occurs twice.
pub open spec fn distinct_room_keys(m: RegistryModel) -> bool {
    forall|i: int, j: int| 0 <= i < j < m.len() ==> m[i].0 != m[j].0
}

/// What `room_index` returns: an in-range index holding `k` with no earlier
/// entry under `k`, or `-1` exactly when no entry is under `k`.
pub proof fn lemma_room_index(m: RegistryModel, k: Seq<char>)
    ensures
        -1 <= room_index(m, k) < m.len(),
        room_index(m, k) >= 0 ==> m[room_index(m, k)].0 == k,
        forall|j: int| 0 <= j < room_index(m, k) ==> m[j].0 != k,
        room_index(m, k) == -1 ==> forall|j: int| 0 <= j < m.len() ==> m[j].0 != k,
    decreases m.len(),
{
    if m.len() == 0 {
    } else if m[0].0 == k {
    } else {
        lemma_room_index(m.drop_first(), k);
        assert(forall|j: int| 0 <= j < m.drop_first().len() ==> m.drop_first()[j] == m[j + 1]);
        assert forall|j: int| 0 <= j < room_index(m, k) implies m[j].0 != k by {
            if j > 0 {
                assert(m.drop_first()[j - 1] == m[j]);
                assert(m.drop_first()[j - 1].0 != k);
            }
        }
        if room_index(m, k) == -1 {
            assert forall|j: int| 0 <= j < m.len() implies m[j].0 != k by {
                if j > 0 {
                    assert(m.drop_first()[j - 1] == m[j]);
                    assert(m.drop_first()[j - 1].0 != k);
                }
            }
        }
    }
}

/// `room_index` gives exactly `i` when `m[i]` is under `k` and no earlier
/// entry is.
pub proof fn lemma_room_index_is(m: RegistryModel, k: Seq<char>, i: int)
    requires
        0 <= i < m.len(),
        m[i].0 == k,
        forall|j: int| 0 <= j < i ==> m[j].0 != k,
    ensures
        room_index(m, k) == i,
    decreases i,
{
    if i == 0 {
    } else {
        assert(m[0].0 != k);
        assert(forall|j: int| 0 <= j < m.drop_first().len() ==> m.drop_first()[j] == m[j + 1]);
        lemma_room_index_is(m.drop_first(), k, i - 1);
    }
}

/// The registry transition of a successful join: the member is added to the
/// room under `k`, which is created fresh when absent.
pub open spec fn join_model(m: RegistryModel, k: Seq<char>, u: Seq<char>) -> RegistryModel {
    let i = room_index(m, k);
    if i >= 0 {
        m.update(i, (m[i].0, RoomModel { members: m[i].1.members.push(u), ..m[i].1 }))
    } else {
        m.push((k, RoomModel { members: seq![u], queues: Seq::empty() }))
    }
}

/// The registry transition of a leave: a no-op when the room or the member
/// is absent; else the member goes, and with it the whole room when it was
/// the last one.
pub open spec fn leave_model(m: RegistryModel, k: Seq<char>, u: Seq<char>) -> RegistryModel {
    let i = room_index(m, k);
    if i < 0 {
        m
    } else {
        let r = m[i].1;
        if !r.members.contains(u) {
            m
        } else {
            let ms = r.members.remove(member_index(r.members, u));
            if ms.len() == 0 {
                m.remove(i)
            } else {
                m.update(i, (m[i].0, RoomModel { members: ms, ..r }))
            }
        }
    }
}

/// The registry transition of opening a subscriber slot in the room under
/// `k`: a fresh active empty queue at the end of its queue list; a no-op
/// when the room is absent.
pub open spec fn subscribe_model(m: RegistryModel, k: Seq<char>) -> RegistryModel {
    let i = room_index(m, k);
    if i < 0 {
        m
    } else {
        m.update(
            i,
            (
                m[i].0,
                RoomModel {
                    queues: m[i].1.queues.push(QueueModel { active: true, msgs: Seq::empty() }),
                    ..m[i].1
                },
            ),
        )
    }
}

/// The registry transition of closing subscriber slot `id` of the room
/// under `k`: the slot turns inactive and its queue is dropped; a no-op
/// when the room or the slot is absent.
pub open spec fn unsubscribe_model(m: RegistryModel, k: Seq<char>, id: int) -> RegistryModel {
    let i = room_index(m, k);
    if i < 0 || id < 0 || id >= m[i].1.queues.len() {
        m
    } else {
        m.update(
            i,
            (
                m[i].0,
                RoomModel {
                    queues: m[i].1.queues.update(
                        id,
                        QueueModel { active: false, msgs: Seq::empty() },
                    ),
                    ..m[i].1
                },
            ),
        )
    }
}

/// The registry transition of a broadcast in the room under `k`: the
/// message is appended to every active subscriber queue of that room and of
/// no other; a no-op when the room is absent.
pub open spec fn broadcast_model(m: RegistryModel, k: Seq<char>, msg: Seq<char>) -> RegistryModel {
    let i = room_index(m, k);
    if i < 0 {
        m
    } else {
        m.update(
            i,
            (
                m[i].0,
                RoomModel {
                    queues: m[i].1.queues.map_values(|q: QueueModel| queue_append(q, msg)),
                    ..m[i].1
                },
            ),
        )
    }
}

/// The process-wide room registry.
pub struct RoomRegistry {
    pub rooms: Vec<RoomEntry>,
}

impl RoomRegistry {
    /// The registry as a model value.
    pub open spec fn model(self) -> RegistryModel {
        self.rooms@.map_values(|e: RoomEntry| e.model())
    }

    /// Every key at most once, every room well formed.
    pub open spec fn wf(self) -> bool {
        &&& distinct_room_keys(self.model())
        &&& forall|i: int| 0 <= i < self.rooms@.len() ==> (#[trigger] self.rooms@[i]).state.wf()
    }

    /// Whether a room exists under `k`.
    pub open spec fn has_room(self, k: Seq<char>) -> bool {
        room_index(self.model(), k) >= 0
    }

    /// Whether `u` is a member of the room under `k`.
    pub open spec fn room_has_member(self, k: Seq<char>, u: Seq<char>) -> bool {
        let m = self.model();
        let i = room_index(m, k);
        i >= 0 && m[i].1.members.contains(u)
    }

    /// An empty registry.
    pub fn new() -> (r: RoomRegistry)
        ensures
            r.wf(),
            r.model() =~= Seq::<(Seq<char>, RoomModel)>::empty(),
    {
        RoomRegistry { rooms: Vec::new() }
    }

    /// How many rooms exist.
    pub fn room_count(&self) -> (n: usize)
        ensures
            n == self.model().len(),
    {
        self.rooms.len()
    }

    /// The index of the room under `key`, when one exists.
    fn find_room(&self, key: &String) -> (r: Option<usize>)
        ensures
            match r {
                Some(i) => i as int == room_index(self.model(), key@) && (i as int)
                    < self.rooms@.len(),
                None => room_index(self.model(), key@) == -1,
            },
    {
        let ghost m = self.model();
        let mut i: usize = 0;
        while i < self.rooms.len()
            invariant
                i <= self.rooms@.len(),
                m == self.model(),
                forall|j: int| 0 <= j < i ==> m[j].0 != key@,
            decreases self.rooms@.len() - i,
        {
            if self.rooms[i].key == *key {
                proof {
                    assert(m[i as int].0 == key@);
                    lemma_room_index_is(m, key@, i as int);
                }
                return Some(i);
            }
            i = i + 1;
        }
        proof {
            lemma_room_index(m, key@);
            if room_index(m, key@) >= 0 {
                assert(m[room_index(m, key@)].0 != key@);
            }
        }
        None
    }

    /// Whether a room exists under `key`.
    pub fn contains_room(&self, key: &String) -> (r: bool)
        ensures
            r == self.has_room(key@),
    {
        match self.find_room(key) {
            Some(_) => true,
            None => false,
        }
    }

    /// How many members the room under `key` has, when it exists.
    pub fn member_count(&self, key: &String) -> (r: Option<usize>)
        ensures
            match r {
                Some(n) => self.has_room(key@) && n as int == self.model()[room_index(
                    self.model(),
                    key@,
                )].1.members.len(),
                None => !self.has_room(key@),
            },
    {
        match self.find_room(key) {
            Some(i) => Some(self.rooms[i].state.member_count()),
            None => None,
        }
    }

    /// Whether `user` is a member of the room under `key`.
    pub fn has_member(&self, key: &String, user: &String) -> (r: bool)
        ensures
            r == self.room_has_member(key@, user@),
    {
        match self.find_room(key) {
            Some(i) => self.rooms[i].state.contains_member(user),
            None => false,
        }
    }

    /// Returns the room under `key`, creating a fresh empty one when it is
    /// absent; the result is its current index. A room that already exists
    /// is left exactly as it was.
    pub fn get_or_create(&mut self, key: &String) -> (idx: usize)
        requires
            old(self).wf(),
        ensures
            final(self).wf(),
            (idx as int) < final(self).model().len(),
            final(self).model()[idx as int].0 == key@,
            idx as int == room_index(final(self).model(), key@),
            old(self).has_room(key@) ==> *final(self) == *old(self) && idx as int == room_index(
                old(self).model(),
                key@,
            ),
            !old(self).has_room(key@) ==> final(self).model() == old(self).model().push(
                (key@, RoomModel { members: Seq::empty(), queues: Seq::empty() }),
            ) && idx as int == old(self).model().len(),
    {
        let ghost m = old(self).model();
        proof {
            lemma_room_index(m, key@);
        }
        match self.find_room(key) {
            Some(i) => i,
            None => {
                let idx = self.rooms.len();
                self.rooms.push(RoomEntry { key: key.clone(), state: RoomState::new() });
                proof {
                    assert(self.model() =~~= m.push(
                        (key@, RoomModel { members: Seq::empty(), queues: Seq::empty() }),
                    ));
                    assert forall|j: int| 0 <= j < m.len() implies m[j].0 != key@ by {}
                    lemma_room_index_is(self.model(), key@, idx as int);
                    assert forall|a: int, b: int|
                        0 <= a < b < self.model().len() implies self.model()[a].0
                        != self.model()[b].0 by {}
                }
                idx
            },
        }
    }

    /// Under one critical section: fetches or creates the room under `key`
    /// and adds `user` to it, unless that identity is already a member of
    /// that room — then the join is rejected and nothing changes.
    pub fn join(&mut self, key: &String, user: &String) -> (accepted: bool)
        requires
            old(self).wf(),
        ensures
            final(self).wf(),
            accepted == !old(self).room_has_member(key@, user@),
            !accepted ==> *final(self) == *old(self),
            accepted ==> final(self).model() == join_model(old(self).model(), key@, user@),
            final(self).has_room(key@),
            accepted ==> final(self).room_has_member(key@, user@),
    {
        let ghost m = old(self).model();
        proof {
            lemma_room_index(m, key@);
        }
        let idx = self.get_or_create(key);
        let ghost m1 = self.model();
        if self.rooms[idx].state.contains_member(user) {
            proof {
                assert(old(self).has_room(key@));
                assert(*self == *old(self));
            }
            return false;
        }
        let ghost oldrooms = self.rooms@;
        let mut entry = self.rooms.remove(idx);
        let added = entry.state.add_member(user);
        self.rooms.insert(idx, entry);
        proof {
            assert(self.rooms@ =~= oldrooms.update(idx as int, entry));
            assert(self.model() =~~= m1.update(idx as int, (key@, entry.state.model())));
            assert(entry.state.model() =~~= RoomModel {
                members: m1[idx as int].1.members.push(user@),
                ..m1[idx as int].1
            });
            if room_index(m, key@) >= 0 {
                assert(self.model() =~~= join_model(m, key@, user@));
            } else {
                assert(m1 == m.push(
                    (key@, RoomModel { members: Seq::empty(), queues: Seq::empty() }),
                ));
                assert(Seq::<Seq<char>>::empty().push(user@) =~= seq![user@]);
                assert(self.model() =~~= join_model(m, key@, user@));
            }
            // well-formedness: keys unchanged, the one state stays well formed
            assert forall|a: int, b: int|
                0 <= a < b < self.model().len() implies self.model()[a].0 != self.model()[b].0 by {
                assert(m1[a].0 == self.model()[a].0 || a == idx as int);
                assert(m1[b].0 == self.model()[b].0 || b == idx as int);
            }
            assert forall|i: int| 0 <= i < self.rooms@.len() implies (
            #[trigger] self.rooms@[i]).state.wf() by {
                if i != idx as int {
                    assert(self.rooms@[i] == oldrooms[i]);
                }
            }
            // the room under the key now holds the member
            lemma_room_index_is(
                self.model(),
                key@,
                idx as int,
            );
            assert(self.model()[idx as int].1.members.contains(user@)) by {
                assert(self.model()[idx as int].1.members.last() == user@);
            }
        }
        true
    }

    /// Under one critical section: removes `user` from the room under
    /// `key`; when the member set becomes empty the room is removed
    /// entirely. A leave for an absent room or member changes nothing.
    pub fn leave(&mut self, key: &String, user: &String)
        requires
            old(self).wf(),
        ensures
            final(self).wf(),
            final(self).model() == leave_model(old(self).model(), key@, user@),
            !final(self).room_has_member(key@, user@),
            !old(self).room_has_member(key@, user@) ==> *final(self) == *old(self),
    {
        let ghost m = old(self).model();
        proof {
            lemma_room_index(m, key@);
        }
        let idx = match self.find_room(key) {
            None => {
                proof {
                    assert(self.model() == leave_model(m, key@, user@));
                }
                return ;
            },
            Some(i) => i,
        };
        if !self.rooms[idx].state.contains_member(user) {
            proof {
                assert(self.model() == leave_model(m, key@, user@));
            }
            return ;
        }
        let ghost oldrooms = self.rooms@;
        let ghost r = m[idx as int].1;
        let mut entry = self.rooms.remove(idx);
        entry.state.remove_member(user);
        proof {
            lemma_member_index(r.members, user@);
        }
        if entry.state.member_count() == 0 {
            proof {
                assert(self.rooms@ =~= oldrooms.remove(idx as int));
                assert(self.model() =~~= m.remove(idx as int));
                assert(r.members.remove(member_index(r.members, user@)).len() == 0);
                assert(self.model() =~~= leave_model(m, key@, user@));
                assert forall|a: int, b: int|
                    0 <= a < b < self.model().len() implies self.model()[a].0 != self.model()[b].0
                by {
                    let fa: int = if a < idx as int {
                        a
                    } else {
                        a + 1
                    };
                    let fb: int = if b < idx as int {
                        b
                    } else {
                        b + 1
                    };
                    assert(self.model()[a] == m[fa]);
                    assert(self.model()[b] == m[fb]);
                    assert(m[fa].0 != m[fb].0);
                }
                assert forall|i: int| 0 <= i < self.rooms@.len() implies (
                #[trigger] self.rooms@[i]).state.wf() by {
                    if i < idx as int {
                        assert(self.rooms@[i] == oldrooms[i]);
                    } else {
                        assert(self.rooms@[i] == oldrooms[i + 1]);
                    }
                }
                lemma_room_index(self.model(), key@);
                if room_index(self.model(), key@) >= 0 {
                    let j = room_index(self.model(), key@);
                    let fj: int = if j < idx as int {
                        j
                    } else {
                        j + 1
                    };
                    assert(self.model()[j] == m[fj]);
                    assert(m[fj].0 != key@);
                }
            }
        } else {
            self.rooms.insert(idx, entry);
            proof {
                assert(self.rooms@ =~= oldrooms.update(idx as int, entry));
                assert(self.model() =~~= m.update(idx as int, (key@, entry.state.model())));
                assert(entry.state.model() =~~= RoomModel {
                    members: r.members.remove(member_index(r.members, user@)),
                    ..r
                });
                assert(self.model() =~~= leave_model(m, key@, user@));
                assert forall|a: int, b: int|
                    0 <= a < b < self.model().len() implies self.model()[a].0 != self.model()[b].0
                by {
                    assert(m[a].0 == self.model()[a].0 || a == idx as int);
                    assert(m[b].0 == self.model()[b].0 || b == idx as int);
                }
                assert forall|i: int| 0 <= i < self.rooms@.len() implies (
                #[trigger] self.rooms@[i]).state.wf() by {
                    if i != idx as int {
                        assert(self.rooms@[i] == oldrooms[i]);
                    }
                }
                lemma_room_index_is(self.model(), key@, idx as int);
            }
        }
    }

    /// Opens a subscriber slot in the room under `key` and hands back its
    /// handle, or `None` when the room is absent.
    pub fn subscribe(&mut self, key: &String) -> (r: Option<usize>)
        requires
            old(self).wf(),
        ensures
            final(self).wf(),
            ({
                let m = old(self).model();
                let i = room_index(m, key@);
                match r {
                    None => i == -1 && *final(self) == *old(self),
                    Some(id) => i >= 0 && id as int == m[i].1.queues.len() && final(self).model()
                        == m.update(
                        i,
                        (
                            m[i].0,
                            RoomModel {
                                queues: m[i].1.queues.push(
                                    QueueModel { active: true, msgs: Seq::empty() },
                                ),
                                ..m[i].1
                            },
                        ),
                    ),
                }
            }),
    {
        let ghost m = old(self).model();
        proof {
            lemma_room_index(m, key@);
        }
        let idx = match self.find_room(key) {
            None => {
                return None;
            },
            Some(i) => i,
        };
        let ghost oldrooms = self.rooms@;
        let mut entry = self.rooms.remove(idx);
        let id = entry.state.subscribe();
        self.rooms.insert(idx, entry);
        proof {
            assert(self.rooms@ =~= oldrooms.update(idx as int, entry));
            assert(self.model() =~~= m.update(
                idx as int,
                (
                    m[idx as int].0,
                    RoomModel {
                        queues: m[idx as int].1.queues.push(
                            QueueModel { active: true, msgs: Seq::empty() },
                        ),
                        ..m[idx as int].1
                    },
                ),
            ));
            assert forall|a: int, b: int|
                0 <= a < b < self.model().len() implies self.model()[a].0 != self.model()[b].0 by {
                assert(m[a].0 == self.model()[a].0 || a == idx as int);
                assert(m[b].0 == self.model()[b].0 || b == idx as int);
            }
            assert forall|i: int| 0 <= i < self.rooms@.len() implies (
            #[trigger] self.rooms@[i]).state.wf() by {
                if i != idx as int {
                    assert(self.rooms@[i] == oldrooms[i]);
                }
            }
        }
        Some(id)
    }

    /// Closes subscriber slot `id` of the room under `key`; absent rooms
    /// and unknown handles are ignored.
    pub fn unsubscribe(&mut self, key: &String, id: usize)
        requires
            old(self).wf(),
        ensures
            final(self).wf(),
            ({
                let m = old(self).model();
                let i = room_index(m, key@);
                if i >= 0 && (id as int) < m[i].1.queues.len() {
                    final(self).model() == m.update(
                        i,
                        (
                            m[i].0,
                            RoomModel {
                                queues: m[i].1.queues.update(
                                    id as int,
                                    QueueModel { active: false, msgs: Seq::empty() },
                                ),
                                ..m[i].1
                            },
                        ),
                    )
                } else {
                    *final(self) == *old(self)
                }
            }),
    {
        let ghost m = old(self).model();
        proof {
            lemma_room_index(m, key@);
        }
        let idx = match self.find_room(key) {
            None => {
                return ;
            },
            Some(i) => i,
        };
        if id >= self.rooms[idx].state.subs.len() {
            return ;
        }
        let ghost oldrooms = self.rooms@;
        let mut entry = self.rooms.remove(idx);
        entry.state.unsubscribe(id);
        self.rooms.insert(idx, entry);
        proof {
            assert(self.rooms@ =~= oldrooms.update(idx as int, entry));
            assert(self.model() =~~= m.update(
                idx as int,
                (
                    m[idx as int].0,
                    RoomModel {
                        queues: m[idx as int].1.queues.update(
                            id as int,
                            QueueModel { active: false, msgs: Seq::empty() },
                        ),
                        ..m[idx as int].1
                    },
                ),
            ));
            assert forall|a: int, b: int|
                0 <= a < b < self.model().len() implies self.model()[a].0 != self.model()[b].0 by {
                assert(m[a].0 == self.model()[a].0 || a == idx as int);
                assert(m[b].0 == self.model()[b].0 || b == idx as int);
            }
            assert forall|i: int| 0 <= i < self.rooms@.len() implies (
            #[trigger] self.rooms@[i]).state.wf() by {
                if i != idx as int {
                    assert(self.rooms@[i] == oldrooms[i]);
                }
            }
        }
    }

    /// Delivers `msg` to every active subscriber of the room under `key`
    /// and to no subscriber of any other room; reports whether the room
    /// existed.
    pub fn broadcast(&mut self, key: &String, msg: &String) -> (delivered: bool)
        requires
            old(self).wf(),
        ensures
            final(self).wf(),
            delivered == old(self).has_room(key@),
            final(self).model() == broadcast_model(old(self).model(), key@, msg@),
            !delivered ==> *final(self) == *old(self),
    {
        let ghost m = old(self).model();
        proof {
            lemma_room_index(m, key@);
        }
        let idx = match self.find_room(key) {
            None => {
                return false;
            },
            Some(i) => i,
        };
        let ghost oldrooms = self.rooms@;
        let mut entry = self.rooms.remove(idx);
        entry.state.broadcast(msg);
        self.rooms.insert(idx, entry);
        proof {
            assert(self.rooms@ =~= oldrooms.update(idx as int, entry));
            assert(self.model() =~~= broadcast_model(m, key@, msg@));
            assert forall|a: int, b: int|
                0 <= a < b < self.model().len() implies self.model()[a].0 != self.model()[b].0 by {
                assert(m[a].0 == self.model()[a].0 || a == idx as int);
                assert(m[b].0 == self.model()[b].0 || b == idx as int);
            }
            assert forall|i: int| 0 <= i < self.rooms@.len() implies (
            #[trigger] self.rooms@[i]).state.wf() by {
                if i != idx as int {
                    assert(self.rooms@[i] == oldrooms[i]);
                }
            }
        }
        true
    }

    /// Takes the oldest undelivered message of subscriber slot `id` in the
    /// room under `key`, or `None` when there is nothing to take.
    pub fn recv(&mut self, key: &String, id: usize) -> (r: Option<String>)
        requires
            old(self).wf(),
        ensures
            final(self).wf(),
            ({
                let m = old(self).model();
                let i = room_index(m, key@);
                match r {
                    Some(msg) => i >= 0 && (id as int) < m[i].1.queues.len()
                        && m[i].1.queues[id as int].active && m[i].1.queues[id as int].msgs.len()
                        > 0 && msg@ == m[i].1.queues[id as int].msgs[0] && final(self).model()
                        == m.update(
                        i,
                        (
                            m[i].0,
                            RoomModel {
                                queues: m[i].1.queues.update(
                                    id as int,
                                    QueueModel {
                                        active: true,
                                        msgs: m[i].1.queues[id as int].msgs.drop_first(),
                                    },
                                ),
                                ..m[i].1
                            },
                        ),
                    ),
                    None => *final(self) == *old(self),
                }
            }),
    {
        let ghost m = old(self).model();
        proof {
            lemma_room_index(m, key@);
        }
        let idx = match self.find_room(key) {
            None => {
                return None;
            },
            Some(i) => i,
        };
        if id >= self.rooms[idx].state.subs.len() {
            return None;
        }
        if !(self.rooms[idx].state.subs[id].active && self.rooms[idx].state.subs[id].queue.len()
            > 0) {
            proof {
                assert(!m[idx as int].1.queues[id as int].active || m[
                    idx as int].1.queues[id as int].msgs.len() == 0);
            }
            return None;
        }
        let ghost oldrooms = self.rooms@;
        let mut entry = self.rooms.remove(idx);
        let r = entry.state.recv(id);
        self.rooms.insert(idx, entry);
        proof {
            assert(self.rooms@ =~= oldrooms.update(idx as int, entry));
            assert(r is Some);
            assert(self.model() =~~= m.update(
                idx as int,
                (
                    m[idx as int].0,
                    RoomModel {
                        queues: m[idx as int].1.queues.update(
                            id as int,
                            QueueModel {
                                active: true,
                                msgs: m[idx as int].1.queues[id as int].msgs.drop_first(),
                            },
                        ),
                        ..m[idx as int].1
                    },
                ),
            ));
            assert forall|a: int, b: int|
                0 <= a < b < self.model().len() implies self.model()[a].0 != self.model()[b].0 by {
                assert(m[a].0 == self.model()[a].0 || a == idx as int);
                assert(m[b].0 == self.model()[b].0 || b == idx as int);
            }
            assert forall|i: int| 0 <= i < self.rooms@.len() implies (
            #[trigger] self.rooms@[i]).state.wf() by {
                if i != idx as int {
                    assert(self.rooms@[i] == oldrooms[i]);
                }
            }
        }
        r
    }
}

} // verus!
