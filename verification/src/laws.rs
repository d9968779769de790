//! The registry's guarantees, stated and proved over the registry model:
//! membership uniqueness, room teardown, fan-out isolation and idempotent
//! leaves.

use vstd::prelude::*;

use crate::room::{distinct_seqs, member_index, lemma_member_index, queue_append};
use crate::registry::{
    broadcast_model, distinct_room_keys, leave_model, lemma_room_index, lemma_room_index_is,
    room_index, RegistryModel, RoomRegistry,
};

verus! {

/// Validity of a registry model: keys at most once, and each room's members
/// at most once.
pub open spec fn model_wf(m: RegistryModel) -> bool {
    &&& distinct_room_keys(m)
    &&& forall|i: int| 0 <= i < m.len() ==> distinct_seqs((#[trigger] m[i]).1.members)
}

/// A well-formed registry has a valid model.
pub proof fn lemma_wf_model(reg: RoomRegistry)
    requires
        reg.wf(),
    ensures
        model_wf(reg.model()),
{
    assert forall|i: int| 0 <= i < reg.model().len() implies distinct_seqs(
        (#[trigger] reg.model()[i]).1.members,
    ) by {
        assert(reg.rooms@[i].state.wf());
        assert(reg.model()[i].1 == reg.rooms@[i].state.model());
    }
}

/// Membership is unique: in a valid registry, an identity holds membership
/// of a room at most once, so two member positions carrying the same
/// identity are the same position.
pub proof fn lemma_membership_unique(m: RegistryModel, k: Seq<char>, a: int, b: int)
    requires
        model_wf(m),
        room_index(m, k) >= 0,
        0 <= a < m[room_index(m, k)].1.members.len(),
        0 <= b < m[room_index(m, k)].1.members.len(),
        m[room_index(m, k)].1.members[a] == m[room_index(m, k)].1.members[b],
    ensures
        a == b,
{
    lemma_room_index(m, k);
    let i = room_index(m, k);
    assert(distinct_seqs(m[i].1.members));
}

/// Removing the one occurrence of `u` from a duplicate-free member list
/// leaves a list without `u`.
proof fn lemma_remove_only_occurrence(s: Seq<Seq<char>>, u: Seq<char>)
    requires
        distinct_seqs(s),
        s.contains(u),
    ensures
        !s.remove(member_index(s, u)).contains(u),
        distinct_seqs(s.remove(member_index(s, u))),
        s.remove(member_index(s, u)).len() == s.len() - 1,
{
    lemma_member_index(s, u);
    let i = member_index(s, u);
    s.remove_ensures(i);
    let t = s.remove(i);
    assert forall|j: int| 0 <= j < t.len() implies t[j] != u by {
        if j < i {
            assert(t[j] == s[j]);
        } else {
            assert(t[j] == s[j + 1]);
            assert(s[i] != s[j + 1]);
        }
    }
    if t.contains(u) {
        let w = choose|w: int| 0 <= w < t.len() && t[w] == u;
        assert(t[w] != u);
    }
    assert forall|a: int, b: int| 0 <= a < b < t.len() implies t[a] != t[b] by {
        let fa: int = if a < i {
            a
        } else {
            a + 1
        };
        let fb: int = if b < i {
            b
        } else {
            b + 1
        };
        if a < i {
            assert(t[a] == s[a]);
        } else {
            assert(t[a] == s[a + 1]);
        }
        if b < i {
            assert(t[b] == s[b]);
        } else {
            assert(t[b] == s[b + 1]);
        }
        assert(s[fa] != s[fb]);
    }
}

/// Teardown: when `u` is the last member of the room under `k`, the leave
/// removes the room from the registry altogether.
pub proof fn lemma_leave_teardown(m: RegistryModel, k: Seq<char>, u: Seq<char>)
    requires
        model_wf(m),
        room_index(m, k) >= 0,
        m[room_index(m, k)].1.members.len() == 1,
        m[room_index(m, k)].1.members[0] == u,
    ensures
        room_index(leave_model(m, k, u), k) == -1,
{
    lemma_room_index(m, k);
    let i = room_index(m, k);
    let s = m[i].1.members;
    assert(s.contains(u)) by {
        assert(s[0] == u && s.len() == 1);
    }
    lemma_member_index(s, u);
    assert(member_index(s, u) == 0);
    assert(s.remove(0) =~= Seq::<Seq<char>>::empty());
    let m2 = leave_model(m, k, u);
    assert(m2 == m.remove(i));
    m.remove_ensures(i);
    assert forall|j: int| 0 <= j < m2.len() implies m2[j].0 != k by {
        if j < i {
            assert(m2[j] == m[j]);
        } else {
            assert(m2[j] == m[j + 1]);
            assert(m[i].0 != m[j + 1].0);
            assert(m[i].0 == k);
        }
    }
    lemma_room_index(m2, k);
    if room_index(m2, k) >= 0 {
        assert(m2[room_index(m2, k)].0 != k);
    }
}

/// Idempotent leave: leaving the same room twice with the same identity,
/// or leaving an unknown room or membership, has the effect of the single
/// leave alone.
pub proof fn lemma_leave_idempotent(m: RegistryModel, k: Seq<char>, u: Seq<char>)
    requires
        model_wf(m),
    ensures
        leave_model(leave_model(m, k, u), k, u) == leave_model(m, k, u),
{
    lemma_room_index(m, k);
    let i = room_index(m, k);
    if i < 0 {
    } else {
        let r = m[i].1;
        if !r.members.contains(u) {
        } else {
            assert(distinct_seqs(r.members));
            lemma_remove_only_occurrence(r.members, u);
            let ms = r.members.remove(member_index(r.members, u));
            if ms.len() == 0 {
                assert(r.members.len() == 1);
                lemma_member_index(r.members, u);
                assert(r.members[member_index(r.members, u)] == u);
                assert(member_index(r.members, u) == 0);
                lemma_leave_teardown(m, k, u);
            } else {
                let m2 = leave_model(m, k, u);
                assert(m2 == m.update(i, (m[i].0, crate::room::RoomModel { members: ms, ..r })));
                assert(m2[i].0 == m[i].0);
                assert(m[i].0 == k);
                assert forall|j: int| 0 <= j < i implies m2[j].0 != k by {
                    assert(m2[j] == m[j]);
                }
                lemma_room_index_is(m2, k, i);
                assert(!m2[i].1.members.contains(u));
            }
        }
    }
}

/// Fan-out isolation: a broadcast in the room under `k` appends the message
/// to every active subscriber queue of that room, drops no inactive queue's
/// contents, leaves the room's membership alone, and leaves every other
/// room exactly as it was.
pub proof fn lemma_broadcast_isolated(m: RegistryModel, k: Seq<char>, msg: Seq<char>)
    requires
        room_index(m, k) >= 0,
    ensures
        broadcast_model(m, k, msg).len() == m.len(),
        forall|j: int|
            0 <= j < m.len() && j != room_index(m, k) ==> broadcast_model(m, k, msg)[j] == m[j],
        broadcast_model(m, k, msg)[room_index(m, k)].0 == m[room_index(m, k)].0,
        broadcast_model(m, k, msg)[room_index(m, k)].1.members == m[room_index(m, k)].1.members,
        broadcast_model(m, k, msg)[room_index(m, k)].1.queues.len() == m[room_index(
            m,
            k,
        )].1.queues.len(),
        forall|q: int|
            0 <= q < m[room_index(m, k)].1.queues.len() ==> broadcast_model(m, k, msg)[room_index(
                m,
                k,
            )].1.queues[q] == queue_append(m[room_index(m, k)].1.queues[q], msg),
        forall|q: int|
            0 <= q < m[room_index(m, k)].1.queues.len() && m[room_index(m, k)].1.queues[q].active
                ==> broadcast_model(m, k, msg)[room_index(m, k)].1.queues[q].msgs.last() == msg,
{
    lemma_room_index(m, k);
    let i = room_index(m, k);
    let m2 = broadcast_model(m, k, msg);
    assert forall|q: int| 0 <= q < m[i].1.queues.len() implies m2[i].1.queues[q] == queue_append(
        m[i].1.queues[q],
        msg,
    ) by {}
    assert forall|q: int|
        0 <= q < m[i].1.queues.len() && m[i].1.queues[q].active implies m2[i].1.queues[q].msgs.last()
        == msg by {
        assert(m2[i].1.queues[q] == queue_append(m[i].1.queues[q], msg));
    }
}

/// Order preservation: frames broadcast one after the other stand in a
/// subscriber's queue in that order, as long as the queue does not
/// overflow — one sender's messages are relayed sequentially, so its
/// frames reach every subscriber in origination order.
pub proof fn lemma_queue_fifo(q: crate::room::QueueModel, m1: Seq<char>, m2: Seq<char>)
    requires
        q.active,
        q.msgs.len() + 2 <= crate::room::QUEUE_CAPACITY,
    ensures
        queue_append(queue_append(q, m1), m2).msgs.len() == q.msgs.len() + 2,
        queue_append(queue_append(q, m1), m2).msgs[q.msgs.len() as int] == m1,
        queue_append(queue_append(q, m1), m2).msgs.last() == m2,
{
}

} // verus!

