//! The per-connection session state machine: one socket's path through
//! `AwaitingJoin`, `Active`, `Closing` and `Closed`. The driver around it
//! reads and writes the socket and runs the two relay loops; every decision
//! — what a payload means, who may join, what is broadcast, what is torn
//! down — is taken here, against the registry.

use vstd::prelude::*;

use crate::codec::{
    decode_inbound, decode_join, encode_chat_message, encode_typing, inbound_of, join_request_of,
    presence_joined, presence_left, presence_joined_wire, presence_left_wire, typing_wire,
    chat_wire, InboundMessage, InboundModel,
};
use crate::registry::{
    broadcast_model, join_model, leave_model, lemma_room_index, lemma_room_index_is, room_index,
    subscribe_model, unsubscribe_model, RegistryModel, RoomRegistry,
};

verus! {

/// Where a session stands: waiting for its join request, actively relaying
/// for a room (holding its subscriber slot), closing after one relay ended,
/// or fully closed.
pub enum SessionState {
    AwaitingJoin,
    Active { room: String, sub: usize },
    Closing { room: String, sub: usize },
    Closed,
}

/// One connection's session: the verified identity it was opened with, the
/// timestamp its chat messages carry, and where it stands.
pub struct ConnectionSession {
    pub user: String,
    pub datetime: String,
    pub state: SessionState,
}

/// What handling the first message came to.
pub enum JoinOutcome {
    /// The session is active in its room.
    Joined,
    /// The payload was no join request: the reply is the parse-error
    /// message, and the session is closed without a room having been
    /// touched.
    ParseFailed,
    /// The identity is already active in that room: the reply says so, and
    /// the session is closed with the registry untouched.
    Rejected,
}

/// What handling an inbound payload came to.
pub enum InboundOutcome {
    /// The payload was broadcast to the session's room.
    Broadcast,
    /// The payload was malformed: terminal for this session, which moves to
    /// `Closing` with the registry untouched.
    DecodeFailed,
}

/// Which relay loop ended first.
pub enum RelayEnd {
    OutboundEnded,
    InboundEnded,
}

/// Which relay loop the driver must now cancel.
pub enum CancelAction {
    CancelInbound,
    CancelOutbound,
}

/// The registry after a session joined room `k` as `u`: membership added,
/// a subscriber slot opened, and the presence frame broadcast to the room —
/// the subscription standing before the broadcast, so the new member's own
/// slot sees it.
pub open spec fn joined_model(m: RegistryModel, k: Seq<char>, u: Seq<char>) -> RegistryModel {
    broadcast_model(subscribe_model(join_model(m, k, u), k), k, presence_joined_wire(u))
}

/// The registry after a session in room `k` as `u` with slot `sub` closed:
/// the slot is closed, the membership leaves (tearing the room down when it
/// was the last), and the presence frame is broadcast — skipped when the
/// room is already gone.
pub open spec fn closed_model(m: RegistryModel, k: Seq<char>, u: Seq<char>, sub: int) -> RegistryModel {
    let m1 = unsubscribe_model(m, k, sub);
    let m2 = leave_model(m1, k, u);
    if room_index(m2, k) >= 0 {
        broadcast_model(m2, k, presence_left_wire(u))
    } else {
        m2
    }
}

/// The reply sent when the first message cannot be parsed as a join
/// request.
pub fn parse_error_reply() -> (r: String)
    ensures
        r@ == "Failed to parse connect message"@,
{
    String::from_str("Failed to parse connect message")
}

/// The reply sent when the identity is already active in the room.
pub fn rejected_reply() -> (r: String)
    ensures
        r@ == "identity already in use"@,
{
    String::from_str("identity already in use")
}

/// Relies on `chrono::Local::now`: the current local time rendered as text.
/// The result depends on the clock, so nothing is promised of it.
#[verifier::external_body]
fn local_now_string() -> (r: String) {
    chrono::Local::now().to_string()
}

impl ConnectionSession {
    /// A fresh session for the verified identity `user_id`, stamping its
    /// messages with `datetime`.
    pub fn new(user_id: String, datetime: String) -> (s: ConnectionSession)
        ensures
            s.user == user_id,
            s.datetime == datetime,
            s.state is AwaitingJoin,
    {
        ConnectionSession { user: user_id, datetime, state: SessionState::AwaitingJoin }
    }

    /// A fresh session stamped with the clock's current reading.
    pub fn new_now(user_id: String) -> (s: ConnectionSession)
        ensures
            s.user == user_id,
            s.state is AwaitingJoin,
    {
        let datetime = local_now_string();
        ConnectionSession { user: user_id, datetime, state: SessionState::AwaitingJoin }
    }

    /// Handles the one message awaited in `AwaitingJoin`. A payload that is
    /// no join request closes the session with no room touched; a join for
    /// an identity already active in that room is rejected, not merged; a
    /// successful join adds the membership, subscribes, and broadcasts the
    /// joined presence frame to the room.
    pub fn handle_join_message(&mut self, reg: &mut RoomRegistry, text: &String) -> (outcome:
        JoinOutcome)
        requires
            old(reg).wf(),
            old(self).state is AwaitingJoin,
        ensures
            final(reg).wf(),
            final(self).user == old(self).user,
            final(self).datetime == old(self).datetime,
            match join_request_of(text@) {
                None => outcome is ParseFailed && final(self).state is Closed && *final(reg)
                    == *old(reg),
                Some(channel) => {
                    if old(reg).room_has_member(channel, old(self).user@) {
                        outcome is Rejected && final(self).state is Closed && *final(reg) == *old(
                            reg,
                        )
                    } else {
                        &&& outcome is Joined
                        &&& final(reg).model() == joined_model(
                            old(reg).model(),
                            channel,
                            old(self).user@,
                        )
                        &&& final(self).state matches SessionState::Active { room, sub }
                            && room@ == channel && sub as int == ({
                            let m1 = join_model(old(reg).model(), channel, old(self).user@);
                            m1[room_index(m1, channel)].1.queues.len()
                        })
                        &&& final(reg).room_has_member(channel, old(self).user@)
                    }
                },
            },
    {
        let channel = match decode_join(text.as_str()) {
            None => {
                self.state = SessionState::Closed;
                return JoinOutcome::ParseFailed;
            },
            Some(c) => c,
        };
        let accepted = reg.join(&channel, &self.user);
        if !accepted {
            self.state = SessionState::Closed;
            return JoinOutcome::Rejected;
        }
        let ghost m1 = join_model(old(reg).model(), channel@, old(self).user@);
        let sub = match reg.subscribe(&channel) {
            Some(s) => s,
            None => {
                proof {
                    assert(false);
                }
                0
            },
        };
        proof {
            assert(reg.model() =~~= subscribe_model(m1, channel@));
        }
        let ghost m2 = subscribe_model(m1, channel@);
        let msg = presence_joined(&self.user);
        reg.broadcast(&channel, &msg);
        proof {
            assert(reg.model() =~~= broadcast_model(m2, channel@, presence_joined_wire(
                old(self).user@,
            )));
            let u = old(self).user@;
            lemma_room_index(m1, channel@);
            let i = room_index(m1, channel@);
            assert(m2[i].0 == channel@);
            assert forall|j: int| 0 <= j < i implies m2[j].0 != channel@ by {
                assert(m2[j] == m1[j]);
            }
            lemma_room_index_is(m2, channel@, i);
            let m3 = broadcast_model(m2, channel@, presence_joined_wire(u));
            assert(m3[i].0 == channel@);
            assert forall|j: int| 0 <= j < i implies m3[j].0 != channel@ by {
                assert(m3[j] == m2[j]);
            }
            lemma_room_index_is(m3, channel@, i);
            assert(m3[i].1.members == m1[i].1.members);
            assert(reg.model() == joined_model(old(reg).model(), channel@, u));
            assert(reg.room_has_member(channel@, u));
        }
        self.state = SessionState::Active { room: channel, sub };
        JoinOutcome::Joined
    }

    /// Handles one payload read from the socket while `Active`: a typing
    /// indicator or a chat message is stamped with the session's identity
    /// and timestamp and broadcast to the room; a malformed payload is
    /// terminal and moves the session to `Closing`.
    pub fn handle_inbound_text(&mut self, reg: &mut RoomRegistry, text: &String) -> (outcome:
        InboundOutcome)
        requires
            old(reg).wf(),
            old(self).state matches SessionState::Active { .. },
        ensures
            final(reg).wf(),
            final(self).user == old(self).user,
            final(self).datetime == old(self).datetime,
            old(self).state matches SessionState::Active { room, sub } ==> match inbound_of(
                text@,
            ) {
                None => outcome is DecodeFailed && *final(reg) == *old(reg) && (final(self).state
                    matches SessionState::Closing { room: r2, sub: s2 } && r2 == room && s2 == sub),
                Some(im) => outcome is Broadcast && final(self).state == old(self).state && match im {
                    InboundModel::Typing => final(reg).model() == broadcast_model(
                        old(reg).model(),
                        room@,
                        typing_wire(old(self).user@),
                    ),
                    InboundModel::Chat { message, image, reply } => final(reg).model()
                        == broadcast_model(
                        old(reg).model(),
                        room@,
                        chat_wire(old(self).user@, old(self).datetime@, message, image, reply),
                    ),
                },
            },
    {
        let (room, sub) = match &self.state {
            SessionState::Active { room, sub } => (room.clone(), *sub),
            _ => {
                proof {
                    assert(false);
                }
                (String::new(), 0)
            },
        };
        match decode_inbound(text.as_str()) {
            None => {
                self.state = SessionState::Closing { room, sub };
                InboundOutcome::DecodeFailed
            },
            Some(InboundMessage::Typing) => {
                let msg = encode_typing(&self.user);
                reg.broadcast(&room, &msg);
                InboundOutcome::Broadcast
            },
            Some(InboundMessage::Chat { message, image, reply }) => {
                let msg = encode_chat_message(&self.user, &self.datetime, &message, &image, &reply);
                reg.broadcast(&room, &msg);
                InboundOutcome::Broadcast
            },
        }
    }

    /// The cancellation pairing: the instant either relay loop ends, the
    /// session leaves `Active` for `Closing`, and the driver is ordered to
    /// cancel the other relay of the same session — first exit wins, no
    /// negotiated shutdown.
    pub fn handle_relay_end(&mut self, ended: RelayEnd) -> (action: CancelAction)
        requires
            old(self).state matches SessionState::Active { .. } || old(self).state matches
                SessionState::Closing { .. },
        ensures
            final(self).user == old(self).user,
            final(self).datetime == old(self).datetime,
            old(self).state matches SessionState::Active { room, sub } ==> final(self).state
                matches SessionState::Closing { room: r2, sub: s2 } && r2 == room && s2 == sub,
            old(self).state matches SessionState::Closing { .. } ==> final(self).state == old(
                self,
            ).state,
            action == (match ended {
                RelayEnd::OutboundEnded => CancelAction::CancelInbound,
                RelayEnd::InboundEnded => CancelAction::CancelOutbound,
            }),
    {
        let next = match &self.state {
            SessionState::Active { room, sub } => SessionState::Closing {
                room: room.clone(),
                sub: *sub,
            },
            SessionState::Closing { room, sub } => SessionState::Closing {
                room: room.clone(),
                sub: *sub,
            },
            _ => {
                proof {
                    assert(false);
                }
                SessionState::Closed
            },
        };
        let ghost pre = self.state;
        self.state = next;
        proof {
            match pre {
                SessionState::Closing { room, sub } => {
                    assert(self.state == pre);
                },
                _ => {},
            }
        }
        match ended {
            RelayEnd::OutboundEnded => CancelAction::CancelInbound,
            RelayEnd::InboundEnded => CancelAction::CancelOutbound,
        }
    }

    /// The final cleanup: the subscriber slot is closed, the membership
    /// leaves — the room is torn down when it was the last — and the left
    /// presence frame is broadcast to whatever remains of the room; after a
    /// teardown it is simply skipped. Closing a session that never joined,
    /// or closing twice, changes nothing.
    pub fn finish(&mut self, reg: &mut RoomRegistry)
        requires
            old(reg).wf(),
        ensures
            final(reg).wf(),
            final(self).user == old(self).user,
            final(self).datetime == old(self).datetime,
            final(self).state is Closed,
            match old(self).state {
                SessionState::Active { room, sub } => final(reg).model() == closed_model(
                    old(reg).model(),
                    room@,
                    old(self).user@,
                    sub as int,
                ),
                SessionState::Closing { room, sub } => final(reg).model() == closed_model(
                    old(reg).model(),
                    room@,
                    old(self).user@,
                    sub as int,
                ),
                _ => *final(reg) == *old(reg),
            },
    {
        let (room, sub) = match &self.state {
            SessionState::Active { room, sub } => (room.clone(), *sub),
            SessionState::Closing { room, sub } => (room.clone(), *sub),
            _ => {
                self.state = SessionState::Closed;
                return ;
            },
        };
        let ghost m = old(reg).model();
        reg.unsubscribe(&room, sub);
        proof {
            crate::registry::lemma_room_index(m, room@);
            assert(reg.model() =~~= unsubscribe_model(m, room@, sub as int));
        }
        let ghost m1 = unsubscribe_model(m, room@, sub as int);
        reg.leave(&room, &self.user);
        let ghost m2 = leave_model(m1, room@, self.user@);
        if reg.contains_room(&room) {
            let msg = presence_left(&self.user);
            reg.broadcast(&room, &msg);
            proof {
                assert(reg.model() =~~= broadcast_model(m2, room@, presence_left_wire(
                    old(self).user@,
                )));
            }
        }
        self.state = SessionState::Closed;
    }
}

} // verus!
