//! Our own part in sessions, and the media keys that come with it.

use vstd::prelude::*;
use crate::encryption::inbound::KeyEvent;
use crate::encryption::types::ReceivedEncryptionKey;
use crate::encryption::PendingSignal;
use crate::encryption::signals::signal_views;
use crate::error::CommandError;
use crate::manager::membership::law_own_part_is_no_room_state;
use crate::manager::{RtcSessionManager, SessionEntry};
use crate::participation::{same_members, Participation};
use crate::roster::RtcSession;
use crate::session::JoinedMembership;
use crate::text::same_text;

verus! {

/// What came of offering a key to one session.
pub type Offer = Result<Option<KeyEvent>, CommandError>;

/// What one session had to say of a key.
#[derive(Debug)]
pub struct SessionEvent {
    /// The session's place among the sessions.
    pub at: usize,
    /// What became of the key.
    pub event: KeyEvent,
}

/// What the sessions had to say of a key, in order.
pub open spec fn told(offers: Seq<Offer>) -> Seq<SessionEvent>
    decreases offers.len(),
{
    if offers.len() == 0 {
        Seq::empty()
    } else {
        let earlier = told(offers.drop_last());
        match offers.last() {
            Ok(Some(event)) => earlier.push(
                SessionEvent { at: (offers.len() - 1) as usize, event },
            ),
            _ => earlier,
        }
    }
}

/// Whether offering a key to a session that is, or is not, in the key's room leads
/// to `after` and `offer`.
pub open spec fn answered(
    before: SessionEntry,
    received: ReceivedEncryptionKey,
    now: u64,
    after: SessionEntry,
    offer: Offer,
) -> bool {
    &&& after.key == before.key
    &&& if before.key.room_id@ == received.room_id@ {
        before.session.offered(received, now, after.session, offer)
    } else {
        offer matches Ok(None) && after.session == before.session
    }
}

impl RtcSessionManager {
    /// The part we have in a session, if there is such a session and we are in it.
    pub open spec fn part(self, room_id: Seq<char>, slot_id: Seq<char>) -> Option<Participation> {
        if self.has(room_id, slot_id) {
            self.sessions@[self.place(room_id, slot_id)].session.own
        } else {
            None
        }
    }

    /// Where a session stands.
    pub open spec fn place(self, room_id: Seq<char>, slot_id: Seq<char>) -> int {
        choose|i: int| self.has_at(room_id, slot_id, i)
    }

    /// A session stands in one place.
    pub proof fn lemma_place(self, room_id: Seq<char>, slot_id: Seq<char>, i: int)
        requires
            self.wf(),
            self.has_at(room_id, slot_id, i),
        ensures
            self.place(room_id, slot_id) == i,
    {
        let j = self.place(room_id, slot_id);
        assert(self.has_at(room_id, slot_id, j));
        if i < j {
            assert(!self.sessions@[i].key.names(
                self.sessions@[j].key.room_id@,
                self.sessions@[j].key.slot_id@,
            ));
        } else if j < i {
            assert(!self.sessions@[j].key.names(
                self.sessions@[i].key.room_id@,
                self.sessions@[i].key.slot_id@,
            ));
        }
    }

    /// The part we have in a session.
    fn part_in(&self, room_id: &str, slot_id: &str) -> (part: Option<&Participation>)
        requires
            self.wf(),
        ensures
            match part {
                Some(part) => self.part(room_id@, slot_id@) == Some(*part) && part.wf(),
                None => self.part(room_id@, slot_id@) is None,
            },
    {
        match self.find(room_id, slot_id) {
            Some(i) => {
                proof {
                    self.lemma_place(room_id@, slot_id@, i as int);
                    assert(self.has(room_id@, slot_id@));
                    assert(self.sessions@[i as int].session.wf());
                }
                match &self.sessions[i].session.own {
                    Some(part) => Some(part),
                    None => None,
                }
            },
            None => None,
        }
    }

    /// Our member id in a session, while we are in it. It changes with every join.
    pub fn own_member_id(&self, room_id: &str, slot_id: &str) -> (id: Option<String>)
        requires
            self.wf(),
        ensures
            match self.part(room_id@, slot_id@) {
                Some(part) => id matches Some(id) && id@ == part.member_id(),
                None => id is None,
            },
    {
        match self.part_in(room_id, slot_id) {
            Some(part) => Some(part.membership.sticky_key().to_owned()),
            None => None,
        }
    }

    /// The event that represents us in a session, while we are in it. It changes
    /// with every refresh.
    pub fn own_membership_event_id(&self, room_id: &str, slot_id: &str) -> (id: Option<String>)
        requires
            self.wf(),
        ensures
            id == (match self.part(room_id@, slot_id@) {
                Some(part) => part.membership.latest_event_id,
                None => None,
            }),
    {
        match self.part_in(room_id, slot_id) {
            Some(part) => part.membership.membership_event_id(),
            None => None,
        }
    }

    /// When our media key in a session has to be replaced, while we are in it.
    pub fn key_rotation_due_at_ms(&self, room_id: &str, slot_id: &str) -> (due_at: Option<u64>)
        requires
            self.wf(),
        ensures
            due_at == (match self.part(room_id@, slot_id@) {
                Some(part) => part.keys.rotation_due_at,
                None => None,
            }),
    {
        match self.part_in(room_id, slot_id) {
            Some(part) => part.keys.rotation_due_at_ms(),
            None => None,
        }
    }

    /// Whether a rotation of our media key that was put off has fallen due; `None`
    /// if we are not in the session.
    pub fn flush_due_key_rotation(&self, room_id: &str, slot_id: &str, now: u64) -> (due: Option<
        bool,
    >)
        requires
            self.wf(),
        ensures
            due == (match self.part(room_id@, slot_id@) {
                Some(part) => Some(
                    part.keys.rotation_due_at matches Some(due_at) && now >= due_at,
                ),
                None => None,
            }),
    {
        match self.part_in(room_id, slot_id) {
            Some(part) => Some(part.keys.flush_due_rotation(now)),
            None => None,
        }
    }

    /// Whether `after` and `set` are what noting a listener for the media keys of a
    /// session leads to.
    pub open spec fn noted_listener(
        self,
        room_id: Seq<char>,
        slot_id: Seq<char>,
        after: RtcSessionManager,
        set: bool,
    ) -> bool {
        &&& set == (self.part(room_id, slot_id) is Some)
        &&& if set {
            let i = self.place(room_id, slot_id);
            let before = self.sessions@[i].session;
            let part = before.own->0;
            &&& self.with_session_at(i, after)
            &&& after.sessions@[i].session == (RtcSession {
                own: Some(
                    Participation {
                        keys: crate::encryption::EncryptionManager {
                            has_signal_handler: true,
                            ..part.keys
                        },
                        ..part
                    },
                ),
                ..before
            })
        } else {
            after.sessions@ == self.sessions@ && after == (RtcSessionManager {
                sessions: after.sessions,
                ..self
            })
        }
    }

    /// Notes that something listens for the media keys of a session. Whether we
    /// are in it.
    pub fn set_encryption_signal_handler(&mut self, room_id: &str, slot_id: &str) -> (set: bool)
        requires
            old(self).wf(),
        ensures
            final(self).wf(),
            old(self).noted_listener(room_id@, slot_id@, *final(self), set),
    {
        match self.find(room_id, slot_id) {
            Some(i) => {
                let ghost before = *self;
                proof {
                    self.lemma_place(room_id@, slot_id@, i as int);
                    assert(self.has(room_id@, slot_id@));
                    assert(self.sessions@[i as int].session.wf());
                }
                match self.sessions[i].session.own.take() {
                    Some(mut part) => {
                        part.keys.set_signal_handler();
                        self.sessions[i].session.own = Some(part);
                        proof {
                            assert(self.sessions@ =~= before.sessions@.update(
                                i as int,
                                self.sessions@[i as int],
                            ));
                            law_own_part_is_no_room_state(before, *self, i as int);
                        }
                        true
                    },
                    None => {
                        proof {
                            assert(self.sessions@ =~= before.sessions@);
                            assert(self.sessions@ =~= before.sessions@.update(
                                i as int,
                                self.sessions@[i as int],
                            ));
                            law_own_part_is_no_room_state(before, *self, i as int);
                        }
                        false
                    },
                }
            },
            None => false,
        }
    }

    /// Whether offering a key to the sessions came to `offers`, and led to `after`,
    /// `events` and `result`.
    pub open spec fn came_to(
        self,
        received: ReceivedEncryptionKey,
        now: u64,
        after: RtcSessionManager,
        offers: Seq<Offer>,
        events: Seq<SessionEvent>,
        result: Result<(), CommandError>,
    ) -> bool {
        &&& offers.len() <= self.sessions@.len()
        &&& events == told(offers)
        &&& forall|i: int|
            0 <= i < offers.len() ==> answered(
                self.sessions@[i],
                received,
                now,
                after.sessions@[i],
                #[trigger] offers[i],
            )
        &&& forall|i: int|
            offers.len() <= i < self.sessions@.len() ==> (#[trigger] after.sessions@[i])
                == self.sessions@[i]
        &&& forall|i: int|
            0 <= i < offers.len() && (#[trigger] offers[i]) is Err ==> i == offers.len() - 1
        &&& match result {
            Ok(()) => offers.len() == self.sessions@.len() && forall|i: int|
                0 <= i < offers.len() ==> (#[trigger] offers[i]) is Ok,
            Err(error) => offers.len() > 0 && offers.last() == Err::<
                Option<KeyEvent>,
                CommandError,
            >(error),
        }
    }

    /// Offers a media key to every session of the room it names: the message says
    /// nothing of a slot. Sessions are asked in order, up to the first that fails;
    /// the events of those asked are handed back with how it went.
    pub fn receive_encryption_key(&mut self, received: ReceivedEncryptionKey, now: u64) -> (result: (
        Vec<SessionEvent>,
        Result<(), CommandError>,
    ))
        requires
            old(self).wf(),
        ensures
            final(self).wf(),
            *final(self) == (RtcSessionManager { sessions: final(self).sessions, ..*old(self) }),
            final(self).sessions@.len() == old(self).sessions@.len(),
            exists|offers: Seq<Offer>|
                result.0@ == #[trigger] told(offers) && old(self).came_to(
                    received,
                    now,
                    *final(self),
                    offers,
                    result.0@,
                    result.1,
                ),
    {
        let mut events: Vec<SessionEvent> = Vec::new();
        let ghost before = *self;
        let ghost mut offers: Seq<Offer> = Seq::empty();
        let mut i: usize = 0;
        assert(told(offers) =~= Seq::<SessionEvent>::empty());
        while i < self.sessions.len()
            invariant
                before == *old(self),
                self.wf(),
                *self == (RtcSessionManager { sessions: self.sessions, ..before }),
                self.sessions@.len() == before.sessions@.len(),
                i <= self.sessions@.len(),
                offers.len() == i,
                events@ == told(offers),
                forall|j: int|
                    0 <= j < i ==> answered(
                        before.sessions@[j],
                        received,
                        now,
                        self.sessions@[j],
                        #[trigger] offers[j],
                    ),
                forall|j: int|
                    i <= j < before.sessions@.len() ==> (#[trigger] self.sessions@[j])
                        == before.sessions@[j],
                forall|j: int| 0 <= j < i ==> (#[trigger] offers[j]) is Ok,
            decreases self.sessions@.len() - i,
        {
            let ghost held = *self;
            let ghost asked = offers;
            assert(self.sessions@[i as int].session.wf());
            if same_text(self.sessions[i].key.room_id.as_str(), received.room_id.as_str()) {
                let copy: ReceivedEncryptionKey = received.clone();
                let offer: Offer = self.sessions[i].session.receive_encryption_key(copy, now);
                proof {
                    offers = asked.push(offer);
                    assert(offers.drop_last() =~= asked);
                    assert(self.sessions@ =~= held.sessions@.update(
                        i as int,
                        self.sessions@[i as int],
                    ));
                    law_own_part_is_no_room_state(held, *self, i as int);
                    assert forall|j: int| 0 <= j < i + 1 implies answered(
                        before.sessions@[j],
                        received,
                        now,
                        self.sessions@[j],
                        #[trigger] offers[j],
                    ) by {
                        if j < i {
                            assert(offers[j] == asked[j]);
                        }
                    }
                }
                match offer {
                    Ok(Some(event)) => {
                        events.push(SessionEvent { at: i, event });
                        assert(events@ =~= told(offers));
                    },
                    Ok(None) => {
                        assert(events@ =~= told(offers));
                    },
                    Err(error) => {
                        assert(events@ =~= told(offers));
                        let result: Result<(), CommandError> = Err(error);
                        assert(old(self).came_to(received, now, *self, offers, events@, result));
                        return (events, result);
                    },
                }
            } else {
                proof {
                    let none: Offer = Ok(None);
                    offers = asked.push(none);
                    assert(offers.drop_last() =~= asked);
                    assert(events@ =~= told(offers));
                    assert forall|j: int| 0 <= j < i + 1 implies answered(
                        before.sessions@[j],
                        received,
                        now,
                        self.sessions@[j],
                        #[trigger] offers[j],
                    ) by {
                        if j < i {
                            assert(offers[j] == asked[j]);
                        }
                    }
                }
            }
            i = i + 1;
        }
        let result: Result<(), CommandError> = Ok(());
        assert(old(self).came_to(received, now, *self, offers, events@, result));
        (events, result)
    }

    /// Signals every media key of a session once more, for an application that
    /// began to listen only now; `None` if we are not in it.
    pub fn replay_encryption_keys(&self, room_id: &str, slot_id: &str, now: u64) -> (signals: Option<
        Vec<PendingSignal>,
    >)
        requires
            self.wf(),
        ensures
            match self.part(room_id@, slot_id@) {
                Some(part) => {
                    &&& signals is Some
                    &&& exists|members: Seq<JoinedMembership>|
                        {
                            &&& #[trigger] same_members(
                                members,
                                self.sessions@[self.place(room_id@, slot_id@)].session.roster(),
                            )
                            &&& signal_views(signals->0@) == part.keys.replayed(members, now)
                        }
                },
                None => signals is None,
            },
    {
        match self.find(room_id, slot_id) {
            Some(i) => {
                proof {
                    self.lemma_place(room_id@, slot_id@, i as int);
                    assert(self.has(room_id@, slot_id@));
                }
                match &self.sessions[i].session.own {
                    Some(part) => {
                        let members: Vec<JoinedMembership> = self.sessions[i].session.members();
                        let signals: Vec<PendingSignal> = part.keys.replay_keys_to_handler(
                            &members,
                            now,
                        );
                        assert(same_members(
                            members@,
                            self.sessions@[i as int].session.roster(),
                        ));
                        Some(signals)
                    },
                    None => None,
                }
            },
            None => None,
        }
    }
}

} // verus!
