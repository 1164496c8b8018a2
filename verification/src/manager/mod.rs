//! All sessions of all rooms, and the room state that governs them.
//!
//! Room state is kept beside the sessions as well as on them, so that what was
//! said of a room before a session existed governs it all the same.

use vstd::prelude::*;
use crate::roster::{holds_text, listed, RtcSession};
use crate::seqs::{lemma_filter_next, lemma_filter_none, lemma_take_all};
use crate::slot::{RawSlotEvent, RoomEncryption, SlotState};
use crate::table::TextMap;
use crate::text::{clone_texts, joined_with, same_text, texts};

pub mod attendance;
pub mod control;
pub mod debug;
pub mod keys;
pub mod membership;
pub mod own;
pub mod rooms;
pub mod summary;

verus! {

/// Where a session is: a room, and a slot in it.
#[derive(Debug, PartialEq, Eq)]
pub struct SessionKey {
    /// The room.
    pub room_id: String,
    /// The slot.
    pub slot_id: String,
}

impl SessionKey {
    /// Names a session.
    pub fn new(room_id: String, slot_id: String) -> (key: SessionKey)
        ensures
            key == (SessionKey { room_id, slot_id }),
    {
        SessionKey { room_id, slot_id }
    }

    /// Whether this names the session of a slot of a room.
    pub open spec fn names(self, room_id: Seq<char>, slot_id: Seq<char>) -> bool {
        self.room_id@ == room_id && self.slot_id@ == slot_id
    }

    /// The key in words: `room/slot`.
    pub fn describe(&self) -> (text: String)
        ensures
            text@ == self.room_id@ + "/"@ + self.slot_id@,
    {
        joined_with(self.room_id.as_str(), "/", self.slot_id.as_str())
    }
}

/// A session, under its key.
#[derive(Debug)]
pub struct SessionEntry {
    /// Where it is.
    pub key: SessionKey,
    /// The session.
    pub session: RtcSession,
}

/// Holds all sessions, and what is known of their rooms.
#[derive(Debug)]
pub struct RtcSessionManager {
    /// The sessions, in the order they came up.
    pub sessions: Vec<SessionEntry>,
    /// The slot events of the rooms whose slots are known. They are kept as they
    /// came, because what a slot amounts to also depends on the room's
    /// encryption; of two for one slot the later counts.
    pub slots: Vec<RawSlotEvent>,
    /// The rooms whose slots are known. A slot of such a room that no event names
    /// is closed.
    pub rooms_with_slot_state: Vec<String>,
    /// The users in each room where they are known.
    pub room_members: TextMap<Vec<String>>,
    /// Whether each room is encrypted, where it is known.
    pub room_encryption: TextMap<RoomEncryption>,
    /// Whether there is anything to send commands with.
    pub has_sender: bool,
}

/// The event that counts for a slot.
pub open spec fn slot_event(
    slots: Seq<RawSlotEvent>,
    room_id: Seq<char>,
    slot_id: Seq<char>,
) -> Option<RawSlotEvent>
    decreases slots.len(),
{
    if slots.len() == 0 {
        None
    } else if slots.last().room_id@ == room_id && slots.last().slot_id@ == slot_id {
        Some(slots.last())
    } else {
        slot_event(slots.drop_last(), room_id, slot_id)
    }
}

/// Picks the slot events of a room.
pub open spec fn within(room_id: Seq<char>) -> spec_fn(RawSlotEvent) -> bool {
    |slot: RawSlotEvent| slot.room_id@ == room_id
}

/// Picks the slot events of every other room.
pub open spec fn elsewhere(room_id: Seq<char>) -> spec_fn(RawSlotEvent) -> bool {
    |slot: RawSlotEvent| slot.room_id@ != room_id
}

spec fn other_than(text: Seq<char>) -> spec_fn(String) -> bool {
    |string: String| string@ != text
}

fn find_slot<'a>(slots: &'a Vec<RawSlotEvent>, room_id: &str, slot_id: &str) -> (found: Option<
    &'a RawSlotEvent,
>)
    ensures
        match found {
            Some(slot) => slot_event(slots@, room_id@, slot_id@) == Some(*slot),
            None => slot_event(slots@, room_id@, slot_id@) is None,
        },
{
    let mut left: usize = slots.len();
    assert(slots@.take(left as int) =~= slots@);
    while left > 0
        invariant
            left <= slots@.len(),
            slot_event(slots@, room_id@, slot_id@) == slot_event(
                slots@.take(left as int),
                room_id@,
                slot_id@,
            ),
        decreases left,
    {
        let ghost rest = slots@.take(left as int);
        assert(rest.last() == slots@[left - 1]);
        assert(rest.drop_last() =~= slots@.take(left - 1));
        let slot: &RawSlotEvent = &slots[left - 1];
        if same_text(slot.room_id.as_str(), room_id) && same_text(slot.slot_id.as_str(), slot_id) {
            return Some(slot);
        }
        left = left - 1;
    }
    None
}

/// Whether every entry is where it was, with the same candidates and the same part
/// of ours.
pub open spec fn same_candidates(before: Seq<SessionEntry>, after: Seq<SessionEntry>) -> bool {
    &&& before.len() == after.len()
    &&& forall|i: int|
        0 <= i < before.len() ==> (#[trigger] after[i]).key == before[i].key
            && after[i].session.candidates == before[i].session.candidates
            && after[i].session.own == before[i].session.own
}

impl RtcSessionManager {
    /// Whether the slots of a room are known.
    pub open spec fn knows_slots(self, room_id: Seq<char>) -> bool {
        texts(self.rooms_with_slot_state@).contains(room_id)
    }

    /// What is known of a room's encryption.
    pub open spec fn encryption_of(self, room_id: Seq<char>) -> RoomEncryption {
        if self.room_encryption@.contains_key(room_id) {
            self.room_encryption@[room_id]
        } else {
            RoomEncryption::Unknown
        }
    }

    /// The users in a room, where they are known.
    pub open spec fn members_of(self, room_id: Seq<char>) -> Option<Seq<Seq<char>>> {
        if self.room_members@.contains_key(room_id) {
            Some(texts(self.room_members@[room_id]@))
        } else {
            None
        }
    }

    /// What a slot amounts to, where the slots of its room are known.
    pub open spec fn state_of(self, room_id: Seq<char>, slot_id: Seq<char>) -> Option<SlotState> {
        if self.knows_slots(room_id) {
            Some(
                match slot_event(self.slots@, room_id, slot_id) {
                    Some(slot) => slot.resolved(self.encryption_of(room_id)),
                    None => SlotState::Closed,
                },
            )
        } else {
            None
        }
    }

    /// Whether a session goes by what is known of its room.
    pub open spec fn governs(self, entry: SessionEntry) -> bool {
        &&& entry.session.slot == self.state_of(entry.key.room_id@, entry.key.slot_id@)
        &&& entry.session.encryption == self.encryption_of(entry.key.room_id@)
        &&& listed(entry.session.room_members) == self.members_of(entry.key.room_id@)
    }

    /// Whether no slot has two sessions, every session goes by what is known of its
    /// room, and the media keys are in order.
    pub open spec fn wf(self) -> bool {
        &&& forall|i: int, j: int|
            0 <= i < j < self.sessions@.len() ==> !(#[trigger] self.sessions@[i]).key.names(
                (#[trigger] self.sessions@[j]).key.room_id@,
                self.sessions@[j].key.slot_id@,
            )
        &&& forall|i: int|
            0 <= i < self.sessions@.len() ==> self.governs(#[trigger] self.sessions@[i])
        &&& forall|i: int|
            0 <= i < self.sessions@.len() ==> (#[trigger] self.sessions@[i]).session.wf()
    }

    /// Whether `after` is this manager with a session for a slot: the one there
    /// was, or a new one with nobody in it.
    pub open spec fn with_session(
        self,
        room_id: Seq<char>,
        slot_id: Seq<char>,
        after: RtcSessionManager,
    ) -> bool {
        &&& after == (RtcSessionManager { sessions: after.sessions, ..self })
        &&& if self.has(room_id, slot_id) {
            after.sessions == self.sessions
        } else {
            &&& after.sessions@.len() == self.sessions@.len() + 1
            &&& after.sessions@.drop_last() == self.sessions@
            &&& after.sessions@.last().key.names(room_id, slot_id)
            &&& after.sessions@.last().session.candidates@.len() == 0
            &&& after.sessions@.last().session.own is None
        }
    }

    /// Whether `after` is this manager but for what the session at `i` holds.
    pub open spec fn with_session_at(self, i: int, after: RtcSessionManager) -> bool {
        &&& after == (RtcSessionManager { sessions: after.sessions, ..self })
        &&& after.sessions@ == self.sessions@.update(i, after.sessions@[i])
        &&& after.sessions@[i].key == self.sessions@[i].key
    }

    /// Whether a session is at position `i`.
    pub open spec fn has_at(self, room_id: Seq<char>, slot_id: Seq<char>, i: int) -> bool {
        0 <= i < self.sessions@.len() && self.sessions@[i].key.names(room_id, slot_id)
    }

    /// Whether there is a session.
    pub open spec fn has(self, room_id: Seq<char>, slot_id: Seq<char>) -> bool {
        exists|i: int| self.has_at(room_id, slot_id, i)
    }

    /// Holds nothing, and has nothing to send commands with.
    pub fn new() -> (manager: RtcSessionManager)
        ensures
            manager.wf(),
            manager.sessions@.len() == 0,
            manager.slots@.len() == 0,
            manager.rooms_with_slot_state@.len() == 0,
            manager.room_members@ == Map::<Seq<char>, Vec<String>>::empty(),
            manager.room_encryption@ == Map::<Seq<char>, RoomEncryption>::empty(),
            !manager.has_sender,
    {
        RtcSessionManager {
            sessions: Vec::new(),
            slots: Vec::new(),
            rooms_with_slot_state: Vec::new(),
            room_members: TextMap::new(),
            room_encryption: TextMap::new(),
            has_sender: false,
        }
    }

    /// Holds nothing, and has something to send commands with.
    pub fn with_command_sender() -> (manager: RtcSessionManager)
        ensures
            manager.wf(),
            manager.sessions@.len() == 0,
            manager.slots@.len() == 0,
            manager.rooms_with_slot_state@.len() == 0,
            manager.room_members@ == Map::<Seq<char>, Vec<String>>::empty(),
            manager.room_encryption@ == Map::<Seq<char>, RoomEncryption>::empty(),
            manager.has_sender,
    {
        let mut manager: RtcSessionManager = RtcSessionManager::new();
        manager.set_command_sender();
        manager
    }

    /// Notes that there is something to send commands with.
    pub fn set_command_sender(&mut self)
        ensures
            *final(self) == (RtcSessionManager { has_sender: true, ..*old(self) }),
            old(self).wf() ==> final(self).wf(),
    {
        self.has_sender = true;
    }

    /// Whether there is anything to send commands with.
    pub fn has_command_sender(&self) -> (yes: bool)
        ensures
            yes == self.has_sender,
    {
        self.has_sender
    }

    /// How many sessions there are.
    pub fn session_count(&self) -> (count: usize)
        ensures
            count == self.sessions@.len(),
    {
        self.sessions.len()
    }

    /// Where a session stands.
    pub fn find(&self, room_id: &str, slot_id: &str) -> (found: Option<usize>)
        ensures
            match found {
                Some(i) => self.has_at(room_id@, slot_id@, i as int),
                None => !self.has(room_id@, slot_id@),
            },
    {
        let mut i: usize = 0;
        while i < self.sessions.len()
            invariant
                i <= self.sessions@.len(),
                forall|j: int| 0 <= j < i ==> !self.has_at(room_id@, slot_id@, j),
            decreases self.sessions@.len() - i,
        {
            let key: &SessionKey = &self.sessions[i].key;
            if same_text(key.room_id.as_str(), room_id) && same_text(
                key.slot_id.as_str(),
                slot_id,
            ) {
                return Some(i);
            }
            i = i + 1;
        }
        None
    }

    /// How many members a session has; `None` where there is no such session.
    pub fn member_count(&self, room_id: &str, slot_id: &str) -> (count: Option<usize>)
        ensures
            match count {
                Some(count) => exists|i: int|
                    #[trigger] self.has_at(room_id@, slot_id@, i) && count
                        == self.sessions@[i].session.roster().len(),
                None => !self.has(room_id@, slot_id@),
            },
    {
        match self.find(room_id, slot_id) {
            Some(i) => Some(self.sessions[i].session.member_count()),
            None => None,
        }
    }

    fn known_encryption(&self, room_id: &str) -> (encryption: RoomEncryption)
        ensures
            encryption == self.encryption_of(room_id@),
    {
        match self.room_encryption.get(room_id) {
            Some(encryption) => *encryption,
            None => RoomEncryption::Unknown,
        }
    }

    /// What a slot amounts to; `None` where the slots of its room are not known.
    pub fn slot_state(&self, room_id: &str, slot_id: &str) -> (state: Option<SlotState>)
        ensures
            state == self.state_of(room_id@, slot_id@),
    {
        if !holds_text(&self.rooms_with_slot_state, room_id) {
            return None;
        }
        match find_slot(&self.slots, room_id, slot_id) {
            Some(slot) => Some(slot.resolve(self.known_encryption(room_id))),
            None => Some(SlotState::Closed),
        }
    }

    fn known_members(&self, room_id: &str) -> (members: Option<Vec<String>>)
        ensures
            listed(members) == self.members_of(room_id@),
    {
        match self.room_members.get(room_id) {
            Some(members) => Some(clone_texts(members)),
            None => None,
        }
    }

    /// Finds the session of a slot, creating it where there is none. A new session
    /// goes by what is already known of its room.
    pub fn session_for_key(&mut self, room_id: &str, slot_id: &str) -> (index: usize)
        requires
            old(self).wf(),
        ensures
            final(self).wf(),
            old(self).with_session(room_id@, slot_id@, *final(self)),
            final(self).has_at(room_id@, slot_id@, index as int),
            !old(self).has(room_id@, slot_id@) ==> index == old(self).sessions@.len(),
    {
        match self.find(room_id, slot_id) {
            Some(i) => i,
            None => {
                let session = RtcSession {
                    candidates: Vec::new(),
                    slot: self.slot_state(room_id, slot_id),
                    room_members: self.known_members(room_id),
                    encryption: self.known_encryption(room_id),
                    own: None,
                };
                let index: usize = self.sessions.len();
                let ghost before = *self;
                self.sessions.push(
                    SessionEntry {
                        key: SessionKey::new(room_id.to_owned(), slot_id.to_owned()),
                        session,
                    },
                );
                proof {
                    assert(self.sessions@.drop_last() =~= before.sessions@);
                    assert forall|i: int| 0 <= i < self.sessions@.len() implies self.governs(
                        #[trigger] self.sessions@[i],
                    ) by {
                        if i < index {
                            assert(self.sessions@[i] == before.sessions@[i]);
                            assert(before.governs(before.sessions@[i]));
                        }
                    }
                    assert forall|i: int, j: int| 0 <= i < j < self.sessions@.len() implies !(
                    #[trigger] self.sessions@[i]).key.names(
                        (#[trigger] self.sessions@[j]).key.room_id@,
                        self.sessions@[j].key.slot_id@,
                    ) by {
                        assert(self.sessions@[i] == before.sessions@[i]);
                        if j < index {
                            assert(self.sessions@[j] == before.sessions@[j]);
                        } else {
                            assert(!before.has_at(room_id@, slot_id@, i));
                        }
                    }
                }
                index
            },
        }
    }

    /// The sessions of a room, in order.
    pub fn sessions_in_room(&self, room_id: &str) -> (indices: Vec<usize>)
        ensures
            forall|k: int|
                0 <= k < indices@.len() ==> (#[trigger] indices@[k]) < self.sessions@.len()
                    && self.sessions@[indices@[k] as int].key.room_id@ == room_id@,
            forall|i: int|
                0 <= i < self.sessions@.len() && (
                #[trigger] self.sessions@[i]).key.room_id@ == room_id@ ==> indices@.contains(
                    i as usize,
                ),
            forall|a: int, b: int| 0 <= a < b < indices@.len() ==> indices@[a] < indices@[b],
    {
        let mut indices: Vec<usize> = Vec::new();
        let mut i: usize = 0;
        while i < self.sessions.len()
            invariant
                i <= self.sessions@.len(),
                forall|k: int|
                    0 <= k < indices@.len() ==> (#[trigger] indices@[k]) < i
                        && self.sessions@[indices@[k] as int].key.room_id@ == room_id@,
                forall|j: int|
                    0 <= j < i && (#[trigger] self.sessions@[j]).key.room_id@ == room_id@
                        ==> indices@.contains(j as usize),
                forall|a: int, b: int| 0 <= a < b < indices@.len() ==> indices@[a] < indices@[b],
            decreases self.sessions@.len() - i,
        {
            if same_text(self.sessions[i].key.room_id.as_str(), room_id) {
                let ghost before = indices@;
                indices.push(i);
                proof {
                    assert forall|j: int|
                        0 <= j < i + 1 && (
                        #[trigger] self.sessions@[j]).key.room_id@ == room_id@ implies indices@.contains(
                        j as usize,
                    ) by {
                        if j == i {
                            assert(indices@[before.len() as int] == i);
                        } else {
                            let k = choose|k: int| 0 <= k < before.len() && before[k] == j as usize;
                            assert(indices@[k] == j as usize);
                        }
                    }
                }
            }
            i = i + 1;
        }
        indices
    }
}

impl RtcSessionManager {
    /// Brings the sessions of a room in line with what is known of it.
    fn resync(&mut self, room_id: &str)
        requires
            forall|i: int, j: int|
                0 <= i < j < old(self).sessions@.len() ==> !(
                #[trigger] old(self).sessions@[i]).key.names(
                    (#[trigger] old(self).sessions@[j]).key.room_id@,
                    old(self).sessions@[j].key.slot_id@,
                ),
            forall|i: int|
                0 <= i < old(self).sessions@.len() && (
                #[trigger] old(self).sessions@[i]).key.room_id@ != room_id@ ==> old(self).governs(
                    old(self).sessions@[i],
                ),
            forall|i: int|
                0 <= i < old(self).sessions@.len() ==> (
                #[trigger] old(self).sessions@[i]).session.wf(),
        ensures
            final(self).wf(),
            *final(self) == (RtcSessionManager { sessions: final(self).sessions, ..*old(self) }),
            same_candidates(old(self).sessions@, final(self).sessions@),
            forall|i: int|
                0 <= i < old(self).sessions@.len() && (
                #[trigger] old(self).sessions@[i]).key.room_id@ != room_id@ ==> old(self).sessions@[i]
                    == final(self).sessions@[i],
    {
        let ghost before = *self;
        let mut i: usize = 0;
        while i < self.sessions.len()
            invariant
                i <= self.sessions@.len(),
                *self == (RtcSessionManager { sessions: self.sessions, ..before }),
                same_candidates(before.sessions@, self.sessions@),
                forall|j: int|
                    0 <= j < before.sessions@.len() && (
                    #[trigger] before.sessions@[j]).key.room_id@ != room_id@ ==> self.sessions@[j]
                        == before.sessions@[j] && before.governs(before.sessions@[j]),
                forall|j: int| 0 <= j < i ==> before.governs(#[trigger] self.sessions@[j]),
            decreases self.sessions@.len() - i,
        {
            let ghost held = self.sessions@;
            assert(held[i as int].key == before.sessions@[i as int].key);
            if same_text(self.sessions[i].key.room_id.as_str(), room_id) {
                let slot: Option<SlotState> = self.slot_state(
                    room_id,
                    self.sessions[i].key.slot_id.as_str(),
                );
                let members: Option<Vec<String>> = self.known_members(room_id);
                let encryption: RoomEncryption = self.known_encryption(room_id);
                self.sessions[i].session.slot = slot;
                self.sessions[i].session.room_members = members;
                self.sessions[i].session.encryption = encryption;
                proof {
                    assert forall|j: int| 0 <= j < held.len() && j != i implies #[trigger]
                        self.sessions@[j] == held[j] by {}
                    assert(before.governs(self.sessions@[i as int]));
                }
            } else {
                assert(before.governs(before.sessions@[i as int]));
            }
            i = i + 1;
        }
        proof {
            assert forall|j: int| 0 <= j < self.sessions@.len() implies self.governs(
                #[trigger] self.sessions@[j],
            ) by {
                assert(before.governs(self.sessions@[j]));
            }
            assert forall|j: int| 0 <= j < self.sessions@.len() implies (
            #[trigger] self.sessions@[j]).session.wf() by {
                assert(before.sessions@[j].session.wf());
            }
            assert forall|a: int, b: int| 0 <= a < b < self.sessions@.len() implies !(
            #[trigger] self.sessions@[a]).key.names(
                (#[trigger] self.sessions@[b]).key.room_id@,
                self.sessions@[b].key.slot_id@,
            ) by {
                assert(self.sessions@[a].key == before.sessions@[a].key);
                assert(self.sessions@[b].key == before.sessions@[b].key);
            }
        }
    }

    /// Whether `after` is this manager once it was noted whether a room is encrypted.
    pub open spec fn noted_encryption(
        self,
        room_id: Seq<char>,
        encrypted: bool,
        after: RtcSessionManager,
    ) -> bool {
        &&& same_candidates(self.sessions@, after.sessions@)
        &&& after == (RtcSessionManager {
            sessions: after.sessions,
            room_encryption: after.room_encryption,
            ..self
        })
        &&& after.room_encryption@ == self.room_encryption@.insert(
            room_id,
            if encrypted {
                RoomEncryption::Encrypted
            } else {
                RoomEncryption::Unencrypted
            },
        )
    }

    /// Notes whether a room is encrypted.
    ///
    /// Its slots resolve differently once that is known.
    pub fn on_room_encryption_received(&mut self, room_id: &str, encrypted: bool)
        requires
            old(self).wf(),
        ensures
            final(self).wf(),
            old(self).noted_encryption(room_id@, encrypted, *final(self)),
    {
        let encryption: RoomEncryption = if encrypted {
            RoomEncryption::Encrypted
        } else {
            RoomEncryption::Unencrypted
        };
        let ghost before = *self;
        self.room_encryption.insert(room_id.to_owned(), encryption);
        proof {
            lemma_others_unmoved(before, *self, room_id@);
        }
        self.resync(room_id);
    }

    /// Whether `after` is this manager once the users in a room were noted.
    pub open spec fn noted_members(
        self,
        room_id: Seq<char>,
        joined_user_ids: Vec<String>,
        after: RtcSessionManager,
    ) -> bool {
        &&& same_candidates(self.sessions@, after.sessions@)
        &&& after == (RtcSessionManager {
            sessions: after.sessions,
            room_members: after.room_members,
            ..self
        })
        &&& after.room_members@ == self.room_members@.insert(room_id, joined_user_ids)
    }

    /// Notes the users that are in a room.
    pub fn on_room_members_received(&mut self, room_id: &str, joined_user_ids: Vec<String>)
        requires
            old(self).wf(),
        ensures
            final(self).wf(),
            old(self).noted_members(room_id@, joined_user_ids, *final(self)),
    {
        let ghost before = *self;
        self.room_members.insert(room_id.to_owned(), joined_user_ids);
        proof {
            lemma_others_unmoved(before, *self, room_id@);
        }
        self.resync(room_id);
    }

    /// Whether `after` is this manager once the slots of a room were noted.
    pub open spec fn noted_slots(
        self,
        room_id: Seq<char>,
        slots: Seq<RawSlotEvent>,
        after: RtcSessionManager,
    ) -> bool {
        &&& same_candidates(self.sessions@, after.sessions@)
        &&& after == (RtcSessionManager {
            sessions: after.sessions,
            slots: after.slots,
            rooms_with_slot_state: after.rooms_with_slot_state,
            ..self
        })
        &&& forall|room: Seq<char>|
            #[trigger] after.knows_slots(room) <==> self.knows_slots(room) || room == room_id
        &&& after.slots@ == self.slots@.filter(elsewhere(room_id)) + slots.filter(within(room_id))
    }

    /// Whether `after` is this manager once the slots of a room were forgotten.
    pub open spec fn forgot_slots(self, room_id: Seq<char>, after: RtcSessionManager) -> bool {
        &&& same_candidates(self.sessions@, after.sessions@)
        &&& after == (RtcSessionManager {
            sessions: after.sessions,
            slots: after.slots,
            rooms_with_slot_state: after.rooms_with_slot_state,
            ..self
        })
        &&& forall|room: Seq<char>|
            #[trigger] after.knows_slots(room) <==> self.knows_slots(room) && room != room_id
        &&& after.slots@ == self.slots@.filter(elsewhere(room_id))
    }

    /// Notes the slots of a room, all of them: a slot that is not among them is
    /// closed. Events of other rooms are passed over.
    pub fn on_room_slots_received(&mut self, room_id: &str, slots: Vec<RawSlotEvent>)
        requires
            old(self).wf(),
        ensures
            final(self).wf(),
            old(self).noted_slots(room_id@, slots@, *final(self)),
    {
        let ghost before = *self;
        if !holds_text(&self.rooms_with_slot_state, room_id) {
            let ghost known = self.rooms_with_slot_state@;
            self.rooms_with_slot_state.push(room_id.to_owned());
            proof {
                lemma_one_more(known, self.rooms_with_slot_state@.last());
                assert(self.rooms_with_slot_state@ =~= known.push(
                    self.rooms_with_slot_state@.last(),
                ));
            }
        }
        self.drop_slots(room_id);
        let ghost kept = self.slots@;
        let ghost whole = slots@;
        let ghost keep = within(room_id@);
        let ghost noted = *self;
        proof {
            lemma_filter_none(whole, keep);
            assert(kept + whole.take(0).filter(keep) =~= kept);
        }
        for slot in iter: slots
            invariant
                iter.seq() == whole,
                keep == within(room_id@),
                *self == (RtcSessionManager { slots: self.slots, ..noted }),
                self.slots@ == kept + whole.take(iter.index()).filter(keep),
        {
            proof {
                lemma_filter_next(whole, keep, iter.index());
            }
            let ghost held = self.slots@;
            if same_text(slot.room_id.as_str(), room_id) {
                self.slots.push(slot);
                assert(self.slots@ =~= held.push(slot));
            }
            assert(self.slots@ =~= kept + whole.take(iter.index() + 1).filter(keep));
        }
        proof {
            lemma_take_all(whole);
            assert forall|room: Seq<char>, slot: Seq<char>| room != room_id@ implies #[trigger]
                slot_event(self.slots@, room, slot) == slot_event(before.slots@, room, slot) by {
                lemma_added_elsewhere(kept, whole, room, slot, room_id@);
                lemma_filtered_elsewhere(before.slots@, room, slot, room_id@);
            }
            lemma_others_unmoved(before, *self, room_id@);
        }
        self.resync(room_id);
    }

    /// Forgets the slots of a room, so that no session there depends on them.
    ///
    /// This is not the same as a room without slots, where every session is
    /// closed.
    pub fn forget_room_slots(&mut self, room_id: &str)
        requires
            old(self).wf(),
        ensures
            final(self).wf(),
            old(self).forgot_slots(room_id@, *final(self)),
    {
        let ghost before = *self;
        let mut known: Vec<String> = Vec::new();
        std::mem::swap(&mut known, &mut self.rooms_with_slot_state);
        let ghost whole = known@;
        let ghost keep = other_than(room_id@);
        proof {
            lemma_filter_none(whole, keep);
        }
        let ghost noted = *self;
        for room in iter: known
            invariant
                iter.seq() == whole,
                keep == other_than(room_id@),
                *self == (RtcSessionManager {
                    rooms_with_slot_state: self.rooms_with_slot_state,
                    ..noted
                }),
                self.rooms_with_slot_state@ == whole.take(iter.index()).filter(keep),
        {
            proof {
                lemma_filter_next(whole, keep, iter.index());
            }
            if !same_text(room.as_str(), room_id) {
                self.rooms_with_slot_state.push(room);
            }
        }
        proof {
            lemma_take_all(whole);
            lemma_one_less(whole, self.rooms_with_slot_state@, room_id@);
        }
        self.drop_slots(room_id);
        proof {
            assert forall|room: Seq<char>, slot: Seq<char>| room != room_id@ implies #[trigger]
                slot_event(self.slots@, room, slot) == slot_event(before.slots@, room, slot) by {
                lemma_filtered_elsewhere(before.slots@, room, slot, room_id@);
            }
            lemma_others_unmoved(before, *self, room_id@);
        }
        self.resync(room_id);
    }

    fn drop_slots(&mut self, room_id: &str)
        ensures
            *final(self) == (RtcSessionManager { slots: final(self).slots, ..*old(self) }),
            final(self).slots@ == old(self).slots@.filter(elsewhere(room_id@)),
    {
        let mut slots: Vec<RawSlotEvent> = Vec::new();
        std::mem::swap(&mut slots, &mut self.slots);
        let ghost whole = slots@;
        let ghost keep = elsewhere(room_id@);
        let ghost noted = *self;
        proof {
            lemma_filter_none(whole, keep);
        }
        for slot in iter: slots
            invariant
                iter.seq() == whole,
                keep == elsewhere(room_id@),
                *self == (RtcSessionManager { slots: self.slots, ..noted }),
                self.slots@ == whole.take(iter.index()).filter(keep),
        {
            proof {
                lemma_filter_next(whole, keep, iter.index());
            }
            if !same_text(slot.room_id.as_str(), room_id) {
                self.slots.push(slot);
            }
        }
        proof {
            lemma_take_all(whole);
        }
    }
}

/// Adding a name to a list adds that name alone.
proof fn lemma_one_more(strings: Seq<String>, added: String)
    ensures
        forall|text: Seq<char>| #[trigger]
            texts(strings.push(added)).contains(text) <==> texts(strings).contains(text) || text
                == added@,
{
    let after = texts(strings.push(added));
    assert(after =~= texts(strings).push(added@));
    assert forall|text: Seq<char>| #[trigger] after.contains(text) <==> texts(strings).contains(
        text,
    ) || text == added@ by {
        if texts(strings).contains(text) {
            let i = choose|i: int| 0 <= i < strings.len() && texts(strings)[i] == text;
            assert(after[i] == text);
        }
        assert(after[strings.len() as int] == added@);
    }
}

/// Filtering a name out of a list removes that name alone.
proof fn lemma_one_less(strings: Seq<String>, kept: Seq<String>, removed: Seq<char>)
    requires
        kept == strings.filter(other_than(removed)),
    ensures
        forall|text: Seq<char>| #[trigger]
            texts(kept).contains(text) <==> texts(strings).contains(text) && text != removed,
{
    let keep = other_than(removed);
    assert forall|text: Seq<char>| #[trigger] texts(kept).contains(text) <==> texts(
        strings,
    ).contains(text) && text != removed by {
        if texts(kept).contains(text) {
            let i = choose|i: int| 0 <= i < kept.len() && texts(kept)[i] == text;
            strings.lemma_filter_pred(keep, i);
            assert(kept.contains(kept[i]));
            strings.lemma_filter_contains_rev(keep, kept[i]);
            let j = choose|j: int| 0 <= j < strings.len() && strings[j] == kept[i];
            assert(texts(strings)[j] == text);
        }
        if texts(strings).contains(text) && text != removed {
            let j = choose|j: int| 0 <= j < strings.len() && texts(strings)[j] == text;
            assert(strings.contains(strings[j]));
            strings.lemma_filter_contains(keep, j);
            let i = choose|i: int| 0 <= i < kept.len() && kept[i] == strings[j];
            assert(texts(kept)[i] == text);
        }
    }
}

/// Slot events of one room say nothing of another's.
proof fn lemma_added_elsewhere(
    slots: Seq<RawSlotEvent>,
    from: Seq<RawSlotEvent>,
    room_id: Seq<char>,
    slot_id: Seq<char>,
    other: Seq<char>,
)
    requires
        room_id != other,
    ensures
        slot_event(
            slots + from.filter(within(other)),
            room_id,
            slot_id,
        ) == slot_event(slots, room_id, slot_id),
{
    let keep = within(other);
    let added = from.filter(keep);
    assert forall|i: int| 0 <= i < added.len() implies (#[trigger] added[i]).room_id@ == other by {
        from.lemma_filter_pred(keep, i);
    }
    lemma_appended_elsewhere(slots, added, room_id, slot_id, other);
}

proof fn lemma_appended_elsewhere(
    slots: Seq<RawSlotEvent>,
    added: Seq<RawSlotEvent>,
    room_id: Seq<char>,
    slot_id: Seq<char>,
    other: Seq<char>,
)
    requires
        room_id != other,
        forall|i: int| 0 <= i < added.len() ==> (#[trigger] added[i]).room_id@ == other,
    ensures
        slot_event(slots + added, room_id, slot_id) == slot_event(slots, room_id, slot_id),
    decreases added.len(),
{
    if added.len() == 0 {
        assert(slots + added =~= slots);
    } else {
        let fewer = added.drop_last();
        assert forall|i: int| 0 <= i < fewer.len() implies (#[trigger] fewer[i]).room_id@
            == other by {
            assert(fewer[i] == added[i]);
        }
        lemma_appended_elsewhere(slots, fewer, room_id, slot_id, other);
        assert((slots + added).drop_last() =~= slots + fewer);
        assert((slots + added).last() == added[added.len() - 1]);
    }
}

/// Dropping one room's slot events leaves another's.
proof fn lemma_filtered_elsewhere(
    slots: Seq<RawSlotEvent>,
    room_id: Seq<char>,
    slot_id: Seq<char>,
    other: Seq<char>,
)
    requires
        room_id != other,
    ensures
        slot_event(
            slots.filter(elsewhere(other)),
            room_id,
            slot_id,
        ) == slot_event(slots, room_id, slot_id),
    decreases slots.len(),
{
    let keep = elsewhere(other);
    reveal(Seq::filter);
    if slots.len() > 0 {
        lemma_filtered_elsewhere(slots.drop_last(), room_id, slot_id, other);
        let rest = slots.drop_last().filter(keep);
        if keep(slots.last()) {
            assert(slots.filter(keep) == rest.push(slots.last()));
            assert(rest.push(slots.last()).drop_last() =~= rest);
        }
    }
}

/// What is noted of one room leaves the sessions of the others governed.
proof fn lemma_others_unmoved(
    before: RtcSessionManager,
    after: RtcSessionManager,
    room_id: Seq<char>,
)
    requires
        before.wf(),
        after.sessions == before.sessions,
        forall|room: Seq<char>| room != room_id ==> #[trigger] after.knows_slots(room)
            == before.knows_slots(room),
        forall|room: Seq<char>| room != room_id ==> #[trigger] after.encryption_of(room)
            == before.encryption_of(room),
        forall|room: Seq<char>| room != room_id ==> #[trigger] after.members_of(room)
            == before.members_of(room),
        forall|room: Seq<char>, slot: Seq<char>| room != room_id ==> #[trigger] slot_event(
            after.slots@,
            room,
            slot,
        ) == slot_event(before.slots@, room, slot),
    ensures
        forall|i: int|
            0 <= i < after.sessions@.len() && (#[trigger] after.sessions@[i]).key.room_id@
                != room_id ==> after.governs(after.sessions@[i]),
{
    assert forall|i: int|
        0 <= i < after.sessions@.len() && (#[trigger] after.sessions@[i]).key.room_id@
            != room_id implies after.governs(after.sessions@[i]) by {
        let entry = after.sessions@[i];
        assert(before.governs(before.sessions@[i]));
        let room = entry.key.room_id@;
        assert(after.knows_slots(room) == before.knows_slots(room));
        assert(after.encryption_of(room) == before.encryption_of(room));
        assert(after.members_of(room) == before.members_of(room));
        assert(slot_event(after.slots@, room, entry.key.slot_id@) == slot_event(
            before.slots@,
            room,
            entry.key.slot_id@,
        ));
    }
}

impl RtcSessionManager {
    /// Whether `after` is this manager once a room's state was noted.
    pub open spec fn fed(
        self,
        room_id: Seq<char>,
        state_membership: bool,
        encrypted: Option<bool>,
        slots: Option<Vec<RawSlotEvent>>,
        joined_user_ids: Vec<String>,
        after: RtcSessionManager,
    ) -> bool {
        &&& same_candidates(self.sessions@, after.sessions@)
        &&& after.has_sender == self.has_sender
        &&& after.room_encryption@ == (match encrypted {
            Some(encrypted) => self.room_encryption@.insert(
                room_id,
                if encrypted {
                    RoomEncryption::Encrypted
                } else {
                    RoomEncryption::Unencrypted
                },
            ),
            None => self.room_encryption@,
        })
        &&& match slots {
            Some(slots) => if state_membership {
                &&& after.slots == self.slots
                &&& after.rooms_with_slot_state == self.rooms_with_slot_state
            } else {
                &&& after.slots@ == self.slots@.filter(elsewhere(room_id)) + slots@.filter(
                    within(room_id),
                )
                &&& forall|room: Seq<char>|
                    #[trigger] after.knows_slots(room) <==> self.knows_slots(room) || room
                        == room_id
            },
            None => {
                &&& after.slots == self.slots
                &&& after.rooms_with_slot_state == self.rooms_with_slot_state
            },
        }
        &&& after.room_members@ == self.room_members@.insert(room_id, joined_user_ids)
    }

    /// Notes what a room's state says, in the order that matters: its encryption
    /// first, which decides how the slots resolve; then its slots; then its users.
    ///
    /// What could not be read (`None`) is left as it was. Where memberships are
    /// room state there are no slots, so nothing is noted of them: saying that
    /// there are none would close every session.
    pub fn feed_room_state(
        &mut self,
        room_id: &str,
        state_membership: bool,
        encrypted: Option<bool>,
        slots: Option<Vec<RawSlotEvent>>,
        joined_user_ids: Vec<String>,
    )
        requires
            old(self).wf(),
        ensures
            final(self).wf(),
            old(self).fed(
                room_id@,
                state_membership,
                encrypted,
                slots,
                joined_user_ids,
                *final(self),
            ),
    {
        let ghost before = *self;
        match encrypted {
            Some(encrypted) => self.on_room_encryption_received(room_id, encrypted),
            None => {},
        }
        proof {
            assert forall|room: Seq<char>| #[trigger] self.knows_slots(room)
                == before.knows_slots(room) by {}
        }
        if !state_membership {
            match slots {
                Some(slots) => self.on_room_slots_received(room_id, slots),
                None => {},
            }
        }
        let ghost noted = *self;
        self.on_room_members_received(room_id, joined_user_ids);
        proof {
            assert forall|room: Seq<char>| #[trigger] self.knows_slots(room)
                == noted.knows_slots(room) by {}
        }
    }
}

/// What a slot amounts to is a matter of its own room: the slot events of another
/// room, come or gone, change nothing.
pub proof fn law_slots_are_scoped_to_their_room(
    slots: Seq<RawSlotEvent>,
    from: Seq<RawSlotEvent>,
    room_id: Seq<char>,
    slot_id: Seq<char>,
    other: Seq<char>,
)
    requires
        room_id != other,
    ensures
        slot_event(
            slots.filter(elsewhere(other)) + from.filter(within(other)),
            room_id,
            slot_id,
        ) == slot_event(slots, room_id, slot_id),
{
    lemma_added_elsewhere(slots.filter(elsewhere(other)), from, room_id, slot_id, other);
    lemma_filtered_elsewhere(slots, room_id, slot_id, other);
}

/// Where the slots of a room are not known, or no longer, no session there is
/// held to one; where they are known, a slot that no event names is closed.
pub proof fn law_unknown_is_not_closed(manager: RtcSessionManager, i: int)
    requires
        manager.wf(),
        0 <= i < manager.sessions@.len(),
    ensures
        ({
            let entry = manager.sessions@[i];
            let room_id = entry.key.room_id@;
            &&& !manager.knows_slots(room_id) ==> entry.session.slot is None
            &&& manager.knows_slots(room_id) && slot_event(
                manager.slots@,
                room_id,
                entry.key.slot_id@,
            ) is None ==> entry.session.roster().len() == 0
        }),
{
    let entry = manager.sessions@[i];
    assert(manager.governs(entry));
    if manager.knows_slots(entry.key.room_id@) && slot_event(
        manager.slots@,
        entry.key.room_id@,
        entry.key.slot_id@,
    ) is None {
        crate::roster::law_closed_slot_is_empty(entry.session);
    }
}

} // verus!
