//! Who is in a session.
//!
//! A member event makes its sender a candidate. Whether the candidate counts as
//! joined depends on the room too: the slot has to be open, the sender still in
//! the room, and in an encrypted room the event must not have come in the clear.
//! What is not known of the room is not held against anybody. An earlier part that
//! our own device had in the session is over once we joined anew.

use vstd::prelude::*;
use crate::event::EventOrigin;
use crate::participation::Participation;
use crate::seqs::{lemma_filter_next, lemma_filter_none, lemma_take_all};
use crate::session::JoinedMembership;
use crate::slot::{RoomEncryption, SlotState};
use crate::text::texts;

verus! {

/// One session, as the room's state shows it.
#[derive(Debug)]
pub struct RtcSession {
    /// The members whose events say they are in the session.
    pub candidates: Vec<JoinedMembership>,
    /// What the slot amounts to, once the room's slots are known.
    pub slot: Option<SlotState>,
    /// The users in the room, once they are known.
    pub room_members: Option<Vec<String>>,
    /// Whether the room is encrypted.
    pub encryption: RoomEncryption,
    /// Our own part in it, while we have one.
    pub own: Option<Participation>,
}

/// What each name of an optional list is.
pub open spec fn listed(users: Option<Vec<String>>) -> Option<Seq<Seq<char>>> {
    match users {
        Some(users) => Some(texts(users@)),
        None => None,
    }
}

/// Whether a list holds a name.
pub fn holds_text(strings: &Vec<String>, text: &str) -> (yes: bool)
    ensures
        yes == texts(strings@).contains(text@),
{
    let ghost all = texts(strings@);
    let mut i: usize = 0;
    while i < strings.len()
        invariant
            i <= strings@.len(),
            all == texts(strings@),
            forall|j: int| 0 <= j < i ==> all[j] != text@,
        decreases strings@.len() - i,
    {
        assert(all[i as int] == strings@[i as int]@);
        if crate::text::same_text(strings[i].as_str(), text) {
            return true;
        }
        i = i + 1;
    }
    false
}

impl RtcSession {
    /// Whether the media keys are in order.
    pub open spec fn wf(self) -> bool {
        self.own matches Some(own) ==> own.wf()
    }

    /// Whether a candidate counts as joined.
    pub open spec fn counts(self, candidate: JoinedMembership) -> bool {
        &&& self.slot matches Some(slot) ==> slot is Open
        &&& listed(self.room_members) matches Some(users) ==> users.contains(candidate.sender@)
        &&& !(self.encryption is Encrypted && candidate.origin is Cleartext)
        &&& self.own matches Some(own) ==> !own.supersedes(candidate)
    }

    /// The candidates that count as joined, in order.
    pub open spec fn roster(self) -> Seq<JoinedMembership> {
        self.candidates@.filter(|candidate: JoinedMembership| self.counts(candidate))
    }

    /// Whether a candidate counts as joined.
    pub fn is_joined(&self, candidate: &JoinedMembership) -> (yes: bool)
        ensures
            yes == self.counts(*candidate),
    {
        let open: bool = match &self.slot {
            Some(slot) => slot.is_open(),
            None => true,
        };
        let present: bool = match &self.room_members {
            Some(users) => holds_text(users, candidate.sender.as_str()),
            None => true,
        };
        let exposed: bool = match (&self.encryption, &candidate.origin) {
            (RoomEncryption::Encrypted, EventOrigin::Cleartext) => true,
            (_, _) => false,
        };
        let superseded: bool = match &self.own {
            Some(own) => own.is_superseded(candidate),
            None => false,
        };
        open && present && !exposed && !superseded
    }

    /// The candidates that count as joined, in order.
    pub fn joined(&self) -> (members: Vec<&JoinedMembership>)
        ensures
            members@.len() == self.roster().len(),
            forall|i: int| 0 <= i < members@.len() ==> *(#[trigger] members@[i]) == self.roster()[i],
    {
        let mut members: Vec<&JoinedMembership> = Vec::new();
        let ghost keep = |candidate: JoinedMembership| self.counts(candidate);
        let ghost all = self.candidates@;
        proof {
            lemma_filter_none(all, keep);
        }
        let mut i: usize = 0;
        while i < self.candidates.len()
            invariant
                i <= self.candidates@.len(),
                all == self.candidates@,
                keep == (|candidate: JoinedMembership| self.counts(candidate)),
                members@.len() == all.take(i as int).filter(keep).len(),
                forall|j: int|
                    0 <= j < members@.len() ==> *(#[trigger] members@[j]) == all.take(
                        i as int,
                    ).filter(keep)[j],
            decreases self.candidates@.len() - i,
        {
            proof {
                lemma_filter_next(all, keep, i as int);
            }
            if self.is_joined(&self.candidates[i]) {
                members.push(&self.candidates[i]);
            }
            i = i + 1;
        }
        proof {
            lemma_take_all(all);
        }
        members
    }

    /// How many members are in the session.
    pub fn member_count(&self) -> (count: usize)
        ensures
            count == self.roster().len(),
    {
        self.joined().len()
    }
}

/// A closed slot has nobody in it.
pub proof fn law_closed_slot_is_empty(session: RtcSession)
    requires
        session.slot == Some(SlotState::Closed),
    ensures
        session.roster().len() == 0,
{
    let keep = |candidate: JoinedMembership| session.counts(candidate);
    if session.roster().len() > 0 {
        session.candidates@.lemma_filter_pred(keep, 0);
    }
}

/// What is not known of the room is held against nobody: with nothing known,
/// every candidate counts that our own part does not supersede.
pub proof fn law_unknown_room_admits_everyone(session: RtcSession, candidate: JoinedMembership)
    requires
        session.slot is None,
        session.room_members is None,
        session.encryption is Unknown,
    ensures
        session.counts(candidate) <==> (session.own matches Some(own) ==> !own.supersedes(
            candidate,
        )),
{
}

} // verus!
