//! What our keys in a session hear of it.

use vstd::prelude::*;
use crate::encoding::base64_decoded;
use crate::encryption::inbound::{KeyEvent, PendingView};
use crate::encryption::laws::material_at;
use crate::encryption::outbound::find_membership;
use crate::encryption::signals::MembershipsUpdate;
use crate::encryption::types::{KeyOrigin, ReceivedEncryptionKey};
use crate::encryption::waiting::{
    is_from, law_early_key_is_held, law_early_key_outlasts_other_changes, law_genuine_key_is_held,
    nobody_is,
};
use crate::error::CommandError;
use crate::participation::same_members;
use crate::roster::RtcSession;
use crate::session::JoinedMembership;

verus! {

/// Whether a member of a session is the first of its member id.
pub open spec fn is_first_of_id(members: Seq<JoinedMembership>, k: int) -> bool {
    &&& 0 <= k < members.len()
    &&& forall|j: int|
        0 <= j < k ==> (#[trigger] members[j]).member_id@ != members[k].member_id@
}

proof fn lemma_first_is_found(members: Seq<JoinedMembership>, k: int)
    requires
        is_first_of_id(members, k),
    ensures
        find_membership(members, members[k].member_id@) == Some(members[k]),
    decreases k,
{
    if k > 0 {
        let rest = members.drop_first();
        assert(members[0].member_id@ != members[k].member_id@);
        assert forall|j: int| 0 <= j < k - 1 implies (#[trigger] rest[j]).member_id@ != rest[k
            - 1].member_id@ by {
            assert(rest[j] == members[j + 1]);
        }
        lemma_first_is_found(rest, k - 1);
    }
}

/// A media key that comes from the very device of somebody who is in the session, and is
/// cross-signed, is what its index holds from then on; unless a later reading of the
/// clock was seen for that index, which is left out. So whoever is in the session is
/// heard.
pub proof fn law_key_of_a_member_is_held(
    session: RtcSession,
    received: ReceivedEncryptionKey,
    bytes: Seq<u8>,
    now: u64,
    after: RtcSession,
    outcome: Result<Option<KeyEvent>, CommandError>,
    k: int,
)
    requires
        session.offered(received, now, after, outcome),
        session.own is Some,
        received.room_id@ == session.own->0.keys.room_id@,
        base64_decoded(received.key_b64@) == Ok::<Seq<u8>, Seq<char>>(bytes),
        received.origin matches KeyOrigin::Encrypted { sender_is_cross_signed, .. }
            && sender_is_cross_signed,
        is_first_of_id(session.roster(), k),
        session.roster()[k].member_id@ == received.member_id@,
        is_from(received.origin, session.roster()[k]),
        forall|place: Seq<char>| #[trigger]
            session.own->0.keys.inbound().seen.contains_key(place)
                ==> session.own->0.keys.inbound().seen[place] <= now,
    ensures
        outcome is Ok,
        after.own is Some,
        material_at(
            after.own->0.keys.inbound().held(received.member_id@),
            received.key_index,
        ) == Some(bytes),
{
    let keys = session.own->0.keys;
    let members = choose|members: Seq<JoinedMembership>|
        same_members(members, session.roster()) && #[trigger] keys.received(
            received,
            base64_decoded(received.key_b64@),
            members,
            now,
            after.own->0.keys,
            outcome,
        );
    assert(members[k].same_as(session.roster()[k]));
    assert forall|j: int| 0 <= j < k implies (#[trigger] members[j]).member_id@
        != members[k].member_id@ by {
        assert(members[j].same_as(session.roster()[j]));
        assert(session.roster()[j].member_id@ != session.roster()[k].member_id@);
    }
    lemma_first_is_found(members, k);
    law_genuine_key_is_held(
        keys,
        received,
        bytes,
        members,
        members[k],
        now,
        after.own->0.keys,
        outcome,
    );
}

/// A media key whose member nobody in the session is yet waits: it is the last that waits
/// then, and nobody is told.
pub proof fn law_key_of_nobody_yet_waits(
    session: RtcSession,
    received: ReceivedEncryptionKey,
    bytes: Seq<u8>,
    now: u64,
    after: RtcSession,
    outcome: Result<Option<KeyEvent>, CommandError>,
)
    requires
        session.offered(received, now, after, outcome),
        session.own is Some,
        received.room_id@ == session.own->0.keys.room_id@,
        base64_decoded(received.key_b64@) == Ok::<Seq<u8>, Seq<char>>(bytes),
        received.origin matches KeyOrigin::Encrypted { sender_is_cross_signed, .. }
            && sender_is_cross_signed,
        nobody_is(session.roster(), received.member_id@),
    ensures
        outcome matches Ok(None),
        after.own is Some,
        ({
            let waiting = after.own->0.keys.inbound().waiting;
            &&& waiting.len() == session.own->0.keys.inbound().waiting.len() + 1
            &&& waiting[waiting.len() - 1].key.key == bytes
            &&& waiting[waiting.len() - 1].key.member_id == received.member_id@
            &&& waiting[waiting.len() - 1].key.key_index == received.key_index
            &&& waiting[waiting.len() - 1].origin == received.origin
        }),
{
    let keys = session.own->0.keys;
    let members = choose|members: Seq<JoinedMembership>|
        same_members(members, session.roster()) && #[trigger] keys.received(
            received,
            base64_decoded(received.key_b64@),
            members,
            now,
            after.own->0.keys,
            outcome,
        );
    assert forall|i: int| 0 <= i < members.len() implies (#[trigger] members[i]).member_id@
        != received.member_id@ by {
        assert(members[i].same_as(session.roster()[i]));
    }
    law_early_key_is_held(keys, received, bytes, members, now, after.own->0.keys, outcome);
}

/// When it changes who is in the session, a key that waits goes on waiting exactly while
/// nobody in the session is its member; a distribution of our key is called for exactly
/// if keys are managed and we have one. While we are not in the session nothing happens.
pub proof fn law_change_of_members_settles_what_waits(
    session: RtcSession,
    now: u64,
    after: RtcSession,
    update: Option<MembershipsUpdate>,
    pending: PendingView,
)
    requires
        session.noted(now, after, update),
    ensures
        session.own is None ==> update is None && after == session,
        session.own is Some ==> update is Some && after.own is Some,
        after.candidates == session.candidates,
        session.own is Some ==> after.own->0.membership == session.own->0.membership,
        session.own is Some ==> (update->0.distribute
            <==> session.own->0.keys.config.manage_media_keys
            && session.own->0.keys.outbound_key is Some),
        session.own is Some && session.own->0.keys.config.manage_media_keys
            && session.own->0.keys.inbound().waiting.contains(pending) ==> (
        after.own->0.keys.inbound().waiting.contains(pending) <==> nobody_is(
            session.roster(),
            pending.key.member_id,
        )),
{
    if session.own is Some {
        let keys = session.own->0.keys;
        let members = choose|members: Seq<JoinedMembership>|
            same_members(members, session.roster()) && #[trigger] keys.updated(
                members,
                now,
                after.own->0.keys,
                update->0,
            );
        assert(nobody_is(members, pending.key.member_id) == nobody_is(
            session.roster(),
            pending.key.member_id,
        )) by {
            assert forall|i: int| 0 <= i < members.len() implies (#[trigger] members[i]).member_id@
                == session.roster()[i].member_id@ by {
                assert(members[i].same_as(session.roster()[i]));
            }
            if nobody_is(members, pending.key.member_id) {
                assert forall|i: int| 0 <= i < session.roster().len() implies (
                #[trigger] session.roster()[i]).member_id@ != pending.key.member_id by {
                    assert(members[i].member_id@ != pending.key.member_id);
                }
            }
        }
        if keys.config.manage_media_keys {
            law_early_key_outlasts_other_changes(
                keys,
                members,
                now,
                after.own->0.keys,
                update->0,
                pending,
            );
            let waiting = after.own->0.keys.inbound().waiting;
            if waiting.contains(pending) {
                let i = choose|i: int| 0 <= i < waiting.len() && waiting[i] == pending;
                keys.inbound().waiting.lemma_filter_pred(
                    crate::encryption::waiting::is_early(members),
                    i,
                );
            }
        }
    }
}

} // verus!
