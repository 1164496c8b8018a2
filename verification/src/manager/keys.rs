//! Which sessions a media key is for.

use vstd::prelude::*;
use crate::encryption::inbound::KeyEvent;
use crate::encryption::types::ReceivedEncryptionKey;
use crate::error::CommandError;
use crate::manager::own::{told, Offer, SessionEvent};
use crate::manager::RtcSessionManager;

verus! {

/// A media key is offered to every session of the room it names that we are in, whatever
/// the slot, as long as none before it failed; and to no other. What it leads to there is
/// what offering it to that session leads to. Nothing but our keys changes in a session,
/// and nothing at all in one it was not offered to.
pub proof fn law_key_is_offered_in_its_room(
    before: RtcSessionManager,
    received: ReceivedEncryptionKey,
    now: u64,
    after: RtcSessionManager,
    offers: Seq<Offer>,
    events: Seq<SessionEvent>,
    result: Result<(), CommandError>,
    i: int,
)
    requires
        before.came_to(received, now, after, offers, events, result),
        0 <= i < before.sessions@.len(),
    ensures
        after.sessions@[i].key == before.sessions@[i].key,
        after.sessions@[i].session.candidates == before.sessions@[i].session.candidates,
        after.sessions@[i].session.slot == before.sessions@[i].session.slot,
        after.sessions@[i].session.own is Some <==> before.sessions@[i].session.own is Some,
        before.sessions@[i].key.room_id@ != received.room_id@
            || before.sessions@[i].session.own is None ==> after.sessions@[i]
            == before.sessions@[i],
        result is Ok && before.sessions@[i].key.room_id@ == received.room_id@ ==> exists|
            offer: Offer,
        | #[trigger]
            before.sessions@[i].session.offered(received, now, after.sessions@[i].session, offer)
                && offer is Ok,
        before.sessions@[i].session.own is Some ==> after.sessions@[i].session.own->0.membership
            == before.sessions@[i].session.own->0.membership,
{
    if i < offers.len() {
        let offer = offers[i];
        if before.sessions@[i].key.room_id@ == received.room_id@ {
            assert(before.sessions@[i].session.offered(
                received,
                now,
                after.sessions@[i].session,
                offer,
            ));
        }
    }
}

/// What is told of a key is told of the session it was offered to, in the order of the
/// sessions: there is an event of a session exactly if its offer came to one.
pub proof fn law_events_name_their_session(offers: Seq<Offer>, i: int, event: KeyEvent)
    requires
        offers.len() <= usize::MAX,
    ensures
        0 <= i < offers.len() && offers[i] == Ok::<Option<KeyEvent>, CommandError>(Some(event))
            ==> told(offers).contains(SessionEvent { at: i as usize, event }),
        forall|e: int|
            0 <= e < told(offers).len() ==> (#[trigger] told(offers)[e]).at < offers.len()
                && offers[told(offers)[e].at as int] == Ok::<Option<KeyEvent>, CommandError>(
                Some(told(offers)[e].event),
            ),
        forall|d: int, e: int|
            0 <= d < e < told(offers).len() ==> (#[trigger] told(offers)[d]).at < (
            #[trigger] told(offers)[e]).at,
    decreases offers.len(),
{
    if offers.len() > 0 {
        let rest = offers.drop_last();
        law_events_name_their_session(rest, i, event);
        let fewer = told(rest);
        let all = told(offers);
        assert forall|e: int| 0 <= e < all.len() implies (#[trigger] all[e]).at < offers.len()
            && offers[all[e].at as int] == Ok::<Option<KeyEvent>, CommandError>(
            Some(all[e].event),
        ) by {
            if e < fewer.len() {
                assert(all[e] == fewer[e]);
                assert(rest[fewer[e].at as int] == offers[fewer[e].at as int]);
            }
        }
        assert forall|d: int, e: int| 0 <= d < e < all.len() implies (#[trigger] all[d]).at < (
        #[trigger] all[e]).at by {
            assert(all[d] == fewer[d]);
            if e < fewer.len() {
                assert(all[e] == fewer[e]);
            }
        }
        if 0 <= i < offers.len() && offers[i] == Ok::<Option<KeyEvent>, CommandError>(
            Some(event),
        ) {
            if i < rest.len() {
                assert(rest[i] == offers[i]);
                let e = choose|e: int|
                    0 <= e < fewer.len() && fewer[e] == (SessionEvent { at: i as usize, event });
                assert(all[e] == fewer[e]);
            } else {
                assert(all[fewer.len() as int] == (SessionEvent { at: i as usize, event }));
            }
        }
    }
}

/// Something listens for the media keys of one session from then on, if we are in it:
/// nothing else changes there, and nothing in any other session.
pub proof fn law_listener_is_of_one_session(
    before: RtcSessionManager,
    room_id: Seq<char>,
    slot_id: Seq<char>,
    after: RtcSessionManager,
    set: bool,
    i: int,
)
    requires
        before.wf(),
        before.noted_listener(room_id, slot_id, after, set),
        0 <= i < before.sessions@.len(),
    ensures
        after.sessions@.len() == before.sessions@.len(),
        ({
            let here = before.sessions@[i].key.room_id@ == room_id
                && before.sessions@[i].key.slot_id@ == slot_id;
            &&& !here ==> after.sessions@[i] == before.sessions@[i]
            &&& here ==> (set <==> before.sessions@[i].session.own is Some)
            &&& here && set ==> {
                &&& after.sessions@[i].session.own is Some
                &&& after.sessions@[i].session.own->0.keys.has_signal_handler
                &&& after.sessions@[i].session.own->0.keys.outbound_key
                    == before.sessions@[i].session.own->0.keys.outbound_key
                &&& after.sessions@[i].session.own->0.keys.inbound_keys
                    == before.sessions@[i].session.own->0.keys.inbound_keys
                &&& after.sessions@[i].session.own->0.membership
                    == before.sessions@[i].session.own->0.membership
                &&& after.sessions@[i].session.candidates == before.sessions@[i].session.candidates
            }
        }),
{
    let here = before.sessions@[i].key.room_id@ == room_id && before.sessions@[i].key.slot_id@
        == slot_id;
    if here {
        assert(before.has_at(room_id, slot_id, i));
        before.lemma_place(room_id, slot_id, i);
    } else if set {
        let j = before.place(room_id, slot_id);
        assert(before.has_at(room_id, slot_id, j));
    }
}

} // verus!
