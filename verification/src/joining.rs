//! What joining and leaving a session come to.

use vstd::prelude::*;
use crate::commands::RtcCommand;
use crate::encryption::types::EncryptionConfig;
use crate::error::{CommandError, JoinError, LeaveError};
use crate::join::{JoinSessionParams, LeaveSessionParams, TransportIntent};
use crate::json::JsonView;
use crate::manager::attendance::{lemma_counts, may_take_part};
use crate::notification::{lemma_names, NotificationType, NotifyConfig};
use crate::own_membership::OwnMembershipState;
use crate::participation::{
    notifies, stated_cause, stated_transports, JoinAttempt, JoinPublication, Participation,
};
use crate::random::drawn;
use crate::roster::RtcSession;
use crate::session::JoinedMembership;
use crate::slot::SlotState;
use crate::text::hex;
use crate::transport::RtcTransport;
use crate::wire::{lemma_content_names, lemma_inner_names};

verus! {

/// The lesser of two times.
pub open spec fn at_most(ms: u64, limit: u64) -> u64 {
    if ms < limit {
        ms
    } else {
        limit
    }
}

/// A join begins as it was asked for: by the user, on the device, in the room and
/// the slot, for the application and with the notification that were named, under
/// the member id that was named, or one drawn for this join. A delayed leave waits for as long as was asked, or
/// half a minute; a membership lives for as long as was asked, or an hour where a
/// delayed leave protects it and five minutes where none does, but never for more
/// than the hour that homeservers honour. Nothing is published and no key is held
/// yet.
pub proof fn law_join_begins_as_asked(
    own: Participation,
    params: JoinSessionParams,
    slot: Option<SlotState>,
)
    requires
        own.begun(params, slot),
    ensures
        own.user_id == params.user_id,
        own.device_id == params.device_id,
        own.notify == params.notify,
        own.membership.room_id == params.room_id,
        own.membership.slot_id == params.slot_id,
        own.membership.application_type == params.application,
        params.membership_id matches Some(id) ==> own.membership.sticky_key == id,
        params.membership_id is None ==> own.membership.sticky_key@.len() == 32 && exists|
            bytes: Seq<u8>,
        |
            bytes.len() == 16 && drawn(bytes) && own.membership.sticky_key@ == #[trigger] hex(
                bytes,
            ),
        own.membership.timings.keep_alive_timeout_ms == (match params.keep_alive_timeout_ms {
            Some(ms) => ms,
            None => 30_000,
        }),
        own.membership.timings.sticky_duration_ms == (match params.sticky_duration_ms {
            Some(ms) => at_most(ms, 3_600_000),
            None => 3_600_000,
        }),
        own.membership.timings.degraded_lifetime_ms == (match params.degraded_lifetime_ms {
            Some(ms) => at_most(ms, 3_600_000),
            None => 300_000,
        }),
        own.membership.published_lifetime_ms == own.membership.timings.sticky_duration_ms,
        own.membership.state == OwnMembershipState::Joining,
        own.membership.keep_alive_info is None,
        own.membership.last_sticky is None,
        own.membership.latest_event_id is None,
        own.membership.delayed_support.available(),
        own.keys.own_user_id == params.user_id,
        own.keys.own_device_id == params.device_id,
        own.keys.own_member_id == own.membership.sticky_key,
        own.keys.room_id == params.room_id,
        own.keys.slot_id == params.slot_id,
        own.keys.outbound_key is None,
        own.keys.keys_without_membership@.len() == 0,
        forall|id: Seq<char>| !(#[trigger] own.keys.inbound_keys@.contains_key(id)),
        !own.keys.key_distribution_in_progress,
        !own.keys.need_new_distribution,
{
}

/// Whether media keys are managed is the slot's to say where it is open, and
/// otherwise as was asked; everything else about them is as was asked. Where nothing
/// was, they are managed, each for an hour and a half at most, and only a sender that
/// is cross-signed is believed.
pub proof fn law_keys_are_managed_as_the_slot_says(
    own: Participation,
    params: JoinSessionParams,
    slot: Option<SlotState>,
    config: EncryptionConfig,
)
    requires
        own.begun(params, slot),
        config == (match params.encryption_config {
            Some(config) => config,
            None => EncryptionConfig::standard(),
        }),
    ensures
        own.keys.config.manage_media_keys == (match slot {
            Some(SlotState::Open(open)) => open.encryption is Some,
            _ => config.manage_media_keys,
        }),
        own.keys.config == (EncryptionConfig {
            manage_media_keys: own.keys.config.manage_media_keys,
            ..config
        }),
        params.encryption_config is None ==> {
            &&& own.keys.config.delay_before_use_ms == 5_000
            &&& own.keys.config.key_rotation_grace_period_ms == 10_000
            &&& own.keys.config.max_key_lifetime_ms == 5_400_000
            &&& own.keys.config.require_cross_signed_sender
            &&& !(slot matches Some(SlotState::Open(_))) ==> own.keys.config.manage_media_keys
        },
{
}

/// A join is refused exactly where one of what it needs is not named, for the first
/// of these that is not.
pub proof fn law_join_is_refused_for_what_is_missing(
    session: RtcSession,
    params: JoinSessionParams,
    begun: Result<(JoinAttempt, RtcCommand), JoinError>,
)
    requires
        session.asked_to_join(params, begun),
    ensures
        begun is Ok <==> params.user_id@.len() > 0 && params.device_id@.len() > 0
            && params.room_id@.len() > 0 && params.slot_id@.len() > 0 && params.application@.len()
            > 0,
        begun matches Err(error) ==> {
            &&& error is InvalidParams
            &&& params.user_id@.len() == 0 <==> error->InvalidParams_0@ == "user_id is required"@
            &&& params.user_id@.len() > 0 && params.device_id@.len() == 0
                <==> error->InvalidParams_0@ == "device_id is required"@
            &&& params.user_id@.len() > 0 && params.device_id@.len() > 0 && params.room_id@.len()
                == 0 <==> error->InvalidParams_0@ == "room_id is required"@
            &&& params.user_id@.len() > 0 && params.device_id@.len() > 0 && params.room_id@.len()
                > 0 && params.slot_id@.len() == 0 <==> error->InvalidParams_0@
                == "slot_id is required"@
        },
        begun matches Ok((attempt, command)) ==> attempt.participation.begun(params, session.slot)
            && attempt.participation.membership.arms_delayed_leave(command),
{
    reveal_strlit("user_id is required");
    reveal_strlit("device_id is required");
    reveal_strlit("room_id is required");
    reveal_strlit("slot_id is required");
    reveal_strlit("application is required");
    assert("user_id is required"@.len() == 19 && "device_id is required"@.len() == 21);
    assert("room_id is required"@.len() == 19 && "slot_id is required"@.len() == 19);
    assert("application is required"@.len() == 23);
    assert("user_id is required"@[0] == 'u' && "room_id is required"@[0] == 'r');
    assert("slot_id is required"@[0] == 's');
}

/// A member that publishes states exactly the one transport it publishes on, and
/// that it can receive on its type. One that only receives states no transport, and
/// the types it named.
pub proof fn law_transports_are_stated_as_intended(intent: TransportIntent)
    ensures
        intent matches TransportIntent::Publish(transport) ==> {
            let stated = stated_transports(intent);
            &&& stated.published.len() == 1
            &&& stated.can_subscribe.len() == 1
            &&& stated.can_subscribe[0] == stated.published[0].transport_type
            &&& transport matches RtcTransport::LiveKit(livekit) ==> {
                &&& stated.published[0].transport_type == "livekit"@
                &&& stated.published[0].extra.contains_key("livekit_service_url"@)
                &&& stated.published[0].extra["livekit_service_url"@] == JsonView::Text(
                    livekit.livekit_service_url@,
                )
            }
            &&& transport matches RtcTransport::Unsupported(other) ==> {
                &&& stated.published[0].transport_type == other.transport_type@
                &&& stated.published[0].extra == crate::json::members_model(other.extra_fields@)
            }
        },
        intent matches TransportIntent::ReceiveOnly { can_subscribe } ==> {
            let stated = stated_transports(intent);
            &&& stated.published.len() == 0
            &&& stated.can_subscribe.len() == can_subscribe@.len()
            &&& forall|i: int|
                0 <= i < can_subscribe@.len() ==> #[trigger] stated.can_subscribe[i]
                    == can_subscribe@[i]@
        },
{
}

/// Once arming was answered, however it was, our membership goes out: in our room, as
/// a member event, with the content and for the time that the machine holds to. Who
/// we are, our keys and the notification we were asked for stay as they are.
pub proof fn law_join_goes_out_either_way(
    attempt: JoinAttempt,
    armed: Result<String, CommandError>,
    now: u64,
    publication: JoinPublication,
    command: RtcCommand,
)
    requires
        attempt.continued(armed, now, (publication, command)),
    ensures
        command matches RtcCommand::SendSticky { room_id, event_type, content, duration_ms } && {
            &&& room_id@ == attempt.participation.membership.room_id@
            &&& event_type@ == "m.rtc.member"@
            &&& content@ == publication.send.content@
            &&& duration_ms == publication.participation.membership.published_lifetime_ms
        },
        publication.participation.user_id == attempt.participation.user_id,
        publication.participation.device_id == attempt.participation.device_id,
        publication.participation.keys == attempt.participation.keys,
        publication.participation.notify == attempt.participation.notify,
        attempt.participation.membership.join_continued(
            armed,
            attempt.transports,
            now,
            publication.participation.membership,
            publication.send,
        ),
{
}

/// Once a join was accepted we are in the session: under the member id it was
/// published with, represented by the event that was accepted, with a first key that
/// was drawn for it where keys are managed and none where they are not. Who else is
/// there, and what is known of the room, stays as it was. A join that was refused
/// changes nothing, and is answered with the refusal.
pub proof fn law_accepted_join_puts_us_in(
    session: RtcSession,
    publication: JoinPublication,
    sent: Result<String, CommandError>,
    now: u64,
    after: RtcSession,
    joined: Result<Option<RtcCommand>, JoinError>,
)
    requires
        publication.participation.keys.is_blank(),
        session.entered(publication, sent, now, after, joined),
    ensures
        after.candidates == session.candidates,
        after.slot == session.slot,
        after.room_members == session.room_members,
        after.encryption == session.encryption,
        sent matches Ok(event_id) ==> {
            &&& joined is Ok
            &&& after.own matches Some(own) && {
                &&& own.membership.sticky_key == publication.participation.membership.sticky_key
                &&& own.user_id == publication.participation.user_id
                &&& own.device_id == publication.participation.device_id
                &&& own.membership.latest_event_id == Some(event_id)
                &&& own.membership.state == OwnMembershipState::Joined
                &&& own.keys.config == publication.participation.keys.config
                &&& own.keys.config.manage_media_keys <==> own.keys.outbound_key is Some
                &&& own.keys.outbound_key matches Some(key) ==> {
                    &&& drawn(key.key@)
                    &&& key.key@.len() == 32
                    &&& key.key_index == 0
                    &&& key.creation_ts == now
                    &&& key.shared_with@.len() == 0
                }
            }
        },
        sent matches Err(error) ==> after.own == session.own && joined == Err::<
            Option<RtcCommand>,
            JoinError,
        >(JoinError::CommandError(error)),
{
    if sent is Ok {
        let key = choose|key: Vec<u8>|
            key@.len() == 32 && drawn(key@) && #[trigger] publication.participation.keys.joined_with(
                key,
                now,
                after.own->0.keys,
            );
        match after.own->0.keys.outbound_key {
            Some(first) => {
                assert(first@.shared_with.len() == first.shared_with@.len());
            },
            None => {},
        }
    }
}

/// Whether a candidate is somebody else: under another member id, and of another
/// user or of a device that is known to be another.
pub open spec fn is_somebody_else(candidate: JoinedMembership, own: Participation) -> bool {
    &&& candidate.member_id@ != own.membership.sticky_key@
    &&& candidate.sender@ != own.user_id@ || (candidate.origin.device() is Some
        && candidate.origin.device() != Some(own.device_id@))
}

/// The room is notified exactly by the member that starts the session, if it was
/// asked to: there is nobody else in the session whom nothing known of the room
/// speaks against.
pub proof fn law_whoever_starts_the_session_notifies(
    session: RtcSession,
    publication: JoinPublication,
    event_id: String,
    now: u64,
    after: RtcSession,
    joined: Result<Option<RtcCommand>, JoinError>,
)
    requires
        session.entered(publication, Ok(event_id), now, after, joined),
    ensures
        joined is Ok,
        joined->Ok_0 is Some <==> publication.participation.notify is Some && forall|i: int|
            0 <= i < session.candidates@.len() ==> !(may_take_part(
                session,
                #[trigger] session.candidates@[i],
            ) && is_somebody_else(session.candidates@[i], publication.participation)),
{
    let own = publication.participation;
    assert forall|i: int| 0 <= i < session.candidates@.len() implies (session.counts(
        #[trigger] session.candidates@[i],
    ) && !own.is_own(session.candidates@[i]) <==> may_take_part(session, session.candidates@[i])
        && is_somebody_else(session.candidates@[i], own)) by {
        lemma_counts(session, session.candidates@[i]);
    }
}

/// How long a ring lasts: as long as was asked, but no longer than two minutes; half
/// a minute, where nothing was asked.
pub open spec fn rings_for(config: NotifyConfig) -> u64 {
    match config.lifetime_ms {
        Some(ms) => at_most(ms, 120_000),
        None => 30_000,
    }
}

/// A notification goes to our room, stays for twice as long as it rings, and refers
/// to the event by which we joined. It says what kind of noise it asks for, when it
/// was sent and how long it rings, of which application and by which device, and for
/// whom it is: the users who are named, and the room where it is meant.
pub proof fn law_notification_says_who_calls(
    command: RtcCommand,
    own: Participation,
    config: NotifyConfig,
    event_id: Seq<char>,
    now: u64,
)
    requires
        notifies(command, own, config, event_id, now),
    ensures
        command matches RtcCommand::SendSticky { room_id, event_type, content, duration_ms } && {
            &&& room_id == own.membership.room_id
            &&& event_type@ == "m.rtc.notification"@
            &&& duration_ms == 2 * rings_for(config)
            &&& content@.get_in("m.relates_to"@, "rel_type"@) == Some(
                JsonView::Text("m.reference"@),
            )
            &&& content@.get_in("m.relates_to"@, "event_id"@) == Some(JsonView::Text(event_id))
            &&& content@.get("notification_type"@) == Some(
                JsonView::Text(
                    match config.notification_type {
                        NotificationType::Ring => "ring"@,
                        NotificationType::Notification => "notification"@,
                    },
                ),
            )
            &&& content@.get("sender_ts"@) == Some(JsonView::number(now))
            &&& content@.get("lifetime"@) == Some(JsonView::number(rings_for(config)))
            &&& content@.get("m.call.intent"@) == (match config.intent {
                Some(intent) => Some(JsonView::Text(intent@)),
                None => None,
            })
            &&& content@.get_in("application"@, "type"@) == Some(
                JsonView::Text(own.membership.application_type@),
            )
            &&& content@.get_in("application"@, "device_id"@) == Some(
                JsonView::Text(own.device_id@),
            )
            &&& content@.get("m.text"@) == Some(
                JsonView::Array(
                    seq![
                        JsonView::object().with(
                            "body"@,
                            JsonView::Text("Session started by "@ + own.user_id@),
                        ),
                    ],
                ),
            )
            &&& content@.get_in("m.mentions"@, "room"@) == Some(
                JsonView::Bool(config.mentions.room),
            )
            &&& content@.get_in("m.mentions"@, "user_ids"@) matches Some(JsonView::Array(users))
                && users.len() == config.mentions.user_ids@.len() && forall|i: int|
                0 <= i < users.len() ==> #[trigger] users[i] == JsonView::Text(
                    config.mentions.user_ids@[i]@,
                )
        },
{
    lemma_names();
    reveal_strlit("type");
    reveal_strlit("notification_type");
    reveal_strlit("sender_ts");
    reveal_strlit("lifetime");
    reveal_strlit("m.call.intent");
    reveal_strlit("device_id");
    reveal_strlit("application");
    reveal_strlit("m.text");
    reveal_strlit("m.mentions");
    reveal_strlit("m.relates_to");
    reveal_strlit("user_ids");
    reveal_strlit("room");
    assert("type"@.len() == 4 && "user_ids"@.len() == 8 && "room"@.len() == 4);
    assert("notification_type"@.len() == 17 && "sender_ts"@.len() == 9 && "lifetime"@.len() == 8);
    assert("m.call.intent"@.len() == 13 && "device_id"@.len() == 9 && "application"@.len() == 11);
    assert("m.text"@.len() == 6 && "m.mentions"@.len() == 10 && "m.relates_to"@.len() == 12);
}

/// Whether a command publishes, in our room, that we left our slot, by the given code
/// and words.
pub open spec fn states_our_leave(
    command: RtcCommand,
    own: Participation,
    code: Seq<char>,
    words: Option<Seq<char>>,
) -> bool {
    command matches RtcCommand::SendSticky { room_id, event_type, content, duration_ms } && {
        &&& room_id@ == own.membership.room_id@
        &&& event_type@ == "m.rtc.member"@
        &&& duration_ms == own.membership.published_lifetime_ms
        &&& content@.get("slot_id"@) == Some(JsonView::Text(own.membership.slot_id@))
        &&& content@.get("msc4354_sticky_key"@) == Some(
            JsonView::Text(own.membership.sticky_key@),
        )
        &&& content@.get_in("member"@, "id"@) == Some(JsonView::Text(own.membership.sticky_key@))
        &&& content@.get_in("member"@, "membership"@) == Some(JsonView::Text("leave"@))
        &&& content@.get_in("leave_reason"@, "code"@) == Some(JsonView::Text(code))
        &&& content@.get_in("leave_reason"@, "reason"@) == (match words {
            Some(words) => Some(JsonView::Text(words)),
            None => None,
        })
        &&& content@.get("application"@) is None
        &&& content@.get("transports"@) is None
    }
}

/// Asking to leave publishes that we left, for the cause that was given or as a plain
/// leave, exactly if we are in the session. We are still in it, leaving, until that
/// was accepted.
pub proof fn law_leave_is_published(
    session: RtcSession,
    params: LeaveSessionParams,
    after: RtcSession,
    command: Option<RtcCommand>,
)
    requires
        session.asked_to_leave(stated_cause(params), after, command),
    ensures
        command is Some <==> session.own is Some,
        command matches Some(command) ==> states_our_leave(
            command,
            session.own->0,
            match params.leave_reason {
                Some(reason) => reason@.code.wire(),
                None => "leave"@,
            },
            match params.leave_reason {
                Some(reason) => reason@.reason,
                None => None,
            },
        ),
        session.own is Some <==> after.own is Some,
        session.own is Some ==> after.own->0.membership.state == OwnMembershipState::Leaving
            && after.own->0.keys == session.own->0.keys && after.own->0.membership.keep_alive_info
            == session.own->0.membership.keep_alive_info && after.own->0.membership.last_sticky
            == session.own->0.membership.last_sticky,
        after.candidates == session.candidates,
        after.slot == session.slot,
{
    lemma_content_names();
    lemma_inner_names();
}

/// A slot that closes under a member that is in the session is left, once, with that
/// as the cause. While the slot is open or not known, and while we are not in the
/// session, nothing is.
pub proof fn law_closed_slot_is_left_once(
    session: RtcSession,
    after: RtcSession,
    command: Option<RtcCommand>,
    later: RtcSession,
    again: Option<RtcCommand>,
)
    requires
        session.left_if_closed(after, command),
        after.left_if_closed(later, again),
    ensures
        command is Some <==> session.slot == Some(SlotState::Closed) && session.own is Some
            && session.own->0.membership.state == OwnMembershipState::Joined,
        command matches Some(command) ==> states_our_leave(
            command,
            session.own->0,
            "slot_closed"@,
            None,
        ),
        command is None ==> after == session,
        again is None,
        later == after,
{
    lemma_content_names();
    lemma_inner_names();
}

/// Once a leave was accepted we are out, and the keys with us, as soon as no delayed
/// leave is armed; one that is has to be cancelled first. Either way nothing is
/// refreshed any more. A leave that was refused changes nothing, and is answered with
/// the refusal.
pub proof fn law_accepted_leave_takes_us_out(
    session: RtcSession,
    sent: Result<String, CommandError>,
    after: RtcSession,
    next: Result<Option<RtcCommand>, LeaveError>,
    now: u64,
)
    requires
        session.leave_answered(sent, after, next),
        session.own is Some,
    ensures
        sent is Ok <==> next is Ok,
        sent is Ok && session.own->0.membership.keep_alive_info is None ==> after.own is None
            && next->Ok_0 is None,
        sent is Ok && session.own->0.membership.keep_alive_info is Some ==> {
            &&& next->Ok_0 == Some(
                RtcCommand::CancelDelayed {
                    room_id: session.own->0.membership.room_id,
                    delay_id: session.own->0.membership.keep_alive_info->0.delayed_event_id,
                },
            )
            &&& after.own is Some
            &&& !after.own->0.membership.refresh_due(now)
        },
        sent matches Err(error) ==> after == session && next == Err::<
            Option<RtcCommand>,
            LeaveError,
        >(LeaveError::CommandError(error)),
        after.candidates == session.candidates,
        after.slot == session.slot,
        after.room_members == session.room_members,
        after.encryption == session.encryption,
{
}

} // verus!
