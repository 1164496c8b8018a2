//! What our membership's lifecycle comes to over several of its steps.

use vstd::prelude::*;
use crate::commands::RtcCommand;
use crate::error::CommandError;
use crate::json::JsonView;
use crate::own_membership::{
    KeepAliveAction, OwnMembershipMachine, OwnMembershipState, StickySend,
};
use crate::session::LeaveReason;
use crate::transport::MemberTransports;
use crate::wire::{lemma_content_names, lemma_inner_names};

verus! {

/// Whether a delayed leave of the given id is armed.
pub open spec fn is_armed_as(machine: OwnMembershipMachine, id: Seq<char>) -> bool {
    machine.keep_alive_info matches Some(info) && info.delayed_event_id@ == id
}

/// Whether a content says that our member leaves our slot.
pub open spec fn says_we_left(content: JsonView, machine: OwnMembershipMachine) -> bool {
    &&& content.get("slot_id"@) == Some(JsonView::Text(machine.slot_id@))
    &&& content.get("msc4354_sticky_key"@) == Some(JsonView::Text(machine.sticky_key@))
    &&& content.get_in("member"@, "id"@) == Some(JsonView::Text(machine.sticky_key@))
    &&& content.get_in("member"@, "membership"@) == Some(JsonView::Text("leave"@))
    &&& content.get("application"@) is None
    &&& content.get("transports"@) is None
}

/// Whether a content says that our member is in our slot.
pub open spec fn says_we_joined(content: JsonView, machine: OwnMembershipMachine) -> bool {
    &&& content.get("slot_id"@) == Some(JsonView::Text(machine.slot_id@))
    &&& content.get("msc4354_sticky_key"@) == Some(JsonView::Text(machine.sticky_key@))
    &&& content.get_in("member"@, "id"@) == Some(JsonView::Text(machine.sticky_key@))
    &&& content.get_in("member"@, "membership"@) == Some(JsonView::Text("join"@))
    &&& content.get_in("application"@, "type"@) == Some(
        JsonView::Text(machine.application_type@),
    )
    &&& content.get("leave_reason"@) is None
}

/// A successful restart puts the armed delayed leave's deadline off: a restart that
/// fails later leads to a replacement exactly once the full delay has passed since
/// the one that succeeded. Until then the armed one is kept.
pub proof fn law_restart_puts_the_deadline_off(
    machine: OwnMembershipMachine,
    id: Seq<char>,
    at: u64,
    mid: OwnMembershipMachine,
    none: Option<RtcCommand>,
    again: Seq<char>,
    error: CommandError,
    now: u64,
    after: OwnMembershipMachine,
    rearm: Option<RtcCommand>,
)
    requires
        is_armed_as(machine, id),
        machine.restarted(id, Ok(()), at, mid, none),
        mid.restarted(again, Err(error), now, after, rearm),
        at <= now,
    ensures
        none is None,
        is_armed_as(mid, id),
        rearm is Some <==> now - at > machine.keep_alive_info->0.timeout_ms,
        is_armed_as(after, id) <==> now - at <= machine.keep_alive_info->0.timeout_ms,
        rearm is Some ==> after.keep_alive_info is None,
{
}

/// A delayed leave that was armed and never restarted since is replaced exactly once
/// the delay it was armed with has passed.
pub proof fn law_armed_leave_runs_its_full_delay(
    machine: OwnMembershipMachine,
    id: String,
    at: u64,
    again: Seq<char>,
    error: CommandError,
    now: u64,
    after: OwnMembershipMachine,
    rearm: Option<RtcCommand>,
)
    requires
        machine.after_arming(Ok(id), at).restarted(again, Err(error), now, after, rearm),
        at <= now,
    ensures
        is_armed_as(machine.after_arming(Ok(id), at), id@),
        rearm is Some <==> now - at > machine.timings.keep_alive_timeout_ms,
        is_armed_as(after, id@) <==> now - at <= machine.timings.keep_alive_timeout_ms,
{
}

/// Of two successful restarts the later one counts.
pub proof fn law_latest_restart_counts(
    machine: OwnMembershipMachine,
    id: Seq<char>,
    first: u64,
    mid: OwnMembershipMachine,
    second: u64,
    late: OwnMembershipMachine,
    error: CommandError,
    now: u64,
    after: OwnMembershipMachine,
    rearm: Option<RtcCommand>,
)
    requires
        is_armed_as(machine, id),
        machine.restarted(id, Ok(()), first, mid, None),
        mid.restarted(id, Ok(()), second, late, None),
        late.restarted(id, Err(error), now, after, rearm),
        first <= second <= now,
    ensures
        rearm is Some <==> now - second > machine.keep_alive_info->0.timeout_ms,
{
}

/// That some other delayed leave was restarted says nothing of the armed one: its
/// deadline stays where it was. And no answer to a restart touches anything but
/// what is armed.
pub proof fn law_restart_is_of_one_delayed_leave(
    machine: OwnMembershipMachine,
    id: Seq<char>,
    outcome: Result<(), CommandError>,
    now: u64,
    after: OwnMembershipMachine,
    rearm: Option<RtcCommand>,
)
    requires
        machine.restarted(id, outcome, now, after, rearm),
    ensures
        outcome is Ok && !is_armed_as(machine, id) ==> after.keep_alive_info
            == machine.keep_alive_info,
        after.room_id == machine.room_id,
        after.slot_id == machine.slot_id,
        after.sticky_key == machine.sticky_key,
        after.application_type == machine.application_type,
        after.timings == machine.timings,
        after.state == machine.state,
        after.delayed_support == machine.delayed_support,
        after.published_lifetime_ms == machine.published_lifetime_ms,
        after.last_sticky == machine.last_sticky,
        after.latest_event_id == machine.latest_event_id,
{
}

/// The dead man's switch: what is scheduled when a delayed leave is armed is, in our
/// room, the statement that our member left, with the cause that nobody was there to
/// hold it off, after the delay we run on.
pub proof fn law_delayed_leave_says_we_left(machine: OwnMembershipMachine, command: RtcCommand)
    requires
        machine.arms_delayed_leave(command),
    ensures
        command matches RtcCommand::SendDelayed { room_id, event_type, content, delay_ms } && {
            &&& room_id@ == machine.room_id@
            &&& event_type@ == "m.rtc.member"@
            &&& says_we_left(content@, machine)
            &&& content@.get_in("leave_reason"@, "code"@) == Some(JsonView::Text("delayed_leave"@))
            &&& delay_ms == machine.timings.keep_alive_timeout_ms
        },
{
    lemma_content_names();
    lemma_inner_names();
}

/// What a replacement arms is what was armed at first.
pub proof fn law_replacement_says_the_same(
    machine: OwnMembershipMachine,
    id: Seq<char>,
    outcome: Result<(), CommandError>,
    now: u64,
    after: OwnMembershipMachine,
    rearm: Option<RtcCommand>,
)
    requires
        machine.restarted(id, outcome, now, after, rearm),
    ensures
        rearm matches Some(command) ==> machine.arms_delayed_leave(command)
            && after.arms_delayed_leave(command),
{
}

/// A join is published as the statement that our member is in our slot, for our
/// application, on the transports we state, one for one. It lives for the lifetime we
/// asked for where a delayed leave protects it, and for the degraded one where none
/// does; and that is the lifetime the machine holds to.
pub proof fn law_join_says_we_joined(
    machine: OwnMembershipMachine,
    armed: Result<String, CommandError>,
    transports: MemberTransports,
    now: u64,
    after: OwnMembershipMachine,
    send: StickySend,
)
    requires
        machine.join_continued(armed, transports, now, after, send),
    ensures
        says_we_joined(send.content@, machine),
        transports.published@.len() == 0 && transports.can_subscribe@.len() == 0 ==> send.content@.get(
            "transports"@,
        ) is None,
        transports.published@.len() > 0 || transports.can_subscribe@.len() > 0 ==> {
            &&& send.content@.get_in("transports"@, "published"@) matches Some(
                JsonView::Array(published),
            ) && published.len() == transports.published@.len() && forall|i: int|
                0 <= i < published.len() ==> (#[trigger] published[i]).get("type"@) == Some(
                    JsonView::Text(transports.published@[i].transport_type@),
                )
            &&& send.content@.get_in("transports"@, "can_subscribe"@) matches Some(
                JsonView::Array(can_subscribe),
            ) && can_subscribe.len() == transports.can_subscribe@.len() && forall|i: int|
                0 <= i < can_subscribe.len() ==> #[trigger] can_subscribe[i] == JsonView::Text(
                    transports.can_subscribe@[i]@,
                )
        },
        send.duration_ms == (if armed is Ok {
            machine.published_lifetime_ms
        } else {
            machine.timings.degraded_lifetime_ms
        }),
        after.published_lifetime_ms == send.duration_ms,
        armed matches Ok(id) ==> is_armed_as(after, id@),
        armed is Err ==> after.keep_alive_info == machine.keep_alive_info,
        after.state == machine.state,
        after.room_id == machine.room_id,
        after.slot_id == machine.slot_id,
        after.sticky_key == machine.sticky_key,
{
    lemma_content_names();
    lemma_inner_names();
}

/// A leave is published, in our room, as the statement that our member left, for as
/// long as our membership lived. It names the cause it was given, or a plain leave.
pub proof fn law_leave_says_we_left(
    machine: OwnMembershipMachine,
    leave_reason: Option<LeaveReason>,
    after: OwnMembershipMachine,
    command: RtcCommand,
)
    requires
        machine.leave_begun(leave_reason, after, command),
    ensures
        command matches RtcCommand::SendSticky { room_id, event_type, content, duration_ms } && {
            &&& room_id@ == machine.room_id@
            &&& event_type@ == "m.rtc.member"@
            &&& says_we_left(content@, machine)
            &&& content@.get_in("leave_reason"@, "code"@) == Some(
                JsonView::Text(
                    match leave_reason {
                        Some(reason) => reason@.code.wire(),
                        None => "leave"@,
                    },
                ),
            )
            &&& content@.get_in("leave_reason"@, "reason"@) == (match leave_reason {
                Some(reason) => match reason@.reason {
                    Some(text) => Some(JsonView::Text(text)),
                    None => None,
                },
                None => None,
            })
            &&& duration_ms == machine.published_lifetime_ms
        },
        after.state == OwnMembershipState::Leaving,
        after.keep_alive_info == machine.keep_alive_info,
        after.last_sticky == machine.last_sticky,
{
    lemma_content_names();
    lemma_inner_names();
}

/// Once a leave was accepted nothing is refreshed any more, at whatever time; and a
/// delayed leave that is still armed is cancelled, in our room, before we have left.
/// A leave that was not accepted changes nothing.
pub proof fn law_left_member_is_not_kept_alive(
    machine: OwnMembershipMachine,
    sent: Result<String, CommandError>,
    after: OwnMembershipMachine,
    next: Result<Option<RtcCommand>, CommandError>,
    now: u64,
)
    requires
        machine.leave_continued(sent, after, next),
    ensures
        sent is Ok <==> next is Ok,
        sent is Ok ==> !after.refresh_due(now) && after.latest_event_id is None,
        sent is Ok && machine.keep_alive_info is None ==> next->Ok_0 is None && after.state
            == OwnMembershipState::Left,
        sent is Ok && machine.keep_alive_info is Some ==> next->Ok_0 is Some && next->Ok_0->0
            == (RtcCommand::CancelDelayed {
            room_id: machine.room_id,
            delay_id: machine.keep_alive_info->0.delayed_event_id,
        }) && after.state == machine.state,
        sent is Err ==> after == machine,
{
}

/// Once a join was accepted it is refreshed exactly from half its lifetime on; once
/// one was refused, nothing of it is published and nothing changes but that we are
/// not in the call.
pub proof fn law_accepted_join_is_refreshed_in_time(
    machine: OwnMembershipMachine,
    send: StickySend,
    sent: Result<String, CommandError>,
    at: u64,
    after: OwnMembershipMachine,
    now: u64,
)
    requires
        machine.published(send, sent, at, after),
        at <= now,
    ensures
        sent is Ok ==> {
            &&& after.last_sticky is Some
            &&& after.last_sticky->0.content@ == send.content@
            &&& after.latest_event_id == Some(sent->Ok_0)
            &&& after.state == OwnMembershipState::Joined
            &&& after.refresh_due(now) <==> 2 * (now - at) + 1 >= machine.published_lifetime_ms
        },
        sent is Err ==> {
            &&& after.last_sticky == machine.last_sticky
            &&& after.latest_event_id == machine.latest_event_id
            &&& after.state == OwnMembershipState::NotJoined
        },
        after.keep_alive_info == machine.keep_alive_info,
        after.delayed_support == machine.delayed_support,
        after.published_lifetime_ms == machine.published_lifetime_ms,
{
}

/// What is published again is the join that was accepted, to the letter and for as long
/// as it was published for, exactly from half of that on.
pub proof fn law_refresh_repeats_the_accepted_join(
    machine: OwnMembershipMachine,
    send: StickySend,
    sent: Result<String, CommandError>,
    at: u64,
    after: OwnMembershipMachine,
    now: u64,
    again: Option<StickySend>,
)
    requires
        machine.published(send, sent, at, after),
        sent is Ok,
        at <= now,
        after.refreshes_with(now, again),
    ensures
        again is Some <==> 2 * (now - at) + 1 >= machine.published_lifetime_ms,
        again matches Some(again) ==> again.content@ == send.content@ && again.duration_ms
            == machine.published_lifetime_ms,
{
}

/// A refresh that was accepted moves the clock of the membership that was refreshed,
/// and of no other; one that was refused moves nothing. What is sent again stays the
/// same either way.
pub proof fn law_refresh_is_of_one_membership(
    machine: OwnMembershipMachine,
    content: JsonView,
    sent: Result<String, CommandError>,
    at: u64,
    after: OwnMembershipMachine,
    now: u64,
)
    requires
        machine.last_sticky is Some,
        machine.refreshed(content, sent, at, after),
        at <= now,
    ensures
        after.last_sticky is Some,
        after.last_sticky->0.content == machine.last_sticky->0.content,
        sent is Ok && machine.last_sticky->0.content@ == content ==> (after.refresh_due(now) <==> 2
            * (now - at) + 1 >= machine.published_lifetime_ms),
        sent is Err || machine.last_sticky->0.content@ != content ==> (after.refresh_due(now)
            <==> machine.refresh_due(now)),
        sent is Ok ==> after.latest_event_id == Some(sent->Ok_0),
        sent is Err ==> after.latest_event_id == machine.latest_event_id,
        after.keep_alive_info == machine.keep_alive_info,
        after.state == machine.state,
{
}

/// While a delayed leave is armed, every heartbeat restarts that one, in our room.
/// While none is, one is armed only by a member that is in the call.
pub proof fn law_heartbeat_holds_the_leave_off(
    machine: OwnMembershipMachine,
    now: u64,
    action: KeepAliveAction,
)
    requires
        machine.beats(now, action),
    ensures
        machine.keep_alive_info matches Some(info) ==> action == (KeepAliveAction::Restart {
            delay_id: info.delayed_event_id,
            command: RtcCommand::RestartDelayed {
                room_id: machine.room_id,
                delay_id: info.delayed_event_id,
            },
        }),
        machine.keep_alive_info is None ==> !(action is Restart),
        action matches KeepAliveAction::Arm(command) ==> machine.state
            == OwnMembershipState::Joined && machine.arms_delayed_leave(command),
{
}

/// A member in the call that has no delayed leave armed asks for one at every
/// heartbeat, unless the homeserver refused: then never again if in as many words,
/// and otherwise from five minutes after it did.
pub proof fn law_unprotected_member_asks_again(
    machine: OwnMembershipMachine,
    error: CommandError,
    at: u64,
    now: u64,
    action: KeepAliveAction,
)
    requires
        machine.state == OwnMembershipState::Joined,
        machine.keep_alive_info is None,
        machine.after_arming(Err(error), at).beats(now, action),
        at <= now,
    ensures
        error is DelayedEventsNotSupported ==> action is Rest,
        !(error is DelayedEventsNotSupported) ==> (action is Arm <==> now - at >= 300_000),
        !(action is Arm) ==> action is Rest,
{
}

/// A leave that was accepted and whose delayed leave was cancelled is over: nothing is
/// armed, and no heartbeat does anything about a delayed leave any more.
pub proof fn law_finished_leave_is_over(
    machine: OwnMembershipMachine,
    event_id: String,
    sent: OwnMembershipMachine,
    next: Result<Option<RtcCommand>, CommandError>,
    left: OwnMembershipMachine,
    now: u64,
    action: KeepAliveAction,
)
    requires
        machine.leave_continued(Ok(event_id), sent, next),
        sent.leave_finished(left),
        left.beats(now, action),
    ensures
        left.state == OwnMembershipState::Left,
        left.keep_alive_info is None,
        !left.refresh_due(now),
        action is Rest,
{
}

} // verus!
