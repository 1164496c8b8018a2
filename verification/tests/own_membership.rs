//! Keeping our own membership alive.

use matrix_rtc::commands::RtcCommand;
use matrix_rtc::error::CommandError;
use matrix_rtc::event::RawStickyEventContent;
use matrix_rtc::json::{Json, JsonMember};
use matrix_rtc::own_membership::{
    DelayedLeaveSupport, KeepAliveAction, MembershipTimings, OwnMembershipMachine,
    OwnMembershipState,
};
use matrix_rtc::session::{LeaveCode, LeaveReason};
use matrix_rtc::transport::{MemberTransports, RawRtcTransport};

const APPLICATION_TYPE: &str = "m.call";

fn machine() -> OwnMembershipMachine {
    OwnMembershipMachine::with_default_timeout(
        "!room:example.org".to_string(),
        "m.call#ROOM".to_string(),
        "alice-device-a".to_string(),
        APPLICATION_TYPE.to_string(),
    )
}

#[test]
fn test_machine_starts_not_joined() {
    let machine = machine();

    assert_eq!(machine.state(), OwnMembershipState::NotJoined);
    assert!(machine.delayed_event_id().is_none());
}

#[test]
fn test_machine_room_id() {
    assert_eq!(machine().room_id(), "!room:example.org");
}

#[test]
fn test_machine_slot_id() {
    assert_eq!(machine().slot_id(), "m.call#ROOM");
}

#[test]
fn test_machine_sticky_key() {
    assert_eq!(machine().sticky_key(), "alice-device-a");
}

fn machine_with(timings: MembershipTimings) -> OwnMembershipMachine {
    OwnMembershipMachine::new(
        "!room:example.org".to_string(),
        "m.call#ROOM".to_string(),
        "alice-device-a".to_string(),
        APPLICATION_TYPE.to_string(),
        timings,
    )
}

fn sticky_for(sticky_duration_ms: u64) -> OwnMembershipMachine {
    machine_with(MembershipTimings {
        sticky_duration_ms,
        ..MembershipTimings::default()
    })
}

/// A machine whose degraded lifetime is unmistakably not the usual one.
fn degraded_machine() -> OwnMembershipMachine {
    machine_with(MembershipTimings {
        degraded_lifetime_ms: 0,
        ..MembershipTimings::default()
    })
}

/// How a homeserver answers a request for a delayed event.
enum Delays {
    Accepted,
    Refused,
    Failing,
}

/// A homeserver that keeps what it was sent.
struct Homeserver {
    now: u64,
    delays: Delays,
    /// Whether it loses track of delayed events: cancels and restarts fail.
    forgetful: bool,
    fail_sticky: bool,
    /// Room, type, content and delay of every delayed event.
    delayed: Vec<(String, String, Json, u64)>,
    /// Attempts to arm a delayed event that were turned down.
    refused: u32,
    /// Room, type, content and lifetime of every sticky event.
    sticky: Vec<(String, String, Json, u64)>,
    restarted: Vec<(String, String)>,
    cancelled: Vec<(String, String)>,
}

impl Homeserver {
    fn new() -> Homeserver {
        Homeserver {
            now: 1_700_000_000_000,
            delays: Delays::Accepted,
            forgetful: false,
            fail_sticky: false,
            delayed: Vec::new(),
            refused: 0,
            sticky: Vec::new(),
            restarted: Vec::new(),
            cancelled: Vec::new(),
        }
    }

    /// One that has delayed events switched off, and says so.
    fn without_delayed_events() -> Homeserver {
        Homeserver {
            delays: Delays::Refused,
            ..Homeserver::new()
        }
    }

    fn forgetful() -> Homeserver {
        Homeserver {
            forgetful: true,
            ..Homeserver::new()
        }
    }

    fn arm(&mut self, command: RtcCommand) -> Result<String, CommandError> {
        let RtcCommand::SendDelayed {
            room_id,
            event_type,
            content,
            delay_ms,
        } = command
        else {
            panic!("arming schedules a delayed event");
        };
        match self.delays {
            Delays::Accepted => {
                self.delayed.push((room_id, event_type, content, delay_ms));
                Ok(format!("delay-{}", self.delayed.len()))
            }
            Delays::Refused => {
                self.refused += 1;
                Err(CommandError::DelayedEventsNotSupported(
                    "M_FORBIDDEN: Sending delayed events has been disallowed".to_string(),
                ))
            }
            Delays::Failing => {
                self.refused += 1;
                Err(CommandError::from_message("502 Bad Gateway".to_string()))
            }
        }
    }

    fn publish(&mut self, command: RtcCommand) -> Result<String, CommandError> {
        let RtcCommand::SendSticky {
            room_id,
            event_type,
            content,
            duration_ms,
        } = command
        else {
            panic!("publishing sends a sticky event");
        };
        if self.fail_sticky {
            return Err(CommandError::from_message("sticky send rejected".to_string()));
        }
        self.sticky.push((room_id, event_type, content, duration_ms));
        Ok(format!("$sticky-{}", self.sticky.len()))
    }

    fn lost(&self) -> Result<(), CommandError> {
        if self.forgetful {
            Err(CommandError::from_message(
                "M_NOT_FOUND: Unknown delay_id (it already fired)".to_string(),
            ))
        } else {
            Ok(())
        }
    }

    fn join(
        &mut self,
        machine: &mut OwnMembershipMachine,
        transports: MemberTransports,
    ) -> Result<String, CommandError> {
        let command = machine.join();
        let armed = self.arm(command);
        let send = machine.on_join_armed(armed, transports, self.now);
        let sent = self.publish(machine.sticky_command(&send));
        machine.on_join_sent(send, sent, self.now)
    }

    fn leave(
        &mut self,
        machine: &mut OwnMembershipMachine,
        reason: Option<LeaveReason>,
    ) -> Result<(), CommandError> {
        let command = machine.leave(reason);
        let sent = self.publish(command);
        if let Some(command) = machine.on_leave_sent(sent)? {
            let RtcCommand::CancelDelayed { room_id, delay_id } = command else {
                panic!("leaving cancels the delayed leave");
            };
            self.cancelled.push((room_id, delay_id));
            machine.on_leave_cancelled(self.lost());
        }
        Ok(())
    }

    fn heartbeat(&mut self, machine: &mut OwnMembershipMachine) {
        if let Some(send) = machine.refresh_sticky_if_due(self.now) {
            let sent = self.publish(machine.sticky_command(&send));
            machine.on_sticky_refreshed(send, sent, self.now);
        }
        match machine.heartbeat(self.now) {
            KeepAliveAction::Rest => {}
            KeepAliveAction::Arm(command) => {
                let armed = self.arm(command);
                machine.on_armed(armed, self.now);
            }
            KeepAliveAction::Restart { delay_id, command } => {
                let RtcCommand::RestartDelayed {
                    room_id,
                    delay_id: restarted,
                } = command
                else {
                    panic!("a heartbeat restarts the delayed leave");
                };
                self.restarted.push((room_id, restarted));
                if let Some(command) = machine.on_restarted(&delay_id, self.lost(), self.now) {
                    let armed = self.arm(command);
                    machine.on_armed(armed, self.now);
                }
            }
        }
    }
}

#[test]
fn test_machine_join_schedules_delayed_leave() {
    let mut server = Homeserver::new();
    server
        .join(&mut machine(), MemberTransports::none())
        .expect("join should succeed");

    assert_eq!(server.delayed.len(), 1);
    let (room_id, event_type, content, delay_ms) = &server.delayed[0];
    assert_eq!(room_id, "!room:example.org");
    assert_eq!(event_type, "m.rtc.member");
    assert_eq!(
        *delay_ms,
        MembershipTimings::default().keep_alive_timeout_ms
    );
    let leave_reason = content
        .get("leave_reason")
        .expect("leave_reason should be present");
    assert_eq!(leave_reason.text_at("code"), Some("delayed_leave"));
    assert_eq!(
        content.get_in("member", "membership").and_then(Json::as_text),
        Some("leave")
    );
}

#[test]
fn test_machine_join_sends_join_event() {
    let mut server = Homeserver::new();
    server
        .join(&mut machine(), MemberTransports::none())
        .expect("join should succeed");

    assert_eq!(server.sticky.len(), 1);
    let (room_id, event_type, content, _) = &server.sticky[0];
    assert_eq!(room_id, "!room:example.org");
    assert_eq!(event_type, "m.rtc.member");
    assert_eq!(content.text_at("slot_id"), Some("m.call#ROOM"));
}

#[test]
fn test_machine_join_with_transport() {
    let mut server = Homeserver::new();
    let transport = MemberTransports::publishing(RawRtcTransport {
        transport_type: "livekit".to_owned(),
        extra_fields: vec![JsonMember {
            key: "livekit_service_url".to_owned(),
            value: Json::text("https://example.com"),
        }],
    });
    server
        .join(&mut machine(), transport)
        .expect("join should succeed");

    assert_eq!(server.sticky.len(), 1);
    let (_, _, content, _) = &server.sticky[0];
    let published = content
        .get_in("transports", "published")
        .and_then(Json::items)
        .expect("published");
    assert_eq!(published[0].text_at("type"), Some("livekit"));
    let can_subscribe = content
        .get_in("transports", "can_subscribe")
        .and_then(Json::items)
        .expect("can_subscribe");
    assert_eq!(can_subscribe[0].as_text(), Some("livekit"));
}

#[test]
fn test_machine_leave_sends_leave_event() {
    let mut server = Homeserver::new();
    server
        .leave(
            &mut machine(),
            Some(LeaveReason::with_reason(LeaveCode::Leave, "user hung up")),
        )
        .expect("leave should succeed");

    assert_eq!(server.sticky.len(), 1);
    let (room_id, event_type, content, _) = &server.sticky[0];
    assert_eq!(room_id, "!room:example.org");
    assert_eq!(event_type, "m.rtc.member");
    let leave_reason = content
        .get("leave_reason")
        .expect("leave_reason should be present");
    assert_eq!(leave_reason.text_at("code"), Some("leave"));
    assert_eq!(leave_reason.text_at("reason"), Some("user hung up"));
    assert!(leave_reason.get("class").is_none());
}

#[test]
fn test_machine_heartbeat_restarts_delayed_leave() {
    let mut server = Homeserver::new();
    let mut machine = machine();
    server
        .join(&mut machine, MemberTransports::none())
        .expect("join should succeed");
    let delay_id = machine
        .delayed_event_id()
        .expect("join arms a delayed leave");

    server.heartbeat(&mut machine);

    assert_eq!(
        server.restarted,
        vec![("!room:example.org".to_string(), delay_id.clone())],
    );
    assert_eq!(
        server.delayed.len(),
        1,
        "the heartbeat must not schedule a second delayed leave"
    );
    assert!(
        server.cancelled.is_empty(),
        "the heartbeat must not cancel anything"
    );
    assert_eq!(machine.delayed_event_id(), Some(delay_id));
}

#[test]
fn a_failed_restart_does_not_immediately_arm_a_replacement() {
    let mut server = Homeserver::forgetful();
    let mut machine = machine();
    server
        .join(&mut machine, MemberTransports::none())
        .expect("join should succeed");
    let delay_id = machine.delayed_event_id().expect("armed by join");

    // Armed moments ago, it cannot have fired: keep it and retry next beat.
    server.heartbeat(&mut machine);

    assert_eq!(server.delayed.len(), 1, "no replacement armed");
    assert_eq!(machine.delayed_event_id(), Some(delay_id));
}

#[test]
fn a_delay_that_must_have_fired_is_replaced() {
    let mut server = Homeserver::forgetful();
    let mut machine = machine_with(MembershipTimings {
        keep_alive_timeout_ms: 0,
        ..MembershipTimings::default()
    });
    server
        .join(&mut machine, MemberTransports::none())
        .expect("join should succeed");

    server.now += 5;
    server.heartbeat(&mut machine);

    assert_eq!(
        server.delayed.len(),
        2,
        "the fired delay should have been replaced"
    );
    assert!(machine.delayed_event_id().is_some());
}

#[test]
fn a_homeserver_without_delayed_events_can_still_be_joined() {
    let mut server = Homeserver::without_delayed_events();
    let mut machine = degraded_machine();
    server
        .join(&mut machine, MemberTransports::none())
        .expect("a refused delayed leave must not fail the join");

    assert_eq!(machine.state(), OwnMembershipState::Joined);
    assert!(machine.delayed_event_id().is_none(), "nothing armed");
    assert!(!machine.delayed_leave_supported());
    assert_eq!(
        server.sticky.len(),
        1,
        "the membership itself must still go out",
    );
}

#[test]
fn a_degraded_membership_is_refreshed_on_the_short_lifetime() {
    let mut server = Homeserver::without_delayed_events();
    let mut machine = degraded_machine();
    server
        .join(&mut machine, MemberTransports::none())
        .expect("join should succeed");

    server.heartbeat(&mut machine);

    assert_eq!(
        server.sticky.len(),
        2,
        "the beat should have refreshed the membership",
    );
    assert_eq!(machine.membership_lifetime_ms(), 0);
    assert_eq!(server.sticky[1].3, 0, "on the degraded lifetime");
}

#[test]
fn the_first_membership_of_a_degraded_join_is_already_short() {
    let mut server = Homeserver::without_delayed_events();
    let mut machine = degraded_machine();
    server
        .join(&mut machine, MemberTransports::none())
        .expect("join should succeed");

    assert_eq!(
        server.sticky[0].3, 0,
        "the join itself must already carry the degraded lifetime",
    );
}

#[test]
fn every_membership_of_a_join_states_one_lifetime() {
    let mut server = Homeserver::without_delayed_events();
    let mut machine = degraded_machine();
    server
        .join(&mut machine, MemberTransports::none())
        .expect("join should succeed");

    server.heartbeat(&mut machine);
    server.heartbeat(&mut machine);
    server
        .leave(&mut machine, None)
        .expect("leave should succeed");

    let durations: Vec<u64> = server.sticky.iter().map(|sent| sent.3).collect();
    assert!(durations.len() >= 3, "join, refreshes, and the leave");
    assert!(
        durations.iter().all(|duration| *duration == 0),
        "the lifetime settled at join must not move: {durations:?}",
    );
}

#[test]
fn a_degraded_heartbeat_restarts_nothing() {
    let mut server = Homeserver::without_delayed_events();
    let mut machine = degraded_machine();
    server
        .join(&mut machine, MemberTransports::none())
        .expect("join should succeed");

    server.heartbeat(&mut machine);

    assert!(server.restarted.is_empty());
}

#[test]
fn a_stated_refusal_is_never_asked_again() {
    let mut server = Homeserver::without_delayed_events();
    let mut machine = degraded_machine();
    server
        .join(&mut machine, MemberTransports::none())
        .expect("join should succeed");

    server.heartbeat(&mut machine);
    server.heartbeat(&mut machine);

    assert_eq!(
        server.refused, 1,
        "only the arm at join; the beats must not re-ask",
    );
}

#[test]
fn an_unexplained_refusal_is_retried_and_can_recover() {
    let mut server = Homeserver {
        delays: Delays::Failing,
        ..Homeserver::new()
    };
    let mut machine = degraded_machine();
    server
        .join(&mut machine, MemberTransports::none())
        .expect("join should succeed");
    assert!(!machine.delayed_leave_supported());

    // Backdate the probe, and let the homeserver start accepting them.
    machine.delayed_support = DelayedLeaveSupport::Unsupported {
        last_probe_ms: 0,
        permanent: false,
    };
    server.delays = Delays::Accepted;

    server.heartbeat(&mut machine);

    assert!(machine.delayed_leave_supported());
    assert!(machine.delayed_event_id().is_some(), "armed on the retry");
    assert_eq!(
        machine.membership_lifetime_ms(),
        0,
        "the lifetime the join settled on stands for the whole join",
    );
}

/// Between two probes the homeserver is left alone.
#[test]
fn an_unexplained_refusal_is_retried_once_per_interval() {
    let mut server = Homeserver {
        delays: Delays::Failing,
        ..Homeserver::new()
    };
    let mut machine = machine();
    server
        .join(&mut machine, MemberTransports::none())
        .expect("join should succeed");
    assert_eq!(server.refused, 1);

    server.now += matrix_rtc::own_membership::DELAYED_LEAVE_PROBE_INTERVAL_MS - 1;
    server.heartbeat(&mut machine);
    assert_eq!(server.refused, 1, "the interval has not passed");

    server.now += 1;
    server.heartbeat(&mut machine);
    assert_eq!(server.refused, 2);
}

#[test]
fn a_degraded_leave_cancels_nothing() {
    let mut server = Homeserver::without_delayed_events();
    let mut machine = degraded_machine();
    server
        .join(&mut machine, MemberTransports::none())
        .expect("join should succeed");

    server
        .leave(&mut machine, None)
        .expect("leave should succeed");

    assert_eq!(machine.state(), OwnMembershipState::Left);
    assert!(server.cancelled.is_empty());
}

#[test]
fn a_failed_join_returns_to_not_joined() {
    let mut server = Homeserver {
        fail_sticky: true,
        ..Homeserver::forgetful()
    };
    let mut machine = machine();
    server
        .join(&mut machine, MemberTransports::none())
        .expect_err("the membership send fails");

    assert_eq!(machine.state(), OwnMembershipState::NotJoined);
}

#[test]
fn heartbeat_refreshes_the_sticky_membership_once_half_expired() {
    let mut server = Homeserver::new();
    // A zero lifetime is always at least half expired.
    let mut machine = sticky_for(0);
    server
        .join(&mut machine, MemberTransports::none())
        .expect("join should succeed");

    server.heartbeat(&mut machine);

    assert_eq!(
        server.sticky.len(),
        2,
        "the heartbeat should re-send the join"
    );
    assert_eq!(server.sticky[0].2, server.sticky[1].2);
    assert_eq!(server.sticky[1].3, 0);
    assert_eq!(machine.membership_event_id().as_deref(), Some("$sticky-2"));
}

#[test]
fn heartbeat_leaves_a_fresh_sticky_membership_alone() {
    let mut server = Homeserver::new();
    let mut machine = sticky_for(60 * 60 * 1000);
    server
        .join(&mut machine, MemberTransports::none())
        .expect("join should succeed");

    server.heartbeat(&mut machine);

    assert_eq!(
        server.sticky.len(),
        1,
        "an hour-long entry needs no refresh seconds after joining"
    );

    // Half of it has to pass, and a refresh starts the wait anew.
    server.now += 30 * 60 * 1000 - 1;
    server.heartbeat(&mut machine);
    assert_eq!(server.sticky.len(), 1);
    server.now += 1;
    server.heartbeat(&mut machine);
    assert_eq!(server.sticky.len(), 2);
    server.heartbeat(&mut machine);
    assert_eq!(server.sticky.len(), 2);
}

#[test]
fn heartbeat_refreshes_nothing_before_a_join() {
    let mut server = Homeserver::new();
    let mut machine = sticky_for(0);

    server.heartbeat(&mut machine);

    assert!(
        server.sticky.is_empty(),
        "there is no membership to refresh yet"
    );
}

#[test]
fn heartbeat_stops_refreshing_the_sticky_after_leaving() {
    let mut server = Homeserver::new();
    let mut machine = sticky_for(0);
    server
        .join(&mut machine, MemberTransports::none())
        .expect("join should succeed");
    server
        .leave(&mut machine, None)
        .expect("leave should succeed");

    let after_leave = server.sticky.len();
    server.heartbeat(&mut machine);

    assert_eq!(
        server.sticky.len(),
        after_leave,
        "refreshing after a leave would resurrect the membership"
    );
}

#[test]
fn leave_succeeds_when_the_delayed_event_already_fired() {
    let mut server = Homeserver::forgetful();
    let mut machine = machine();
    server
        .join(&mut machine, MemberTransports::none())
        .expect("join should succeed");

    server
        .leave(&mut machine, None)
        .expect("a 404 on cancel must not fail the leave");

    assert_eq!(machine.state(), OwnMembershipState::Left);
    assert_eq!(
        machine.delayed_event_id(),
        None,
        "the stale delay id must be cleared either way"
    );
    assert_eq!(server.sticky.len(), 2, "join then leave");
}

#[test]
fn leave_still_fails_when_the_leave_event_cannot_be_sent() {
    let mut server = Homeserver {
        fail_sticky: true,
        ..Homeserver::forgetful()
    };
    let mut machine = machine();

    server
        .leave(&mut machine, None)
        .expect_err("a rejected leave event is a real failure");
    assert_ne!(machine.state(), OwnMembershipState::Left);
}

#[test]
fn test_join_and_delayed_leave_use_unstable_sticky_key() {
    let mut server = Homeserver::new();
    server
        .join(&mut machine(), MemberTransports::none())
        .expect("join should succeed");

    let (_, _, join_content, _) = &server.sticky[0];
    assert_eq!(
        join_content.text_at("msc4354_sticky_key"),
        Some("alice-device-a")
    );
    assert!(join_content.get("sticky_key").is_none());
    assert!(join_content.get("leave_reason").is_none());
    assert_eq!(
        join_content
            .get_in("member", "membership")
            .and_then(Json::as_text),
        Some("join")
    );

    let (_, _, delayed_content, _) = &server.delayed[0];
    assert_eq!(
        delayed_content.text_at("msc4354_sticky_key"),
        Some("alice-device-a")
    );
    assert!(delayed_content.get("sticky_key").is_none());
}

#[test]
fn test_leave_uses_unstable_sticky_key_and_round_trips() {
    let mut server = Homeserver::new();
    server
        .leave(
            &mut machine(),
            Some(LeaveReason::with_reason(LeaveCode::Leave, "user hung up")),
        )
        .expect("leave should succeed");

    let (_, _, leave_content, _) = &server.sticky[0];
    assert_eq!(
        leave_content.text_at("msc4354_sticky_key"),
        Some("alice-device-a")
    );
    assert!(leave_content.get("sticky_key").is_none());
    // A leave carries the slot, the key, the member and the reason only.
    assert!(leave_content.get("application").is_none());
    assert!(leave_content.get("transports").is_none());
    assert_eq!(
        leave_content
            .get_in("member", "membership")
            .and_then(Json::as_text),
        Some("leave")
    );
    assert_eq!(
        leave_content.get_in("member", "id").and_then(Json::as_text),
        Some("alice-device-a")
    );

    let parsed =
        RawStickyEventContent::from_json(leave_content).expect("leave content must round-trip");
    assert_eq!(parsed.sticky_key, "alice-device-a");
}
