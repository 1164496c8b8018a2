//! Joining and leaving a session: the parameters.

use vstd::prelude::*;
use crate::encryption::types::EncryptionConfig;
use crate::notification::NotifyConfig;
use crate::random::{drawn, random_bytes};
use crate::reactions::ReactionsConfig;
use crate::session::{LeaveCode, LeaveReason};
use crate::text::{hex, hex_char, to_hex};
use crate::transport::RtcTransport;

verus! {

/// How long a delayed leave waits before it fires, by default (30 seconds).
pub const DEFAULT_KEEP_ALIVE_TIMEOUT_MS: u64 = 30_000;

/// How long the homeserver keeps our membership in the sticky map, by default
/// (1 hour).
pub const DEFAULT_STICKY_DURATION_MS: u64 = 3_600_000;

/// The longest sticky lifetime that homeservers honour (1 hour).
///
/// A longer request is shortened without a word, so a refresh scheduled against
/// it would come after the entry had lapsed.
pub const MAX_STICKY_DURATION_MS: u64 = 3_600_000;

/// The membership lifetime where delayed events are unavailable, by default
/// (5 minutes).
pub const DEFAULT_DEGRADED_LIFETIME_MS: u64 = 300_000;

/// Whether `id` is what sixteen bytes that were drawn look like in hexadecimal.
pub open spec fn is_generated_id(id: Seq<char>) -> bool {
    exists|bytes: Seq<u8>| bytes.len() == 16 && drawn(bytes) && id == #[trigger] hex(bytes)
}

proof fn lemma_hex_length(bytes: Seq<u8>)
    ensures
        hex(bytes).len() == 2 * bytes.len(),
    decreases bytes.len(),
{
    if bytes.len() > 0 {
        lemma_hex_length(bytes.drop_last());
    }
}

/// Whether a character is a lower-case hexadecimal digit.
pub open spec fn is_hex_digit(c: char) -> bool {
    '0' <= c <= '9' || 'a' <= c <= 'f'
}

proof fn lemma_hex_digits(bytes: Seq<u8>, i: int)
    requires
        0 <= i < hex(bytes).len(),
    ensures
        is_hex_digit(hex(bytes)[i]),
    decreases bytes.len(),
{
    let earlier = bytes.drop_last();
    if i < hex(earlier).len() {
        lemma_hex_digits(earlier, i);
    } else {
        lemma_hex_char((bytes.last() / 16) as nat);
        lemma_hex_char((bytes.last() % 16) as nat);
    }
}

proof fn lemma_hex_char(d: nat)
    requires
        d < 16,
    ensures
        is_hex_digit(hex_char(d)),
        d < 10 ==> hex_char(d) as nat == ('0' as nat) + d,
        d >= 10 ==> hex_char(d) as nat == ('a' as nat) + (d - 10),
{
}

/// A generated member id is 32 lower-case hexadecimal digits and nothing else.
pub proof fn law_generated_id_is_hexadecimal(id: Seq<char>)
    requires
        is_generated_id(id),
    ensures
        id.len() == 32,
        forall|i: int| 0 <= i < id.len() ==> is_hex_digit(#[trigger] id[i]),
{
    let bytes = choose|bytes: Seq<u8>|
        bytes.len() == 16 && drawn(bytes) && id == #[trigger] hex(bytes);
    lemma_hex_length(bytes);
    assert forall|i: int| 0 <= i < id.len() implies is_hex_digit(#[trigger] id[i]) by {
        lemma_hex_digits(bytes, i);
    }
}

/// Generated member ids differ whenever the bytes they were made from do, so two
/// of them are the same only if the same bytes were drawn twice.
pub proof fn law_different_bytes_give_different_ids(a: Seq<u8>, b: Seq<u8>)
    requires
        a != b,
    ensures
        hex(a) != hex(b),
    decreases a.len(),
{
    lemma_hex_length(a);
    lemma_hex_length(b);
    if hex(a) == hex(b) {
        assert(a.len() == b.len());
        if a.len() == 0 {
            assert(a =~= b);
        } else {
            let (x, y) = (a.last(), b.last());
            let shorter = hex(a).len() - 2;
            lemma_hex_length(a.drop_last());
            lemma_hex_length(b.drop_last());
            lemma_hex_char((x / 16) as nat);
            lemma_hex_char((x % 16) as nat);
            lemma_hex_char((y / 16) as nat);
            lemma_hex_char((y % 16) as nat);
            assert(hex(a)[shorter] == hex_char((x / 16) as nat));
            assert(hex(b)[shorter] == hex_char((y / 16) as nat));
            assert(hex(a).last() == hex_char((x % 16) as nat));
            assert(hex(b).last() == hex_char((y % 16) as nat));
            assert(x / 16 == y / 16 && x % 16 == y % 16);
            assert(x == y);
            assert(hex(a.drop_last()) =~= hex(a).take(shorter));
            assert(hex(b.drop_last()) =~= hex(b).take(shorter));
            if a.drop_last() == b.drop_last() {
                assert(a =~= a.drop_last().push(x));
                assert(b =~= b.drop_last().push(y));
            } else {
                law_different_bytes_give_different_ids(a.drop_last(), b.drop_last());
            }
        }
    }
}

/// Generates a fresh member id: sixteen random bytes, in hexadecimal. That two of
/// them differ is left to chance.
pub fn generate_member_id() -> (id: String)
    ensures
        is_generated_id(id@),
        id@.len() == 32,
{
    let bytes: Vec<u8> = random_bytes(16);
    proof {
        lemma_hex_length(bytes@);
    }
    to_hex(&bytes)
}

/// What a joining member intends to do with transports.
#[derive(Debug)]
pub enum TransportIntent {
    /// Publish on this transport.
    Publish(RtcTransport),
    /// Never publish; only receive.
    ReceiveOnly {
        /// Transport types this member can receive on.
        can_subscribe: Vec<String>,
    },
}

/// Parameters for joining a session.
#[derive(Debug)]
pub struct JoinSessionParams {
    /// The user that joins.
    pub user_id: String,
    /// The device that joins.
    pub device_id: String,
    /// The member id, and so the sticky key, of this join; a fresh one is made
    /// where it is absent.
    pub membership_id: Option<String>,
    /// The room the session is in.
    pub room_id: String,
    /// The slot of the session, e.g. `m.call#ROOM`.
    pub slot_id: String,
    /// The application's type, usually `m.call`.
    pub application: String,
    /// What this member does with transports.
    pub transport: TransportIntent,
    /// How long the delayed leave waits, in milliseconds.
    pub keep_alive_timeout_ms: Option<u64>,
    /// How long the homeserver keeps our membership, in milliseconds.
    pub sticky_duration_ms: Option<u64>,
    /// How long it does where delayed events are unavailable, in milliseconds.
    pub degraded_lifetime_ms: Option<u64>,
    /// How media keys are managed.
    pub encryption_config: Option<EncryptionConfig>,
    /// The notification to send with this join. Absent, the join is quiet.
    pub notify: Option<NotifyConfig>,
    /// How reactions and raised hands are handled.
    pub reactions: Option<ReactionsConfig>,
}

/// The lesser of a lifetime and the longest one that is honoured.
pub open spec fn honoured(lifetime: u64) -> u64 {
    if lifetime > MAX_STICKY_DURATION_MS {
        MAX_STICKY_DURATION_MS
    } else {
        lifetime
    }
}

/// `value`, or `default` where there is none.
pub open spec fn or_default(value: Option<u64>, default: u64) -> u64 {
    match value {
        Some(value) => value,
        None => default,
    }
}

impl JoinSessionParams {
    /// Creates parameters that publish on `transport`, with defaults for the rest.
    pub fn new(
        user_id: String,
        device_id: String,
        room_id: String,
        slot_id: String,
        application: String,
        transport: RtcTransport,
    ) -> (params: JoinSessionParams)
        ensures
            params == (JoinSessionParams {
                user_id,
                device_id,
                membership_id: None,
                room_id,
                slot_id,
                application,
                transport: TransportIntent::Publish(transport),
                keep_alive_timeout_ms: None,
                sticky_duration_ms: None,
                degraded_lifetime_ms: None,
                encryption_config: None,
                notify: None,
                reactions: None,
            }),
    {
        JoinSessionParams::with_transport_intent(
            user_id,
            device_id,
            room_id,
            slot_id,
            application,
            TransportIntent::Publish(transport),
        )
    }

    /// Creates parameters with the given transport intent, with defaults for the
    /// rest.
    pub fn with_transport_intent(
        user_id: String,
        device_id: String,
        room_id: String,
        slot_id: String,
        application: String,
        transport: TransportIntent,
    ) -> (params: JoinSessionParams)
        ensures
            params == (JoinSessionParams {
                user_id,
                device_id,
                membership_id: None,
                room_id,
                slot_id,
                application,
                transport,
                keep_alive_timeout_ms: None,
                sticky_duration_ms: None,
                degraded_lifetime_ms: None,
                encryption_config: None,
                notify: None,
                reactions: None,
            }),
    {
        JoinSessionParams {
            user_id,
            device_id,
            membership_id: None,
            room_id,
            slot_id,
            application,
            transport,
            keep_alive_timeout_ms: None,
            sticky_duration_ms: None,
            degraded_lifetime_ms: None,
            encryption_config: None,
            notify: None,
            reactions: None,
        }
    }

    /// The member id to use for this join: the configured one, or a fresh random
    /// one, which is different on every call.
    pub fn membership_id(&self) -> (id: String)
        ensures
            match self.membership_id {
                Some(configured) => id == configured,
                None => is_generated_id(id@) && id@.len() == 32,
            },
    {
        match &self.membership_id {
            Some(configured) => configured.clone(),
            None => generate_member_id(),
        }
    }

    /// How long the delayed leave waits: as configured, or the default.
    pub fn keep_alive_timeout_ms(&self) -> (timeout: u64)
        ensures
            timeout == or_default(self.keep_alive_timeout_ms, DEFAULT_KEEP_ALIVE_TIMEOUT_MS),
    {
        match self.keep_alive_timeout_ms {
            Some(timeout) => timeout,
            None => DEFAULT_KEEP_ALIVE_TIMEOUT_MS,
        }
    }

    /// How long the homeserver keeps our membership: as configured, or the
    /// default, but no longer than is honoured.
    pub fn sticky_duration_ms(&self) -> (duration: u64)
        ensures
            duration == honoured(or_default(self.sticky_duration_ms, DEFAULT_STICKY_DURATION_MS)),
    {
        let requested: u64 = match self.sticky_duration_ms {
            Some(requested) => requested,
            None => DEFAULT_STICKY_DURATION_MS,
        };
        if requested > MAX_STICKY_DURATION_MS {
            MAX_STICKY_DURATION_MS
        } else {
            requested
        }
    }

    /// How long our membership lasts where delayed events are unavailable: as
    /// configured, or the default, but no longer than is honoured.
    pub fn degraded_lifetime_ms(&self) -> (lifetime: u64)
        ensures
            lifetime == honoured(
                or_default(self.degraded_lifetime_ms, DEFAULT_DEGRADED_LIFETIME_MS),
            ),
    {
        let requested: u64 = match self.degraded_lifetime_ms {
            Some(requested) => requested,
            None => DEFAULT_DEGRADED_LIFETIME_MS,
        };
        if requested > MAX_STICKY_DURATION_MS {
            MAX_STICKY_DURATION_MS
        } else {
            requested
        }
    }

    /// How reactions are handled: as configured, or the default.
    pub fn reactions(&self) -> (config: ReactionsConfig)
        ensures
            config == (match self.reactions {
                Some(configured) => configured,
                None => ReactionsConfig::standard(),
            }),
    {
        match self.reactions {
            Some(configured) => configured,
            None => ReactionsConfig::default(),
        }
    }

    /// How media keys are managed: as configured, or the default.
    pub fn encryption_config(&self) -> (config: EncryptionConfig)
        ensures
            config == (match self.encryption_config {
                Some(configured) => configured,
                None => EncryptionConfig::standard(),
            }),
    {
        match &self.encryption_config {
            Some(configured) => configured.clone(),
            None => EncryptionConfig::default(),
        }
    }

    /// What is missing from these parameters, in words: the first of the required
    /// fields that is empty.
    pub open spec fn missing(self) -> Option<Seq<char>> {
        if self.user_id@.len() == 0 {
            Some("user_id is required"@)
        } else if self.device_id@.len() == 0 {
            Some("device_id is required"@)
        } else if self.room_id@.len() == 0 {
            Some("room_id is required"@)
        } else if self.slot_id@.len() == 0 {
            Some("slot_id is required"@)
        } else if self.application@.len() == 0 {
            Some("application is required"@)
        } else {
            None
        }
    }

    /// Checks that every required field is there.
    pub fn validate(&self) -> (checked: Result<(), &'static str>)
        ensures
            match checked {
                Ok(()) => self.missing() is None,
                Err(error) => self.missing() == Some(error@),
            },
    {
        if self.user_id.as_str().is_empty() {
            return Err("user_id is required");
        }
        if self.device_id.as_str().is_empty() {
            return Err("device_id is required");
        }
        if self.room_id.as_str().is_empty() {
            return Err("room_id is required");
        }
        if self.slot_id.as_str().is_empty() {
            return Err("slot_id is required");
        }
        if self.application.as_str().is_empty() {
            return Err("application is required");
        }
        Ok(())
    }
}

/// Parameters for leaving a session.
#[derive(Debug)]
pub struct LeaveSessionParams {
    /// Why. Absent, it is a plain leave.
    pub leave_reason: Option<LeaveReason>,
}

impl Default for LeaveSessionParams {
    fn default() -> (params: LeaveSessionParams)
        ensures
            params.leave_reason is None,
    {
        LeaveSessionParams { leave_reason: None }
    }
}

impl LeaveSessionParams {
    /// Leaves without a stated reason.
    pub fn new() -> (params: LeaveSessionParams)
        ensures
            params.leave_reason is None,
    {
        LeaveSessionParams::default()
    }

    /// Leaves with a reason.
    pub fn with_leave_reason(leave_reason: LeaveReason) -> (params: LeaveSessionParams)
        ensures
            params.leave_reason == Some(leave_reason),
    {
        LeaveSessionParams { leave_reason: Some(leave_reason) }
    }

    /// Leaves with a bare code.
    pub fn with_code(code: LeaveCode) -> (params: LeaveSessionParams)
        ensures
            params.leave_reason == Some(LeaveReason { code, reason: None }),
    {
        LeaveSessionParams::with_leave_reason(LeaveReason::new(code))
    }
}

} // verus!
