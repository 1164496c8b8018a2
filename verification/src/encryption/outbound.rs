//! Our own key: who has to be sent it, and when it is replaced.

use vstd::prelude::*;
use crate::commands::{RtcCommand, ToDeviceDelivery, ToDeviceRecipient};
use crate::encoding::{base64_decoded, base64_encode, base64_encoded, read_as};
use crate::encryption::rotation::later;
use crate::encryption::types::{
    copy_bytes, participants, OutboundEncryptionKey, OutboundKeyView, ParticipantDeviceInfo,
    ParticipantView,
};
use crate::encryption::{
    device_or_empty, device_or_nothing, following_index, EncryptionManager, KeySubject,
    PendingSignal, SignalView, SignalledKey, SupersededKey, KEY_LENGTH, KEY_MESSAGE_TYPE,
};
use crate::error::CommandError;
use crate::json::{Json, JsonView};
use crate::random::drawn;
use crate::seqs::{lemma_filter_next, lemma_filter_none, lemma_take_all};
use crate::session::JoinedMembership;
use crate::text::same_text;

verus! {

/// Whether a list holds the same join as `participant`.
pub open spec fn has_join(list: Seq<ParticipantView>, participant: ParticipantView) -> bool {
    exists|i: int| 0 <= i < list.len() && (#[trigger] list[i]).same_join(participant)
}

/// Whether a list holds a participation of the same member id.
pub open spec fn has_member_id(list: Seq<ParticipantView>, member_id: Seq<char>) -> bool {
    exists|i: int| 0 <= i < list.len() && (#[trigger] list[i]).member_id == member_id
}

/// The joins of `served` that `shared` does not hold yet, added to it in order.
pub open spec fn with_joins(
    shared: Seq<ParticipantView>,
    served: Seq<ParticipantView>,
) -> Seq<ParticipantView>
    decreases served.len(),
{
    if served.len() == 0 {
        shared
    } else {
        let earlier = with_joins(shared, served.drop_last());
        if has_join(earlier, served.last()) {
            earlier
        } else {
            earlier.push(served.last())
        }
    }
}

/// The participation a membership stands for.
pub open spec fn participant_of(membership: JoinedMembership) -> ParticipantView {
    ParticipantView {
        user_id: membership.sender@,
        device_id: device_or_empty(membership),
        member_id: membership.member_id@,
        membership_ts: membership.membership_ts,
    }
}

/// The first membership with a member id.
pub open spec fn find_membership(
    memberships: Seq<JoinedMembership>,
    member_id: Seq<char>,
) -> Option<JoinedMembership>
    decreases memberships.len(),
{
    if memberships.len() == 0 {
        None
    } else if memberships[0].member_id@ == member_id {
        Some(memberships[0])
    } else {
        find_membership(memberships.drop_first(), member_id)
    }
}

/// Finds the first membership with a member id.
pub fn membership_of<'a>(memberships: &'a Vec<JoinedMembership>, member_id: &str) -> (found: Option<
    &'a JoinedMembership,
>)
    ensures
        match found {
            Some(membership) => find_membership(memberships@, member_id@) == Some(*membership)
                && membership.member_id@ == member_id@,
            None => find_membership(memberships@, member_id@) is None,
        },
{
    let mut i: usize = 0;
    assert(memberships@.skip(0) =~= memberships@);
    while i < memberships.len()
        invariant
            i <= memberships@.len(),
            find_membership(memberships@, member_id@) == find_membership(
                memberships@.skip(i as int),
                member_id@,
            ),
        decreases memberships@.len() - i,
    {
        assert(memberships@.skip(i as int)[0] == memberships@[i as int]);
        assert(memberships@.skip(i as int).drop_first() =~= memberships@.skip(i + 1));
        if same_text(memberships[i].member_id.as_str(), member_id) {
            return Some(&memberships[i]);
        }
        i = i + 1;
    }
    None
}

/// The user and device a participation's member event was sent from, where that
/// event is known and names one.
pub open spec fn address_of(
    memberships: Seq<JoinedMembership>,
    target: ParticipantView,
) -> Option<(Seq<char>, Seq<char>)> {
    match find_membership(memberships, target.member_id) {
        Some(membership) => match membership.origin.device() {
            Some(device) => Some((membership.sender@, device)),
            None => None,
        },
        None => None,
    }
}

/// The content of a key message: our member id and key, the same for every
/// recipient.
pub open spec fn key_content(
    room_id: Seq<char>,
    member_id: Seq<char>,
    key_index: u8,
    key_b64: Seq<char>,
) -> JsonView {
    JsonView::object().with("room_id"@, JsonView::Text(room_id)).with(
        "member_id"@,
        JsonView::Text(member_id),
    ).with(
        "media_key"@,
        JsonView::object().with("index"@, JsonView::number(key_index as u64)).with(
            "key"@,
            JsonView::Text(key_b64),
        ),
    ).with("format"@, JsonView::number(0))
}

/// The first delivery reported for a device.
pub open spec fn first_delivery(
    deliveries: Seq<ToDeviceDelivery>,
    user_id: Seq<char>,
    device_id: Seq<char>,
) -> Option<ToDeviceDelivery>
    decreases deliveries.len(),
{
    if deliveries.len() == 0 {
        None
    } else if deliveries[0].recipient.user_id@ == user_id && deliveries[0].recipient.device_id@
        == device_id {
        Some(deliveries[0])
    } else {
        first_delivery(deliveries.drop_first(), user_id, device_id)
    }
}

/// Whether a send is known to have reached a participation's device. A device no
/// outcome was reported for was not reached.
pub open spec fn reached(deliveries: Seq<ToDeviceDelivery>, target: ParticipantView) -> bool {
    match first_delivery(deliveries, target.user_id, target.device_id) {
        Some(delivery) => delivery.error is None,
        None => false,
    }
}

/// The participations a send reached: none where the batch never left.
pub open spec fn served_by(
    addressed: Seq<ParticipantView>,
    outcome: Result<Vec<ToDeviceDelivery>, CommandError>,
) -> Seq<ParticipantView> {
    match outcome {
        Ok(deliveries) => addressed.filter(
            |target: ParticipantView| reached(deliveries@, target),
        ),
        Err(_) => Seq::empty(),
    }
}

/// A key and its index.
#[derive(Debug)]
pub struct KeyInUse {
    /// The rolling key index.
    pub key_index: u8,
    /// The key bytes.
    pub key: Vec<u8>,
}

/// What a rollout has to do.
#[derive(Debug)]
pub struct RolloutPlan {
    /// Whether a new key is minted.
    pub rotating: bool,
    /// When the key the rollout leaves in place expires.
    pub due_at: u64,
    /// The participations that hold no key of ours yet.
    pub arrivals: Vec<ParticipantDeviceInfo>,
    /// The participations to send the key to.
    pub recipients: Vec<ParticipantDeviceInfo>,
    /// How long to wait before encrypting with a new key.
    pub use_after_ms: u64,
    /// What is on the wire until then.
    pub still_in_use: Option<KeyInUse>,
}

/// Model of a [`RolloutPlan`].
#[verifier::ext_equal]
pub struct PlanView {
    /// Whether a new key is minted.
    pub rotating: bool,
    /// When the key the rollout leaves in place expires.
    pub due_at: u64,
    /// The participations that hold no key of ours yet.
    pub arrivals: Seq<ParticipantView>,
    /// The participations to send the key to.
    pub recipients: Seq<ParticipantView>,
    /// How long to wait before encrypting with a new key.
    pub use_after_ms: u64,
    /// What is on the wire until then.
    pub still_in_use: Option<(u8, Seq<u8>)>,
}

impl View for RolloutPlan {
    type V = PlanView;

    open spec fn view(&self) -> PlanView {
        PlanView {
            rotating: self.rotating,
            due_at: self.due_at,
            arrivals: participants(self.arrivals@),
            recipients: participants(self.recipients@),
            use_after_ms: self.use_after_ms,
            still_in_use: match self.still_in_use {
                Some(in_use) => Some((in_use.key_index, in_use.key@)),
                None => None,
            },
        }
    }
}

/// A rollout under way: its plan, and the key it hands out.
#[derive(Debug)]
pub struct Rollout {
    /// What it has to do.
    pub plan: RolloutPlan,
    /// The key it hands out.
    pub key: Vec<u8>,
    /// That key's index.
    pub key_index: u8,
    /// When it was started.
    pub started_at: u64,
}

impl Rollout {
    /// Every key a rollout hands out has the length of a media key.
    pub open spec fn wf(self) -> bool {
        &&& self.key@.len() == KEY_LENGTH
        &&& self.plan.still_in_use matches Some(in_use) ==> in_use.key@.len() == KEY_LENGTH
    }
}

/// A key message ready to be sent.
#[derive(Debug)]
pub struct KeySend {
    /// The participations it is for.
    pub addressed: Vec<ParticipantDeviceInfo>,
    /// Their devices, in the same order.
    pub recipients: Vec<ToDeviceRecipient>,
    /// The content.
    pub content: Json,
}

fn holds_join(list: &Vec<ParticipantDeviceInfo>, participant: &ParticipantDeviceInfo) -> (yes: bool)
    ensures
        yes == has_join(participants(list@), participant@),
{
    let mut i: usize = 0;
    while i < list.len()
        invariant
            i <= list@.len(),
            forall|j: int| 0 <= j < i ==> !(#[trigger] list@[j])@.same_join(participant@),
        decreases list@.len() - i,
    {
        if list[i].same_join(participant) {
            assert(participants(list@)[i as int].same_join(participant@));
            return true;
        }
        i = i + 1;
    }
    proof {
        if has_join(participants(list@), participant@) {
            let j = choose|j: int|
                0 <= j < participants(list@).len() && (#[trigger] participants(
                    list@,
                )[j]).same_join(participant@);
            assert(list@[j]@.same_join(participant@));
        }
    }
    false
}

fn holds_member_id(list: &Vec<ParticipantDeviceInfo>, member_id: &str) -> (yes: bool)
    ensures
        yes == has_member_id(participants(list@), member_id@),
{
    let mut i: usize = 0;
    while i < list.len()
        invariant
            i <= list@.len(),
            forall|j: int| 0 <= j < i ==> (#[trigger] list@[j]).member_id@ != member_id@,
        decreases list@.len() - i,
    {
        if same_text(list[i].member_id.as_str(), member_id) {
            assert(participants(list@)[i as int].member_id == member_id@);
            return true;
        }
        i = i + 1;
    }
    proof {
        if has_member_id(participants(list@), member_id@) {
            let j = choose|j: int|
                0 <= j < participants(list@).len() && (#[trigger] participants(list@)[j]).member_id
                    == member_id@;
            assert(list@[j].member_id@ == member_id@);
        }
    }
    false
}

/// Whether some participation of `list` is not among `others`.
pub open spec fn some_missing(list: Seq<ParticipantView>, others: Seq<ParticipantView>) -> bool {
    exists|i: int| 0 <= i < list.len() && !has_join(others, #[trigger] list[i])
}

/// Whether some participation of `list` is among `others`.
pub open spec fn some_shared(list: Seq<ParticipantView>, others: Seq<ParticipantView>) -> bool {
    exists|i: int| 0 <= i < list.len() && has_join(others, #[trigger] list[i])
}

/// The participations of `list` that are not among `others`.
pub open spec fn missing(
    list: Seq<ParticipantView>,
    others: Seq<ParticipantView>,
) -> Seq<ParticipantView> {
    list.filter(|participant: ParticipantView| !has_join(others, participant))
}

fn any_missing(list: &Vec<ParticipantDeviceInfo>, others: &Vec<ParticipantDeviceInfo>) -> (yes: bool)
    ensures
        yes == some_missing(participants(list@), participants(others@)),
{
    let mut i: usize = 0;
    while i < list.len()
        invariant
            i <= list@.len(),
            forall|j: int|
                0 <= j < i ==> has_join(participants(others@), #[trigger] participants(list@)[j]),
        decreases list@.len() - i,
    {
        if !holds_join(others, &list[i]) {
            assert(!has_join(participants(others@), participants(list@)[i as int]));
            return true;
        }
        i = i + 1;
    }
    false
}

fn any_shared(list: &Vec<ParticipantDeviceInfo>, others: &Vec<ParticipantDeviceInfo>) -> (yes: bool)
    ensures
        yes == some_shared(participants(list@), participants(others@)),
{
    let mut i: usize = 0;
    while i < list.len()
        invariant
            i <= list@.len(),
            forall|j: int|
                0 <= j < i ==> !has_join(participants(others@), #[trigger] participants(list@)[j]),
        decreases list@.len() - i,
    {
        if holds_join(others, &list[i]) {
            assert(has_join(participants(others@), participants(list@)[i as int]));
            return true;
        }
        i = i + 1;
    }
    false
}

fn missing_from(list: &Vec<ParticipantDeviceInfo>, others: &Vec<ParticipantDeviceInfo>) -> (found:
    Vec<ParticipantDeviceInfo>)
    ensures
        participants(found@) == missing(participants(list@), participants(others@)),
{
    let mut found: Vec<ParticipantDeviceInfo> = Vec::new();
    let ghost keep = |participant: ParticipantView|
        !has_join(participants(others@), participant);
    let ghost whole = participants(list@);
    proof {
        lemma_filter_none(whole, keep);
    }
    assert(participants(found@) =~= Seq::<ParticipantView>::empty());
    let mut i: usize = 0;
    while i < list.len()
        invariant
            i <= list@.len(),
            whole == participants(list@),
            keep == (|participant: ParticipantView| !has_join(participants(others@), participant)),
            participants(found@) == whole.take(i as int).filter(keep),
        decreases list@.len() - i,
    {
        proof {
            lemma_filter_next(whole, keep, i as int);
        }
        if !holds_join(others, &list[i]) {
            let ghost before = found@;
            found.push(list[i].clone());
            assert(participants(found@) =~= participants(before).push(whole[i as int]));
        }
        i = i + 1;
    }
    proof {
        lemma_take_all(whole);
    }
    found
}

fn copy_participants(list: &Vec<ParticipantDeviceInfo>) -> (copy: Vec<ParticipantDeviceInfo>)
    ensures
        copy@ == list@,
{
    let mut copy: Vec<ParticipantDeviceInfo> = Vec::new();
    let mut i: usize = 0;
    while i < list.len()
        invariant
            i <= list@.len(),
            copy@ == list@.take(i as int),
        decreases list@.len() - i,
    {
        copy.push(list[i].clone());
        assert(copy@ =~= list@.take(i + 1));
        i = i + 1;
    }
    assert(list@.take(list@.len() as int) =~= list@);
    copy
}

fn was_reached(deliveries: &Vec<ToDeviceDelivery>, target: &ParticipantDeviceInfo) -> (yes: bool)
    ensures
        yes == reached(deliveries@, target@),
{
    let mut i: usize = 0;
    assert(deliveries@.skip(0) =~= deliveries@);
    while i < deliveries.len()
        invariant
            i <= deliveries@.len(),
            first_delivery(deliveries@, target.user_id@, target.device_id@) == first_delivery(
                deliveries@.skip(i as int),
                target.user_id@,
                target.device_id@,
            ),
        decreases deliveries@.len() - i,
    {
        assert(deliveries@.skip(i as int)[0] == deliveries@[i as int]);
        assert(deliveries@.skip(i as int).drop_first() =~= deliveries@.skip(i + 1));
        if deliveries[i].recipient.user_id == target.user_id && deliveries[i].recipient.device_id
            == target.device_id {
            return deliveries[i].is_sent();
        }
        i = i + 1;
    }
    false
}

impl KeySend {
    /// The command that sends the message.
    pub fn command(&self) -> (command: RtcCommand)
        ensures
            command matches RtcCommand::SendToDevice { recipients, message_type, content }
                && recipients@ == self.recipients@ && message_type@ == KEY_MESSAGE_TYPE@ && content@
                == self.content@,
    {
        let mut recipients: Vec<ToDeviceRecipient> = Vec::new();
        let mut i: usize = 0;
        while i < self.recipients.len()
            invariant
                i <= self.recipients@.len(),
                recipients@ == self.recipients@.take(i as int),
            decreases self.recipients@.len() - i,
        {
            recipients.push(self.recipients[i].clone());
            assert(recipients@ =~= self.recipients@.take(i + 1));
            i = i + 1;
        }
        assert(self.recipients@.take(self.recipients@.len() as int) =~= self.recipients@);
        RtcCommand::SendToDevice {
            recipients,
            message_type: KEY_MESSAGE_TYPE.to_owned(),
            content: self.content.clone(),
        }
    }

    /// The participations the send reached, given what the host reports of it.
    ///
    /// Outcomes are matched by device rather than by position: a host is free to
    /// reorder them or to answer for only some recipients, and a recipient it did
    /// not answer for counts as not reached, so that it is tried again.
    pub fn served(self, outcome: Result<Vec<ToDeviceDelivery>, CommandError>) -> (served: Vec<
        ParticipantDeviceInfo,
    >)
        ensures
            participants(served@) == served_by(participants(self.addressed@), outcome),
    {
        let mut served: Vec<ParticipantDeviceInfo> = Vec::new();
        assert(participants(served@) =~= Seq::<ParticipantView>::empty());
        match outcome {
            Ok(deliveries) => {
                let ghost whole = participants(self.addressed@);
                let ghost keep = |target: ParticipantView| reached(deliveries@, target);
                proof {
                    lemma_filter_none(whole, keep);
                }
                let mut i: usize = 0;
                while i < self.addressed.len()
                    invariant
                        i <= self.addressed@.len(),
                        whole == participants(self.addressed@),
                        keep == (|target: ParticipantView| reached(deliveries@, target)),
                        participants(served@) == whole.take(i as int).filter(keep),
                    decreases self.addressed@.len() - i,
                {
                    proof {
                        lemma_filter_next(whole, keep, i as int);
                    }
                    if was_reached(&deliveries, &self.addressed[i]) {
                        let ghost before = served@;
                        served.push(self.addressed[i].clone());
                        assert(participants(served@) =~= participants(before).push(
                            whole[i as int],
                        ));
                    }
                    i = i + 1;
                }
                proof {
                    lemma_take_all(whole);
                }
            },
            Err(_) => {},
        }
        served
    }
}

impl Rollout {
    /// The arrivals that also need the key still on the wire: everyone the
    /// rollout reached who holds nothing else, while what we encrypt with is not
    /// what they were sent.
    pub open spec fn arrivals_to_cover(self, served: Seq<ParticipantView>) -> Seq<ParticipantView> {
        match self.plan.still_in_use {
            Some(in_use) => if in_use.key_index != self.key_index {
                participants(self.plan.arrivals@).filter(
                    |arrival: ParticipantView| has_member_id(served, arrival.member_id),
                )
            } else {
                Seq::empty()
            },
            None => Seq::empty(),
        }
    }

    /// The arrivals that also need the key still on the wire.
    pub fn arrivals_needing_key_in_use(&self, served: &Vec<ParticipantDeviceInfo>) -> (arrivals:
        Vec<ParticipantDeviceInfo>)
        ensures
            participants(arrivals@) == self.arrivals_to_cover(participants(served@)),
    {
        let mut arrivals: Vec<ParticipantDeviceInfo> = Vec::new();
        assert(participants(arrivals@) =~= Seq::<ParticipantView>::empty());
        match &self.plan.still_in_use {
            Some(in_use) => {
                if in_use.key_index == self.key_index {
                    return arrivals;
                }
                let list: &Vec<ParticipantDeviceInfo> = &self.plan.arrivals;
                let ghost whole = participants(list@);
                let ghost keep = |arrival: ParticipantView|
                    has_member_id(participants(served@), arrival.member_id);
                proof {
                    lemma_filter_none(whole, keep);
                }
                let mut i: usize = 0;
                while i < list.len()
                    invariant
                        i <= list@.len(),
                        whole == participants(list@),
                        keep == (|arrival: ParticipantView|
                            has_member_id(participants(served@), arrival.member_id)),
                        participants(arrivals@) == whole.take(i as int).filter(keep),
                    decreases list@.len() - i,
                {
                    proof {
                        lemma_filter_next(whole, keep, i as int);
                    }
                    if holds_member_id(served, list[i].member_id.as_str()) {
                        let ghost before = arrivals@;
                        arrivals.push(list[i].clone());
                        assert(participants(arrivals@) =~= participants(before).push(
                            whole[i as int],
                        ));
                    }
                    i = i + 1;
                }
                proof {
                    lemma_take_all(whole);
                }
                arrivals
            },
            None => arrivals,
        }
    }
}

impl EncryptionManager {
    /// Whether a membership is someone else's: neither this join nor a stale one
    /// of this very device. Other devices of our own user are peers like any.
    pub open spec fn is_peer(self, membership: JoinedMembership) -> bool {
        &&& membership.member_id@ != self.own_member_id@
        &&& !(membership.sender@ == self.own_user_id@ && membership.origin.device() == Some(
            self.own_device_id@,
        ))
    }

    /// The participation a membership stands for, unless it is our own.
    pub open spec fn as_peer(self, membership: JoinedMembership) -> Option<ParticipantView> {
        if self.is_peer(membership) {
            Some(participant_of(membership))
        } else {
            None
        }
    }

    /// Everyone else in the session.
    pub open spec fn peers(self, memberships: Seq<JoinedMembership>) -> Seq<ParticipantView> {
        memberships.filter_map(|membership: JoinedMembership| self.as_peer(membership))
    }

    /// The key we encrypt with at `now`: the one a rotation replaced, until the
    /// replacement's delay is over.
    pub open spec fn in_use(self, now: u64) -> Option<(u8, Seq<u8>)> {
        match self.superseded_key {
            Some(superseded) if now < superseded.in_use_until_ms => Some(
                (superseded.key_index, superseded.key@),
            ),
            _ => match self.outbound_key {
                Some(key) => Some((key.key_index, key.key@)),
                None => None,
            },
        }
    }

    /// What a rollout of `key` to the given memberships has to do at `now`.
    pub open spec fn plan(
        self,
        key: OutboundKeyView,
        memberships: Seq<JoinedMembership>,
        now: u64,
    ) -> PlanView {
        let present = self.peers(memberships);
        let arrivals = missing(present, key.shared_with);
        let expires_at = self.config.expiry(
            key.creation_ts,
            now,
            some_missing(key.shared_with, present),
            arrivals.len() > 0,
        );
        let rotating = now >= expires_at;
        let use_after_ms = if rotating && some_shared(present, key.shared_with) {
            self.config.delay_before_use_ms
        } else {
            0
        };
        PlanView {
            rotating,
            due_at: if rotating {
                later(now, self.config.lifetime())
            } else {
                expires_at
            },
            arrivals,
            recipients: if rotating {
                present
            } else {
                arrivals
            },
            use_after_ms,
            still_in_use: if rotating && use_after_ms == 0 {
                None
            } else {
                self.in_use(now)
            },
        }
    }

    fn peers_among(&self, memberships: &Vec<JoinedMembership>) -> (present: Vec<
        ParticipantDeviceInfo,
    >)
        ensures
            participants(present@) == self.peers(memberships@),
    {
        let mut present: Vec<ParticipantDeviceInfo> = Vec::new();
        let ghost choose_peer = |membership: JoinedMembership| self.as_peer(membership);
        proof {
            reveal(Seq::filter_map);
            assert(memberships@.take(0) =~= Seq::<JoinedMembership>::empty());
        }
        assert(participants(present@) =~= memberships@.take(0).filter_map(choose_peer));
        let mut i: usize = 0;
        while i < memberships.len()
            invariant
                i <= memberships@.len(),
                choose_peer == (|membership: JoinedMembership| self.as_peer(membership)),
                participants(present@) == memberships@.take(i as int).filter_map(choose_peer),
            decreases memberships@.len() - i,
        {
            let membership: &JoinedMembership = &memberships[i];
            proof {
                memberships@.lemma_filter_map_take_succ(choose_peer, i as int);
            }
            let is_this_join: bool = membership.member_id == self.own_member_id;
            let is_this_device: bool = membership.sender == self.own_user_id && (
            match membership.origin.sender_device_id() {
                Some(device) => same_text(device, self.own_device_id.as_str()),
                None => false,
            });
            if !is_this_join && !is_this_device {
                let ghost before = present@;
                let participant = ParticipantDeviceInfo {
                    user_id: membership.sender.clone(),
                    device_id: device_or_nothing(membership),
                    member_id: membership.member_id.clone(),
                    membership_ts: membership.membership_ts,
                };
                present.push(participant);
                assert(participants(present@) =~= participants(before).push(participant@));
                assert(participants(present@) =~= memberships@.take(i + 1).filter_map(choose_peer));
            }
            i = i + 1;
        }
        proof {
            lemma_take_all(memberships@);
        }
        present
    }

    /// The key we encrypt with at `now`, and its index.
    pub fn key_in_use(&self, now: u64) -> (in_use: Option<KeyInUse>)
        requires
            self.wf(),
        ensures
            match in_use {
                Some(in_use) => self.in_use(now) == Some((in_use.key_index, in_use.key@))
                    && in_use.key@.len() == KEY_LENGTH,
                None => self.in_use(now) is None,
            },
    {
        match &self.superseded_key {
            Some(superseded) => {
                if now < superseded.in_use_until_ms {
                    return Some(
                        KeyInUse {
                            key_index: superseded.key_index,
                            key: copy_bytes(&superseded.key),
                        },
                    );
                }
            },
            None => {},
        }
        match &self.outbound_key {
            Some(key) => Some(KeyInUse { key_index: key.key_index, key: copy_bytes(&key.key) }),
            None => None,
        }
    }

    /// Works out what a rollout has to do; `None` while there is no key.
    pub fn plan_rollout(&self, memberships: &Vec<JoinedMembership>, now: u64) -> (plan: Option<
        RolloutPlan,
    >)
        requires
            self.wf(),
        ensures
            plan is Some <==> self.outbound_key is Some,
            plan matches Some(plan) ==> plan@ == self.plan(
                self.outbound_key->0@,
                memberships@,
                now,
            ) && (plan.still_in_use matches Some(in_use) ==> in_use.key@.len() == KEY_LENGTH),
    {
        let key: &OutboundEncryptionKey = match &self.outbound_key {
            Some(key) => key,
            None => {
                return None;
            },
        };
        let present: Vec<ParticipantDeviceInfo> = self.peers_among(memberships);
        let departed: bool = any_missing(&key.shared_with, &present);
        let arrivals: Vec<ParticipantDeviceInfo> = missing_from(&present, &key.shared_with);
        let live: bool = any_shared(&present, &key.shared_with);
        let expires_at: u64 = self.config.expires_at(
            key.creation_ts,
            now,
            departed,
            arrivals.len() > 0,
        );
        assert(participants(arrivals@).len() == arrivals@.len());
        let rotating: bool = now >= expires_at;
        let due_at: u64 = if rotating {
            now.saturating_add(self.config.lifetime_ms())
        } else {
            expires_at
        };
        let use_after_ms: u64 = if rotating && live {
            self.config.delay_before_use_ms
        } else {
            0
        };
        let still_in_use: Option<KeyInUse> = if rotating && use_after_ms == 0 {
            None
        } else {
            self.key_in_use(now)
        };
        let recipients: Vec<ParticipantDeviceInfo> = if rotating {
            present
        } else {
            copy_participants(&arrivals)
        };
        Some(RolloutPlan { rotating, due_at, arrivals, recipients, use_after_ms, still_in_use })
    }

    /// A new key of ours, shared with no one yet.
    pub fn create_new_outbound_key(&mut self, now: u64) -> (key: OutboundEncryptionKey)
        ensures
            key.key@.len() == KEY_LENGTH,
            drawn(key.key@),
            key.key_index == old(self).next_key_index,
            key.creation_ts == now,
            key.shared_with@.len() == 0,
            *final(self) == (EncryptionManager {
                next_key_index: following_index(old(self).next_key_index),
                ..*old(self)
            }),
    {
        let key: Vec<u8> = self.generate_random_key();
        let key_index: u8 = self.next_key_index();
        OutboundEncryptionKey { key, key_index, creation_ts: now, shared_with: Vec::new() }
    }

    /// Whether beginning a rollout of `plan` with `fresh` as the new key, if one
    /// is needed, leads to `after` and `started`.
    pub open spec fn begun(
        self,
        plan: PlanView,
        fresh: Seq<u8>,
        now: u64,
        after: EncryptionManager,
        started: Option<Rollout>,
    ) -> bool {
        if !plan.rotating && plan.arrivals.len() == 0 {
            &&& started is None
            &&& after == (EncryptionManager { rotation_due_at: Some(plan.due_at), ..self })
        } else {
            &&& started matches Some(rollout) && {
                &&& rollout.plan@ == plan
                &&& rollout.started_at == now
                &&& rollout.wf()
                &&& if plan.rotating {
                    &&& rollout.key@ == fresh
                    &&& rollout.key_index == self.next_key_index
                } else {
                    &&& rollout.key@ == self.outbound_key->0.key@
                    &&& rollout.key_index == self.outbound_key->0.key_index
                }
            }
            &&& after == (EncryptionManager {
                rotation_due_at: Some(plan.due_at),
                next_key_index: if plan.rotating {
                    following_index(self.next_key_index)
                } else {
                    self.next_key_index
                },
                ..self
            })
        }
    }

    /// Begins a rollout: records when the key it leaves in place expires, and
    /// settles which key is handed out, `fresh` being the new one.
    ///
    /// Nothing is started where there is nothing to rotate to and nobody waiting.
    pub fn begin_rollout(&mut self, plan: RolloutPlan, fresh: Vec<u8>, now: u64) -> (started: Option<
        Rollout,
    >)
        requires
            old(self).wf(),
            old(self).outbound_key is Some,
            fresh@.len() == KEY_LENGTH,
            plan.still_in_use matches Some(in_use) ==> in_use.key@.len() == KEY_LENGTH,
        ensures
            final(self).wf(),
            old(self).begun(plan@, fresh@, now, *final(self), started),
    {
        assert(participants(plan.arrivals@).len() == plan.arrivals@.len());
        self.rotation_due_at = Some(plan.due_at);
        if !plan.rotating && plan.arrivals.is_empty() {
            return None;
        }
        if plan.rotating {
            let key_index: u8 = self.next_key_index();
            return Some(Rollout { plan, key: fresh, key_index, started_at: now });
        }
        match &self.outbound_key {
            Some(current) => {
                let key: Vec<u8> = copy_bytes(&current.key);
                let key_index: u8 = current.key_index;
                Some(Rollout { plan, key, key_index, started_at: now })
            },
            None => None,
        }
    }

    /// Whether planning and beginning a rollout at `now` leads to `after` and
    /// `started`.
    pub open spec fn rolled_out(
        self,
        memberships: Seq<JoinedMembership>,
        now: u64,
        after: EncryptionManager,
        started: Option<Rollout>,
    ) -> bool {
        match self.outbound_key {
            Some(key) => exists|fresh: Seq<u8>|
                fresh.len() == KEY_LENGTH && drawn(fresh) && #[trigger] self.begun(
                    self.plan(key@, memberships, now),
                    fresh,
                    now,
                    after,
                    started,
                ),
            None => started is None && after == self,
        }
    }

    /// Plans and begins a rollout, drawing a fresh key for it. `None` while there
    /// is no key of ours, or nothing to do.
    pub fn rollout_outbound_key(&mut self, memberships: &Vec<JoinedMembership>, now: u64) -> (started:
        Option<Rollout>)
        requires
            old(self).wf(),
        ensures
            final(self).wf(),
            old(self).rolled_out(memberships@, now, *final(self), started),
    {
        match self.plan_rollout(memberships, now) {
            Some(plan) => {
                let fresh: Vec<u8> = self.generate_random_key();
                let ghost minted = fresh@;
                let started: Option<Rollout> = self.begin_rollout(plan, fresh, now);
                assert(old(self).begun(
                    old(self).plan(old(self).outbound_key->0@, memberships@, now),
                    minted,
                    now,
                    *self,
                    started,
                ));
                started
            },
            None => None,
        }
    }

    /// Whether addressing a key to targets leads to `send`.
    pub open spec fn addressed_to(
        self,
        key: Seq<u8>,
        key_index: u8,
        targets: Seq<ParticipantView>,
        memberships: Seq<JoinedMembership>,
        send: Option<KeySend>,
    ) -> bool {
        match send {
            Some(send) => {
                &&& send.addressed@.len() > 0
                &&& participants(send.addressed@) == addressable(targets, memberships)
                &&& send.recipients@.len() == send.addressed@.len()
                &&& forall|i: int|
                    0 <= i < send.recipients@.len() ==> address_of(
                        memberships,
                        send.addressed@[i]@,
                    ) == Some(
                        ((#[trigger] send.recipients@[i]).user_id@, send.recipients@[i].device_id@),
                    )
                &&& send.content@ == key_content(
                    self.room_id@,
                    self.own_member_id@,
                    key_index,
                    base64_encoded(key),
                )
                &&& base64_decoded(base64_encoded(key)) == read_as(key)
            },
            None => addressable(targets, memberships).len() == 0,
        }
    }

    /// Addresses a key to every target that can be reached.
    ///
    /// A target whose member event is unknown, or names no sending device, is
    /// left out: the key is never sent to all devices of a user instead. `None`
    /// where nobody is left.
    pub fn send_key_to_participants(
        &self,
        key: &Vec<u8>,
        key_index: u8,
        targets: &Vec<ParticipantDeviceInfo>,
        memberships: &Vec<JoinedMembership>,
    ) -> (send: Option<KeySend>)
        requires
            key@.len() == KEY_LENGTH,
        ensures
            self.addressed_to(key@, key_index, participants(targets@), memberships@, send),
    {
        let mut addressed: Vec<ParticipantDeviceInfo> = Vec::new();
        let mut recipients: Vec<ToDeviceRecipient> = Vec::new();
        let ghost whole = participants(targets@);
        let ghost keep = |target: ParticipantView| address_of(memberships@, target) is Some;
        proof {
            lemma_filter_none(whole, keep);
        }
        assert(participants(addressed@) =~= Seq::<ParticipantView>::empty());
        let mut i: usize = 0;
        while i < targets.len()
            invariant
                i <= targets@.len(),
                whole == participants(targets@),
                keep == (|target: ParticipantView| address_of(memberships@, target) is Some),
                participants(addressed@) == whole.take(i as int).filter(keep),
                recipients@.len() == addressed@.len(),
                forall|j: int|
                    0 <= j < recipients@.len() ==> address_of(memberships@, addressed@[j]@) == Some(
                        ((#[trigger] recipients@[j]).user_id@, recipients@[j].device_id@),
                    ),
            decreases targets@.len() - i,
        {
            proof {
                lemma_filter_next(whole, keep, i as int);
            }
            let target: &ParticipantDeviceInfo = &targets[i];
            match membership_of(memberships, target.member_id.as_str()) {
                Some(membership) => match membership.origin.sender_device_id() {
                    Some(device) => {
                        let ghost before = addressed@;
                        recipients.push(
                            ToDeviceRecipient::new(membership.sender.as_str(), device),
                        );
                        addressed.push(target.clone());
                        assert(participants(addressed@) =~= participants(before).push(
                            whole[i as int],
                        ));
                    },
                    None => {},
                },
                None => {},
            }
            i = i + 1;
        }
        proof {
            lemma_take_all(whole);
        }
        assert(participants(addressed@).len() == addressed@.len());
        if addressed.is_empty() {
            return None;
        }
        let key_b64: String = base64_encode(key);
        let media_key: Json = Json::object().with("index", Json::number(key_index as u64)).with(
            "key",
            Json::text(key_b64.as_str()),
        );
        let content: Json = Json::object().with("room_id", Json::text(self.room_id.as_str())).with(
            "member_id",
            Json::text(self.own_member_id.as_str()),
        ).with("media_key", media_key).with("format", Json::number(0));
        Some(KeySend { addressed, recipients, content })
    }

    /// Whether signalling our key leads to `after` and `signal`.
    pub open spec fn signalled(
        self,
        key: Seq<u8>,
        key_index: u8,
        use_after_ms: u64,
        now: u64,
        after: EncryptionManager,
        signal: Option<PendingSignal>,
    ) -> bool {
        if self.tells_keys() {
            &&& signal matches Some(signal) && signal@ == (SignalView {
                key,
                key_index,
                subject: self.own_subject(),
                use_after_ms,
            })
            &&& after == (EncryptionManager {
                signalled_key: Some(SignalledKey { key_index, at_ms: now, use_after_ms }),
                ..self
            })
        } else {
            signal is None && after == self
        }
    }

    /// Signals our key to the application, if it is told of key material.
    fn signal_key_to_app(&mut self, key: &Vec<u8>, key_index: u8, use_after_ms: u64, now: u64) -> (
    signal: Option<PendingSignal>)
        ensures
            old(self).signalled(key@, key_index, use_after_ms, now, *final(self), signal),
    {
        if !self.signals_key_material() {
            return None;
        }
        self.signalled_key = Some(SignalledKey { key_index, at_ms: now, use_after_ms });
        Some(
            PendingSignal {
                key: copy_bytes(key),
                key_index,
                subject: KeySubject {
                    user_id: self.own_user_id.clone(),
                    device_id: self.own_device_id.clone(),
                    member_id: self.own_member_id.clone(),
                    is_own: true,
                },
                use_after_ms,
            },
        )
    }

    /// Whether finishing `rollout`, having reached `served`, leads to `after` and
    /// `signal`.
    pub open spec fn finished(
        self,
        rollout: Rollout,
        served: Seq<ParticipantView>,
        now: u64,
        after: EncryptionManager,
        signal: Option<PendingSignal>,
    ) -> bool {
        if rollout.plan.rotating {
            exists|switched: EncryptionManager|
                {
                    &&& switched == (EncryptionManager {
                        outbound_key: switched.outbound_key,
                        superseded_key: switched.superseded_key,
                        ..self
                    })
                    &&& switched.outbound_key matches Some(key) && key@ == (OutboundKeyView {
                        key: rollout.key@,
                        key_index: rollout.key_index,
                        creation_ts: rollout.started_at,
                        shared_with: served,
                    })
                    &&& match rollout.plan.still_in_use {
                        Some(in_use) if rollout.plan.use_after_ms > 0 => {
                            switched.superseded_key matches Some(superseded) && superseded.key_index
                                == in_use.key_index && superseded.key@ == in_use.key@
                                && superseded.in_use_until_ms == later(
                                rollout.started_at,
                                rollout.plan.use_after_ms,
                            )
                        },
                        _ => switched.superseded_key is None,
                    }
                    &&& #[trigger] switched.signalled(
                        rollout.key@,
                        rollout.key_index,
                        rollout.plan.use_after_ms,
                        now,
                        after,
                        signal,
                    )
                }
        } else {
            &&& signal is None
            &&& match self.outbound_key {
                Some(key) => {
                    &&& after == (EncryptionManager { outbound_key: after.outbound_key, ..self })
                    &&& after.outbound_key matches Some(key_after) && key_after@ == (
                    OutboundKeyView { shared_with: with_joins(key@.shared_with, served), ..key@ })
                },
                None => after == self,
            }
        }
    }

    /// Finishes a rollout that reached `served`.
    ///
    /// A rotation takes effect: the new key is ours from now on, shared with
    /// exactly those it reached, and is signalled with the delay the plan settled.
    /// Otherwise those it reached are recorded as holding the current key. Whoever
    /// was not reached is tried again by the next rollout.
    pub fn finish_rollout(
        &mut self,
        rollout: Rollout,
        served: Vec<ParticipantDeviceInfo>,
        now: u64,
    ) -> (signal: Option<PendingSignal>)
        requires
            old(self).wf(),
            rollout.wf(),
        ensures
            final(self).wf(),
            old(self).finished(rollout, participants(served@), now, *final(self), signal),
    {
        if rollout.plan.rotating {
            let Rollout { plan, key, key_index, started_at } = rollout;
            let use_after_ms: u64 = plan.use_after_ms;
            self.superseded_key = match plan.still_in_use {
                Some(in_use) => if use_after_ms > 0 {
                    Some(
                        SupersededKey {
                            key: in_use.key,
                            key_index: in_use.key_index,
                            in_use_until_ms: started_at.saturating_add(use_after_ms),
                        },
                    )
                } else {
                    None
                },
                None => None,
            };
            let bytes: Vec<u8> = copy_bytes(&key);
            self.outbound_key = Some(
                OutboundEncryptionKey {
                    key,
                    key_index,
                    creation_ts: started_at,
                    shared_with: served,
                },
            );
            let ghost switched = *self;
            let signal: Option<PendingSignal> = self.signal_key_to_app(
                &bytes,
                key_index,
                use_after_ms,
                now,
            );
            assert(switched.signalled(
                rollout.key@,
                rollout.key_index,
                rollout.plan.use_after_ms,
                now,
                *self,
                signal,
            ));
            signal
        } else {
            let mut taken: Option<OutboundEncryptionKey> = None;
            std::mem::swap(&mut taken, &mut self.outbound_key);
            match taken {
                Some(current) => {
                    let OutboundEncryptionKey { key, key_index, creation_ts, shared_with } =
                        current;
                    let shared_with: Vec<ParticipantDeviceInfo> = add_joins(shared_with, &served);
                    self.outbound_key = Some(
                        OutboundEncryptionKey { key, key_index, creation_ts, shared_with },
                    );
                },
                None => {},
            }
            None
        }
    }

    /// Whether asking for a distribution leads to `after` and `proceed`.
    pub open spec fn asked_to_distribute(self, after: EncryptionManager, proceed: bool) -> bool {
        &&& proceed == (self.config.manage_media_keys && !self.key_distribution_in_progress)
        &&& after == (if !self.config.manage_media_keys {
            self
        } else if self.key_distribution_in_progress {
            EncryptionManager { need_new_distribution: true, ..self }
        } else {
            EncryptionManager { key_distribution_in_progress: true, ..self }
        })
    }

    /// Whether completing a rollout of a distribution leads to `after` and `again`.
    pub open spec fn ended_rollout(self, after: EncryptionManager, again: bool) -> bool {
        &&& again == self.need_new_distribution
        &&& after == (EncryptionManager {
            need_new_distribution: false,
            key_distribution_in_progress: again && self.key_distribution_in_progress,
            ..self
        })
    }

    /// Whether a rotation that was put off has fallen due.
    pub open spec fn rotation_is_due(self, now: u64) -> bool {
        self.rotation_due_at matches Some(due_at) && now >= due_at
    }

    /// Claims the distribution: whether the caller has to roll keys out now.
    ///
    /// While a distribution is under way, any number of requests are answered by
    /// one more once it completes.
    pub fn ensure_key_distribution(&mut self) -> (proceed: bool)
        ensures
            old(self).asked_to_distribute(*final(self), proceed),
    {
        if !self.config.manage_media_keys {
            return false;
        }
        if self.key_distribution_in_progress {
            self.need_new_distribution = true;
            return false;
        }
        self.key_distribution_in_progress = true;
        true
    }

    /// Completes a rollout of a distribution: whether another one has to follow.
    pub fn end_distribution(&mut self) -> (again: bool)
        ensures
            old(self).ended_rollout(*final(self), again),
    {
        let again: bool = self.need_new_distribution;
        self.need_new_distribution = false;
        if !again {
            self.key_distribution_in_progress = false;
        }
        again
    }

    /// Whether a rotation that was put off has fallen due.
    ///
    /// Something has to come back for it: the deferral is what keeps a burst of
    /// departures from costing a key each, and nothing here owns a timer.
    pub fn flush_due_rotation(&self, now: u64) -> (due: bool)
        ensures
            due == self.rotation_is_due(now),
    {
        match self.rotation_due_at {
            Some(due_at) => now >= due_at,
            None => false,
        }
    }

    /// Whether the application still has to be told about our current key.
    pub open spec fn owes_signal(self) -> bool {
        self.outbound_key matches Some(key) && match self.signalled_key {
            Some(signalled) => signalled.key_index != key.key_index,
            None => true,
        }
    }

    /// Signals our current key unless its index was signalled last. The first key
    /// is usable at once.
    pub fn signal_current_key(&mut self, now: u64) -> (signal: Option<PendingSignal>)
        requires
            old(self).wf(),
        ensures
            final(self).wf(),
            if old(self).owes_signal() {
                old(self).signalled(
                    old(self).outbound_key->0.key@,
                    old(self).outbound_key->0.key_index,
                    0,
                    now,
                    *final(self),
                    signal,
                )
            } else {
                signal is None && *final(self) == *old(self)
            },
    {
        let (key, key_index): (Vec<u8>, u8) = match &self.outbound_key {
            Some(key) => (copy_bytes(&key.key), key.key_index),
            None => {
                return None;
            },
        };
        let already: bool = match &self.signalled_key {
            Some(signalled) => signalled.key_index == key_index,
            None => false,
        };
        if already {
            return None;
        }
        self.signal_key_to_app(&key, key_index, 0, now)
    }
}

/// The participations targets can be addressed at.
pub open spec fn addressable(
    targets: Seq<ParticipantView>,
    memberships: Seq<JoinedMembership>,
) -> Seq<ParticipantView> {
    targets.filter(|target: ParticipantView| address_of(memberships, target) is Some)
}

fn add_joins(
    shared: Vec<ParticipantDeviceInfo>,
    served: &Vec<ParticipantDeviceInfo>,
) -> (all: Vec<ParticipantDeviceInfo>)
    ensures
        participants(all@) == with_joins(participants(shared@), participants(served@)),
{
    let ghost start = participants(shared@);
    let ghost whole = participants(served@);
    let mut all: Vec<ParticipantDeviceInfo> = shared;
    let mut i: usize = 0;
    assert(whole.take(0) =~= Seq::<ParticipantView>::empty());
    while i < served.len()
        invariant
            i <= served@.len(),
            whole == participants(served@),
            participants(all@) == with_joins(start, whole.take(i as int)),
        decreases served@.len() - i,
    {
        assert(whole.take(i + 1).drop_last() =~= whole.take(i as int));
        assert(whole.take(i + 1).last() == served@[i as int]@);
        if !holds_join(&all, &served[i]) {
            let ghost before = all@;
            all.push(served[i].clone());
            assert(participants(all@) =~= participants(before).push(served@[i as int]@));
        }
        i = i + 1;
    }
    proof {
        lemma_take_all(whole);
    }
    all
}

} // verus!
