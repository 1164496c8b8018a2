//! What the application is told, and when: on a membership update, and when it
//! starts to listen after keys are already held.

use vstd::prelude::*;
use crate::encryption::inbound::{event_views, KeyEvent};
use crate::encryption::outbound::{find_membership, membership_of};
use crate::encryption::rotation::age;
use crate::encryption::types::{copy_bytes, InboundEncryptionKey, InboundKeyView};
use crate::encryption::{
    inbound_views, EncryptionManager, KeySubject, PendingSignal, SignalView, SubjectView,
};
use crate::session::JoinedMembership;

verus! {

/// What a membership update calls for.
#[derive(Debug)]
pub struct MembershipsUpdate {
    /// What became of keys that were waiting for a membership.
    pub events: Vec<KeyEvent>,
    /// Our own key, if the application has not been told of it yet.
    pub own_signal: Option<PendingSignal>,
    /// Whether our key has to be distributed.
    pub distribute: bool,
}

/// The models of a list of signals.
pub open spec fn signal_views(signals: Seq<PendingSignal>) -> Seq<SignalView> {
    signals.map_values(|signal: PendingSignal| signal@)
}

/// The signals that replay another participant's keys.
pub open spec fn peer_signals(
    keys: Seq<InboundKeyView>,
    membership: JoinedMembership,
) -> Seq<SignalView> {
    keys.map_values(
        |key: InboundKeyView|
            SignalView {
                key: key.key,
                key_index: key.key_index,
                subject: SubjectView::peer(membership),
                use_after_ms: 0,
            },
    )
}

impl EncryptionManager {
    /// Whether a membership update leads from this manager to `after` and
    /// `update`.
    pub open spec fn updated(
        self,
        memberships: Seq<JoinedMembership>,
        now: u64,
        after: EncryptionManager,
        update: MembershipsUpdate,
    ) -> bool {
        if !self.config.manage_media_keys {
            &&& after == self
            &&& update.events@.len() == 0
            &&& update.own_signal is None
            &&& !update.distribute
        } else {
            let (inbound, told) = self.inbound().settle(
                self.key_buffer.buffer_ttl_ms,
                self.inbound().waiting,
                memberships,
            );
            &&& event_views(update.events@) == self.heard_all(told)
            &&& update.distribute == (self.outbound_key is Some)
            &&& exists|settled: EncryptionManager|
                {
                    &&& #[trigger] self.same_but_inbound(settled)
                    &&& settled.inbound() == inbound
                    &&& if settled.owes_signal() {
                        settled.signalled(
                            settled.outbound_key->0.key@,
                            settled.outbound_key->0.key_index,
                            0,
                            now,
                            after,
                            update.own_signal,
                        )
                    } else {
                        update.own_signal is None && after == settled
                    }
                }
        }
    }

    /// Takes note of a membership change: keys that waited for a membership are
    /// checked, our own key is signalled if it was not yet, and the caller is told
    /// whether it has to be distributed.
    pub fn on_memberships_update(&mut self, memberships: &Vec<JoinedMembership>, now: u64) -> (
    update: MembershipsUpdate)
        requires
            old(self).wf(),
        ensures
            final(self).wf(),
            old(self).updated(memberships@, now, *final(self), update),
    {
        if !self.config.manage_media_keys {
            return MembershipsUpdate { events: Vec::new(), own_signal: None, distribute: false };
        }
        let events: Vec<KeyEvent> = self.check_keys_without_membership(memberships);
        let ghost settled = *self;
        let distribute: bool = self.outbound_key.is_some();
        let own_signal: Option<PendingSignal> = self.signal_current_key(now);
        assert(old(self).same_but_inbound(settled));
        MembershipsUpdate { events, own_signal, distribute }
    }

    /// What is left of our key's delay at `now`: nothing, unless its rotation was
    /// signalled and is still waiting.
    pub open spec fn remaining_delay(self, key_index: u8, now: u64) -> u64 {
        match self.signalled_key {
            Some(signalled) => if signalled.key_index == key_index {
                let elapsed = age(signalled.at_ms, now);
                if elapsed < signalled.use_after_ms {
                    (signalled.use_after_ms - elapsed) as u64
                } else {
                    0
                }
            } else {
                0
            },
            None => 0,
        }
    }

    /// The signal that replays our own key, if there is one.
    pub open spec fn own_replay(self, now: u64) -> Seq<SignalView> {
        match self.outbound_key {
            Some(key) => seq![
                SignalView {
                    key: key.key@,
                    key_index: key.key_index,
                    subject: self.own_subject(),
                    use_after_ms: self.remaining_delay(key.key_index, now),
                },
            ],
            None => Seq::empty(),
        }
    }

    /// The signals that replay one participant's keys: none while its member
    /// event is unknown.
    pub open spec fn peer_replay(
        self,
        memberships: Seq<JoinedMembership>,
        member_id: Seq<char>,
    ) -> Seq<SignalView> {
        match find_membership(memberships, member_id) {
            Some(membership) => peer_signals(self.inbound().held(member_id), membership),
            None => Seq::empty(),
        }
    }

    /// The signals that replay the keys of the given participants, in order.
    pub open spec fn peers_replay(
        self,
        memberships: Seq<JoinedMembership>,
        member_ids: Seq<Seq<char>>,
    ) -> Seq<SignalView>
        decreases member_ids.len(),
    {
        if member_ids.len() == 0 {
            Seq::empty()
        } else {
            self.peers_replay(memberships, member_ids.drop_last()) + self.peer_replay(
                memberships,
                member_ids.last(),
            )
        }
    }

    /// The signals that replay every key that is held: none while nothing listens,
    /// or where media keys are not managed.
    pub open spec fn replayed(
        self,
        memberships: Seq<JoinedMembership>,
        now: u64,
    ) -> Seq<SignalView> {
        if self.tells_keys() {
            self.own_replay(now) + self.peers_replay(memberships, self.inbound_keys.order())
        } else {
            Seq::empty()
        }
    }

    /// Signals every key that is held once more, for an application that started
    /// to listen after they arrived.
    ///
    /// Our own key comes first, with whatever is left of its delay; replaying it
    /// without would have us encrypt with a key peers have not installed yet.
    pub fn replay_keys_to_handler(&self, memberships: &Vec<JoinedMembership>, now: u64) -> (signals:
        Vec<PendingSignal>)
        ensures
            signal_views(signals@) == self.replayed(memberships@, now),
            self.inbound_keys.lists_its_keys(),
    {
        let held: usize = self.inbound_keys.len();
        let mut signals: Vec<PendingSignal> = Vec::new();
        assert(signal_views(signals@) =~= Seq::<SignalView>::empty());
        if !self.signals_key_material() {
            return signals;
        }
        match &self.outbound_key {
            Some(key) => {
                let use_after_ms: u64 = match &self.signalled_key {
                    Some(signalled) => if signalled.key_index == key.key_index {
                        let elapsed: u64 = now.saturating_sub(signalled.at_ms);
                        signalled.use_after_ms.saturating_sub(elapsed)
                    } else {
                        0
                    },
                    None => 0,
                };
                let signal = PendingSignal {
                    key: copy_bytes(&key.key),
                    key_index: key.key_index,
                    subject: KeySubject {
                        user_id: self.own_user_id.clone(),
                        device_id: self.own_device_id.clone(),
                        member_id: self.own_member_id.clone(),
                        is_own: true,
                    },
                    use_after_ms,
                };
                signals.push(signal);
            },
            None => {},
        }
        assert(signal_views(signals@) =~= self.own_replay(now));
        let ghost order = self.inbound_keys.order();
        let mut i: usize = 0;
        proof {
            assert(order.take(0) =~= Seq::<Seq<char>>::empty());
            assert(self.own_replay(now) + self.peers_replay(memberships@, order.take(0))
                =~= self.own_replay(now));
        }
        while i < held
            invariant
                held == order.len(),
                order == self.inbound_keys.order(),
                i <= order.len(),
                signal_views(signals@) == self.own_replay(now) + self.peers_replay(
                    memberships@,
                    order.take(i as int),
                ),
            decreases order.len() - i,
        {
            let member_id: &str = self.inbound_keys.key_at(i);
            let ghost so_far = signal_views(signals@);
            proof {
                assert(order.take(i + 1).drop_last() =~= order.take(i as int));
                assert(order.take(i + 1).last() == member_id@);
            }
            match membership_of(memberships, member_id) {
                Some(membership) => {
                    let keys: &Vec<InboundEncryptionKey> = self.inbound_keys.value_at(i);
                    let ghost expected = peer_signals(inbound_views(keys@), *membership);
                    proof {
                        assert(self.inbound().held(member_id@) =~= inbound_views(keys@));
                        assert(so_far + expected.take(0) =~= so_far);
                    }
                    let mut j: usize = 0;
                    while j < keys.len()
                        invariant
                            j <= keys@.len(),
                            expected == peer_signals(inbound_views(keys@), *membership),
                            signal_views(signals@) == so_far + expected.take(j as int),
                        decreases keys@.len() - j,
                    {
                        let signal = PendingSignal {
                            key: copy_bytes(&keys[j].key),
                            key_index: keys[j].key_index,
                            subject: KeySubject::peer(membership),
                            use_after_ms: 0,
                        };
                        let ghost earlier = signals@;
                        signals.push(signal);
                        proof {
                            assert(inbound_views(keys@)[j as int] == keys@[j as int]@);
                            assert(signal@ == expected[j as int]);
                            assert(signal_views(signals@) =~= signal_views(earlier).push(signal@));
                            assert(so_far + expected.take(j + 1) =~= (so_far + expected.take(
                                j as int,
                            )).push(expected[j as int]));
                        }
                        j = j + 1;
                    }
                    proof {
                        assert(expected.take(keys@.len() as int) =~= expected);
                    }
                },
                None => {
                    assert(so_far + Seq::<SignalView>::empty() =~= so_far);
                },
            }
            proof {
                let earlier = self.peers_replay(memberships@, order.take(i as int));
                let added = self.peer_replay(memberships@, member_id@);
                assert((self.own_replay(now) + earlier) + added =~= self.own_replay(now) + (earlier
                    + added));
            }
            i = i + 1;
        }
        assert(order.take(order.len() as int) =~= order);
        signals
    }
}

} // verus!
