//! Sending one message to each of a set of devices.
//!
//! A device the client does not know yet is routine the first time a key is sent
//! to a peer, so before it is given up its user's devices are asked for, once per
//! user and batch. A device that cannot be reached fails alone; the others still
//! get the message.

use vstd::prelude::*;
use crate::commands::{ToDeviceDelivery, ToDeviceRecipient};
use crate::roster::holds_text;
use crate::text::{joined, texts};

verus! {

/// What became of looking a device up.
#[derive(Debug)]
pub enum DeviceLookup {
    /// The device is known.
    Found,
    /// No such device is known.
    Missing,
    /// The user id cannot be read; says why.
    Unparseable(String),
    /// The lookup failed; says how.
    Failed(String),
}

/// What to do next with a batch.
#[derive(Debug)]
pub enum BatchStep {
    /// Look a device up.
    LookUp(ToDeviceRecipient),
    /// Ask for the devices of the recipient's user, then look the device up again.
    QueryAndLookUp(ToDeviceRecipient),
    /// Send the message to the devices that were found, and finish with what
    /// failed.
    Send,
    /// There is nobody to send to; finish at once.
    Finish,
}

/// A batch while its devices are looked up.
#[derive(Debug)]
pub struct ToDeviceBatch {
    /// Everyone the message is for.
    pub recipients: Vec<ToDeviceRecipient>,
    /// How many have been settled.
    pub settled: usize,
    /// Whether the next one is being looked up for the second time.
    pub asked: bool,
    /// Those whose device was found.
    pub found: Vec<ToDeviceRecipient>,
    /// Those who cannot be sent to, and why.
    pub unreachable: Vec<ToDeviceDelivery>,
    /// The users whose devices were asked for.
    pub queried: Vec<String>,
}

/// Who a list of outcomes is about.
pub open spec fn recipients_of(deliveries: Seq<ToDeviceDelivery>) -> Seq<ToDeviceRecipient> {
    deliveries.map_values(|delivery: ToDeviceDelivery| delivery.recipient)
}

/// Why a device that was looked up cannot be sent to, in words.
pub open spec fn refusal(lookup: DeviceLookup) -> Option<Seq<char>> {
    match lookup {
        DeviceLookup::Found => None,
        DeviceLookup::Missing => Some("no such known device"@),
        DeviceLookup::Unparseable(error) => Some("unparseable user id: "@ + error@),
        DeviceLookup::Failed(error) => Some("could not look up the device: "@ + error@),
    }
}

/// Whether a list of failures names a device.
pub open spec fn names_device(
    failures: Seq<ToDeviceRecipient>,
    recipient: ToDeviceRecipient,
) -> bool {
    exists|i: int|
        0 <= i < failures.len() && (#[trigger] failures[i]).user_id@ == recipient.user_id@
            && failures[i].device_id@ == recipient.device_id@
}

/// Whether an outcome is that of sending to a recipient.
pub open spec fn is_outcome(
    delivery: ToDeviceDelivery,
    recipient: ToDeviceRecipient,
    failures: Seq<ToDeviceRecipient>,
) -> bool {
    &&& delivery.recipient == recipient
    &&& if names_device(failures, recipient) {
        delivery.error matches Some(error) && error@ == "the homeserver did not accept the message"@
    } else {
        delivery.error is None
    }
}

impl ToDeviceBatch {
    /// Whether everyone settled so far is either found or unreachable, once for
    /// every time they were named, and no user was asked about twice.
    pub open spec fn wf(self) -> bool {
        &&& self.settled <= self.recipients@.len()
        &&& self.asked ==> self.settled < self.recipients@.len() && texts(
            self.queried@,
        ).contains(self.recipients@[self.settled as int].user_id@)
        &&& self.found@.to_multiset().add(
            recipients_of(self.unreachable@).to_multiset(),
        ) == self.recipients@.take(self.settled as int).to_multiset()
        &&& texts(self.queried@).no_duplicates()
    }

    /// Whether a missing device is worth asking about.
    pub open spec fn may_ask(self) -> bool {
        !texts(self.queried@).contains(self.recipients@[self.settled as int].user_id@)
    }

    /// Takes up a batch.
    pub fn new(recipients: Vec<ToDeviceRecipient>) -> (batch: ToDeviceBatch)
        ensures
            batch.wf(),
            batch.recipients == recipients,
            batch.settled == 0,
            !batch.asked,
            batch.found@.len() == 0,
            batch.unreachable@.len() == 0,
            batch.queried@.len() == 0,
    {
        let batch = ToDeviceBatch {
            recipients,
            settled: 0,
            asked: false,
            found: Vec::new(),
            unreachable: Vec::new(),
            queried: Vec::new(),
        };
        proof {
            broadcast use vstd::seq_lib::group_to_multiset_ensures;

            assert(batch.found@ =~= Seq::empty());
            assert(recipients_of(batch.unreachable@) =~= Seq::empty());
            assert(batch.recipients@.take(0) =~= Seq::empty());
            assert(batch.found@.to_multiset().add(
                recipients_of(batch.unreachable@).to_multiset(),
            ) =~= batch.recipients@.take(0).to_multiset());
        }
        batch
    }

    /// Whether `step` is what to do next.
    pub open spec fn comes_next(self, step: BatchStep) -> bool {
        step == (if self.settled < self.recipients@.len() {
            if self.asked {
                BatchStep::QueryAndLookUp(self.recipients@[self.settled as int])
            } else {
                BatchStep::LookUp(self.recipients@[self.settled as int])
            }
        } else if self.found@.len() > 0 {
            BatchStep::Send
        } else {
            BatchStep::Finish
        })
    }

    /// What to do next.
    pub fn next_step(&self) -> (step: BatchStep)
        requires
            self.wf(),
        ensures
            self.comes_next(step),
    {
        if self.settled < self.recipients.len() {
            let recipient: ToDeviceRecipient = self.recipients[self.settled].clone();
            if self.asked {
                BatchStep::QueryAndLookUp(recipient)
            } else {
                BatchStep::LookUp(recipient)
            }
        } else if self.found.len() > 0 {
            BatchStep::Send
        } else {
            BatchStep::Finish
        }
    }

    /// Whether `after` is this batch once the next device was looked up.
    pub open spec fn looked_up(self, lookup: DeviceLookup, after: ToDeviceBatch) -> bool {
        let recipient = self.recipients@[self.settled as int];
        &&& after.recipients == self.recipients
        &&& if lookup is Missing && self.may_ask() {
            &&& after.settled == self.settled
            &&& after.asked
            &&& after.found == self.found
            &&& after.unreachable == self.unreachable
            &&& texts(after.queried@) == texts(self.queried@).push(recipient.user_id@)
        } else {
            &&& after.settled == self.settled + 1
            &&& !after.asked
            &&& after.queried == self.queried
            &&& match refusal(lookup) {
                None => {
                    &&& after.found@ == self.found@.push(recipient)
                    &&& after.unreachable == self.unreachable
                },
                Some(words) => {
                    &&& after.found == self.found
                    &&& after.unreachable@.len() == self.unreachable@.len() + 1
                    &&& after.unreachable@.drop_last() == self.unreachable@
                    &&& after.unreachable@.last().recipient == recipient
                    &&& after.unreachable@.last().error matches Some(error)
                    &&& error@ == words
                },
            }
        }
    }

    /// Takes in what became of looking the next device up. A missing device whose
    /// user was not asked about yet is looked up again; anything else settles it.
    pub fn on_lookup(&mut self, lookup: DeviceLookup)
        requires
            old(self).wf(),
            old(self).settled < old(self).recipients@.len(),
        ensures
            final(self).wf(),
            old(self).looked_up(lookup, *final(self)),
    {
        let count: usize = self.recipients.len();
        assert(self.settled < count);
        let recipient: ToDeviceRecipient = self.recipients[self.settled].clone();
        let ghost before = *self;
        proof {
            broadcast use vstd::seq_lib::group_to_multiset_ensures;

            let settled = before.recipients@.take(before.settled as int);
            assert(before.recipients@.take(before.settled + 1) =~= settled.push(recipient));
        }
        let words: String = match lookup {
            DeviceLookup::Found => {
                self.found.push(recipient);
                self.settled = self.settled + 1;
                self.asked = false;
                proof {
                    broadcast use vstd::seq_lib::group_to_multiset_ensures;

                    assert(self.found@.to_multiset().add(
                        recipients_of(self.unreachable@).to_multiset(),
                    ) =~= self.recipients@.take(self.settled as int).to_multiset());
                }
                return;
            },
            DeviceLookup::Missing => {
                if !holds_text(&self.queried, recipient.user_id.as_str()) {
                    self.queried.push(recipient.user_id.clone());
                    self.asked = true;
                    proof {
                        assert(texts(self.queried@) =~= texts(before.queried@).push(
                            recipient.user_id@,
                        ));
                        let all = texts(self.queried@);
                        assert(all[all.len() - 1] == recipient.user_id@);
                        assert forall|i: int, j: int|
                            0 <= i < all.len() && 0 <= j < all.len() && i != j implies all[i]
                            != all[j] by {
                            let had = texts(before.queried@);
                            if i < had.len() {
                                assert(had[i] == all[i]);
                            }
                            if j < had.len() {
                                assert(had[j] == all[j]);
                            }
                        }
                    }
                    return;
                }
                "no such known device".to_owned()
            },
            DeviceLookup::Unparseable(error) => joined("unparseable user id: ", error.as_str()),
            DeviceLookup::Failed(error) => joined(
                "could not look up the device: ",
                error.as_str(),
            ),
        };
        self.unreachable.push(ToDeviceDelivery::failed(recipient, words.as_str()));
        self.settled = self.settled + 1;
        self.asked = false;
        proof {
            broadcast use vstd::seq_lib::group_to_multiset_ensures;

            assert(self.unreachable@.drop_last() =~= before.unreachable@);
            assert(recipients_of(self.unreachable@) =~= recipients_of(before.unreachable@).push(
                recipient,
            ));
            assert(self.found@.to_multiset().add(
                recipients_of(self.unreachable@).to_multiset(),
            ) =~= self.recipients@.take(self.settled as int).to_multiset());
        }
    }

    /// Whether `deliveries` are the outcomes once every device was looked up.
    pub open spec fn finished(
        self,
        failures: Seq<ToDeviceRecipient>,
        deliveries: Seq<ToDeviceDelivery>,
    ) -> bool {
        &&& deliveries.len() == self.unreachable@.len() + self.found@.len()
        &&& deliveries.take(self.unreachable@.len() as int) == self.unreachable@
        &&& forall|i: int|
            0 <= i < self.found@.len() ==> is_outcome(
                #[trigger] deliveries[self.unreachable@.len() + i],
                self.found@[i],
                failures,
            )
    }

    /// Puts together the outcomes, once every device was looked up: first those
    /// who could not be sent to, then those who were, of which `failures` did not
    /// get the message.
    pub fn finish(self, failures: &Vec<ToDeviceRecipient>) -> (deliveries: Vec<ToDeviceDelivery>)
        requires
            self.wf(),
            self.settled == self.recipients@.len(),
        ensures
            self.finished(failures@, deliveries@),
            recipients_of(deliveries@).to_multiset() == self.recipients@.to_multiset(),
    {
        let ToDeviceBatch { recipients, settled, asked, found, unreachable, queried } = self;
        let ghost first = unreachable@;
        let ghost second = found@;
        let mut deliveries: Vec<ToDeviceDelivery> = unreachable;
        assert(second.take(0) =~= Seq::empty());
        assert(recipients_of(deliveries@) =~= recipients_of(first) + second.take(0));
        assert(deliveries@.take(first.len() as int) =~= first);
        for recipient in iter: found
            invariant
                iter.seq() == second,
                deliveries@.len() == first.len() + iter.index(),
                deliveries@.take(first.len() as int) == first,
                recipients_of(deliveries@) == recipients_of(first) + second.take(iter.index()),
                forall|i: int|
                    0 <= i < iter.index() ==> is_outcome(
                        #[trigger] deliveries@[first.len() + i],
                        second[i],
                        failures@,
                    ),
        {
            let ghost before = deliveries@;
            let failed: bool = is_named(failures, &recipient);
            let delivery: ToDeviceDelivery = if failed {
                ToDeviceDelivery::failed(recipient, "the homeserver did not accept the message")
            } else {
                ToDeviceDelivery::sent(recipient)
            };
            deliveries.push(delivery);
            proof {
                let n = iter.index();
                assert(deliveries@.take(first.len() as int) =~= before.take(first.len() as int));
                assert(second.take(n + 1) =~= second.take(n).push(recipient));
                assert(delivery.recipient == recipient);
                assert(recipients_of(deliveries@) =~= recipients_of(before).push(recipient));
                assert(recipients_of(deliveries@) =~= recipients_of(first) + second.take(n + 1));
                assert forall|i: int| 0 <= i < n + 1 implies is_outcome(
                    #[trigger] deliveries@[first.len() + i],
                    second[i],
                    failures@,
                ) by {
                    if i < n {
                        assert(deliveries@[first.len() + i] == before[first.len() + i]);
                    }
                }
            }
        }
        proof {
            assert(second.take(second.len() as int) =~= second);
            vstd::seq_lib::lemma_multiset_commutative(recipients_of(first), second);
            assert(recipients_of(first).to_multiset().add(second.to_multiset())
                =~= second.to_multiset().add(recipients_of(first).to_multiset()));
            assert(self.recipients@.take(self.settled as int) =~= self.recipients@);
        }
        deliveries
    }
}

fn is_named(failures: &Vec<ToDeviceRecipient>, recipient: &ToDeviceRecipient) -> (yes: bool)
    ensures
        yes == names_device(failures@, *recipient),
{
    let mut i: usize = 0;
    while i < failures.len()
        invariant
            i <= failures@.len(),
            forall|j: int|
                0 <= j < i ==> !((#[trigger] failures@[j]).user_id@ == recipient.user_id@
                    && failures@[j].device_id@ == recipient.device_id@),
        decreases failures@.len() - i,
    {
        if failures[i].user_id == recipient.user_id && failures[i].device_id
            == recipient.device_id {
            return true;
        }
        i = i + 1;
    }
    false
}

/// No user is asked about twice in a batch: once their devices were asked for, a
/// missing device settles the recipient.
pub proof fn law_users_are_asked_about_once(batch: ToDeviceBatch)
    requires
        batch.wf(),
        batch.asked,
    ensures
        !batch.may_ask(),
{
}

/// Whether a batch counts its next recipient as one that cannot be sent to, and says
/// why.
pub open spec fn gave_up(before: ToDeviceBatch, after: ToDeviceBatch, words: Seq<char>) -> bool {
    let last = after.unreachable@.len() - 1;
    &&& after.unreachable@.len() == before.unreachable@.len() + 1
    &&& after.unreachable@[last].recipient == before.recipients@[before.settled as int]
    &&& after.unreachable@[last].error matches Some(error) && error@ == words
    &&& forall|i: int|
        0 <= i < last ==> #[trigger] after.unreachable@[i] == before.unreachable@[i]
    &&& after.found@ == before.found@
    &&& after.settled == before.settled + 1
}

/// Whether a batch counts its next recipient as found.
pub open spec fn counted_on(before: ToDeviceBatch, after: ToDeviceBatch) -> bool {
    &&& after.found@ == before.found@.push(before.recipients@[before.settled as int])
    &&& after.unreachable@ == before.unreachable@
    &&& after.settled == before.settled + 1
}

/// A device that is known is counted on. One that cannot be looked up is given up with
/// the words for it. One that is missing is given up only after its user's devices were
/// asked for, which happens next if it has not happened yet.
pub proof fn law_missing_device_is_asked_for_first(
    before: ToDeviceBatch,
    lookup: DeviceLookup,
    after: ToDeviceBatch,
    step: BatchStep,
)
    requires
        before.settled < before.recipients@.len(),
        before.looked_up(lookup, after),
        after.comes_next(step),
    ensures
        after.recipients == before.recipients,
        lookup is Found ==> counted_on(before, after),
        lookup matches DeviceLookup::Unparseable(error) ==> gave_up(
            before,
            after,
            "unparseable user id: "@ + error@,
        ),
        lookup matches DeviceLookup::Failed(error) ==> gave_up(
            before,
            after,
            "could not look up the device: "@ + error@,
        ),
        lookup is Missing ==> {
            let recipient = before.recipients@[before.settled as int];
            let known = exists|q: int|
                0 <= q < before.queried@.len() && (#[trigger] before.queried@[q])@
                    == recipient.user_id@;
            &&& known ==> gave_up(before, after, "no such known device"@)
            &&& !known ==> step == BatchStep::QueryAndLookUp(recipient) && after.found@
                == before.found@ && after.unreachable@ == before.unreachable@
        },
{
    let recipient = before.recipients@[before.settled as int];
    let names = texts(before.queried@);
    if names.contains(recipient.user_id@) {
        let q = choose|q: int| 0 <= q < names.len() && names[q] == recipient.user_id@;
        assert(before.queried@[q]@ == recipient.user_id@);
    }
    if exists|q: int|
        0 <= q < before.queried@.len() && (#[trigger] before.queried@[q])@ == recipient.user_id@ {
        let q = choose|q: int|
            0 <= q < before.queried@.len() && (#[trigger] before.queried@[q])@
                == recipient.user_id@;
        assert(names[q] == recipient.user_id@);
    }
    assert forall|i: int| 0 <= i < before.unreachable@.len() && after.unreachable@.len()
        == before.unreachable@.len() + 1 implies #[trigger] after.unreachable@[i]
        == before.unreachable@[i] by {
        assert(after.unreachable@.drop_last()[i] == after.unreachable@[i]);
    }
}

/// A missing device gets one more chance: after its user's devices were asked for it is
/// counted on if it is known by then, and given up if it is still missing.
pub proof fn law_missing_device_gets_one_more_chance(
    before: ToDeviceBatch,
    asked: ToDeviceBatch,
    again: DeviceLookup,
    after: ToDeviceBatch,
)
    requires
        before.settled < before.recipients@.len(),
        before.may_ask(),
        before.looked_up(DeviceLookup::Missing, asked),
        asked.looked_up(again, after),
        again is Found || again is Missing,
    ensures
        again is Found ==> counted_on(before, after),
        again is Missing ==> gave_up(before, after, "no such known device"@),
{
    let recipient = before.recipients@[before.settled as int];
    let names = texts(asked.queried@);
    assert(names == texts(before.queried@).push(recipient.user_id@));
    assert(names[names.len() - 1] == recipient.user_id@);
    assert forall|i: int| 0 <= i < before.unreachable@.len() && after.unreachable@.len()
        == before.unreachable@.len() + 1 implies #[trigger] after.unreachable@[i]
        == before.unreachable@[i] by {
        assert(after.unreachable@.drop_last()[i] == after.unreachable@[i]);
    }
}

/// Recipients are taken one at a time and in order, and once all are settled the message
/// is sent exactly if there is somebody to send it to.
pub proof fn law_recipients_are_taken_in_order(batch: ToDeviceBatch, step: BatchStep)
    requires
        batch.comes_next(step),
    ensures
        step matches BatchStep::LookUp(recipient) ==> batch.settled < batch.recipients@.len()
            && recipient == batch.recipients@[batch.settled as int],
        step is Send <==> batch.settled >= batch.recipients@.len() && batch.found@.len() > 0,
        step is Finish <==> batch.settled >= batch.recipients@.len() && batch.found@.len() == 0,
{
}

/// A recipient is reported as served exactly if its device was found and the homeserver
/// did not refuse it; whoever was given up is reported with why.
pub proof fn law_served_are_those_that_were_reached(
    batch: ToDeviceBatch,
    failures: Seq<ToDeviceRecipient>,
    deliveries: Seq<ToDeviceDelivery>,
    i: int,
)
    requires
        batch.finished(failures, deliveries),
        0 <= i < deliveries.len(),
    ensures
        i < batch.unreachable@.len() ==> deliveries[i] == batch.unreachable@[i],
        i >= batch.unreachable@.len() ==> {
            let recipient = batch.found@[i - batch.unreachable@.len()];
            &&& deliveries[i].recipient == recipient
            &&& deliveries[i].error is Some <==> exists|f: int|
                0 <= f < failures.len() && (#[trigger] failures[f]).user_id@ == recipient.user_id@
                    && failures[f].device_id@ == recipient.device_id@
        },
{
    let first = batch.unreachable@.len() as int;
    if i < first {
        assert(deliveries.take(first)[i] == deliveries[i]);
    } else {
        assert(is_outcome(deliveries[first + (i - first)], batch.found@[i - first], failures));
    }
}

} // verus!
