//! What concerns several sessions at once, put together.

use vstd::prelude::*;
use vstd::string::StringExecFns;
use crate::manager::SessionKey;
use crate::reactions::RelationLookup;
use crate::text::{decimal, joined_with, to_decimal};

verus! {

/// Whether a lookup asks about a membership event.
pub open spec fn asks_about(lookups: Seq<RelationLookup>, event_id: Seq<char>) -> bool {
    exists|i: int|
        0 <= i < lookups.len() && (#[trigger] lookups[i]).membership_event_id@ == event_id
}

/// Of several lookups for one membership event, only the first.
pub open spec fn distinct_lookups(lookups: Seq<RelationLookup>) -> Seq<RelationLookup>
    decreases lookups.len(),
{
    if lookups.len() == 0 {
        Seq::empty()
    } else {
        let earlier = lookups.drop_last();
        if asks_about(earlier, lookups.last().membership_event_id@) {
            distinct_lookups(earlier)
        } else {
            distinct_lookups(earlier).push(lookups.last())
        }
    }
}

proof fn lemma_distinct_lookups_ask(lookups: Seq<RelationLookup>, event_id: Seq<char>)
    ensures
        asks_about(distinct_lookups(lookups), event_id) == asks_about(lookups, event_id),
    decreases lookups.len(),
{
    if lookups.len() > 0 {
        let earlier = lookups.drop_last();
        let last = lookups.last();
        lemma_distinct_lookups_ask(earlier, event_id);
        assert(asks_about(lookups, event_id) == (asks_about(earlier, event_id)
            || last.membership_event_id@ == event_id)) by {
            if asks_about(earlier, event_id) {
                let i = choose|i: int|
                    0 <= i < earlier.len() && (#[trigger] earlier[i]).membership_event_id@
                        == event_id;
                assert(lookups[i].membership_event_id@ == event_id);
            }
            if asks_about(lookups, event_id) && last.membership_event_id@ != event_id {
                let i = choose|i: int|
                    0 <= i < lookups.len() && (#[trigger] lookups[i]).membership_event_id@
                        == event_id;
                assert(earlier[i] == lookups[i]);
            }
            if last.membership_event_id@ == event_id {
                assert(lookups[lookups.len() - 1] == last);
            }
        }
        let kept = distinct_lookups(earlier);
        if !asks_about(earlier, last.membership_event_id@) {
            let more = kept.push(last);
            if asks_about(kept, event_id) {
                let i = choose|i: int|
                    0 <= i < kept.len() && (#[trigger] kept[i]).membership_event_id@ == event_id;
                assert(more[i] == kept[i]);
            }
            if last.membership_event_id@ == event_id {
                assert(more[kept.len() as int] == last);
            }
            if asks_about(more, event_id) && last.membership_event_id@ != event_id {
                let i = choose|i: int|
                    0 <= i < more.len() && (#[trigger] more[i]).membership_event_id@ == event_id;
                assert(kept[i] == more[i]);
            }
        }
    } else {
        assert(distinct_lookups(lookups) =~= lookups);
    }
}

/// The lookups of all sessions of a room, each membership event once.
pub fn pending_relation_lookups(lookups: Vec<RelationLookup>) -> (distinct: Vec<RelationLookup>)
    ensures
        distinct@ == distinct_lookups(lookups@),
{
    let ghost whole = lookups@;
    let mut distinct: Vec<RelationLookup> = Vec::new();
    assert(whole.take(0) =~= Seq::empty());
    for lookup in iter: lookups
        invariant
            iter.seq() == whole,
            distinct@ == distinct_lookups(whole.take(iter.index())),
    {
        let ghost earlier = whole.take(iter.index());
        let ghost next = whole.take(iter.index() + 1);
        proof {
            assert(next.drop_last() =~= earlier);
            assert(next.last() == lookup);
            lemma_distinct_lookups_ask(earlier, lookup.membership_event_id@);
        }
        let mut known: bool = false;
        let mut i: usize = 0;
        while i < distinct.len()
            invariant
                i <= distinct@.len(),
                known == asks_about(distinct@.take(i as int), lookup.membership_event_id@),
            decreases distinct@.len() - i,
        {
            let ghost seen = distinct@.take(i as int);
            let ghost more = distinct@.take(i + 1);
            let same: bool = distinct[i].membership_event_id == lookup.membership_event_id;
            proof {
                let event_id = lookup.membership_event_id@;
                if asks_about(seen, event_id) {
                    let j = choose|j: int|
                        0 <= j < seen.len() && (#[trigger] seen[j]).membership_event_id@
                            == event_id;
                    assert(more[j] == seen[j]);
                }
                assert(more[i as int] == distinct@[i as int]);
                if asks_about(more, event_id) && !same {
                    let j = choose|j: int|
                        0 <= j < more.len() && (#[trigger] more[j]).membership_event_id@
                            == event_id;
                    assert(seen[j] == more[j]);
                }
            }
            known = known || same;
            i = i + 1;
        }
        assert(distinct@.take(distinct@.len() as int) =~= distinct@);
        if !known {
            distinct.push(lookup);
        }
    }
    assert(whole.take(whole.len() as int) =~= whole);
    distinct
}

/// How many membership events went to a session.
#[derive(Debug)]
pub struct SessionBatch {
    /// The session.
    pub key: SessionKey,
    /// How many events.
    pub events: u64,
}

/// A batch in words: `slot xN`.
pub open spec fn batch_words(batch: SessionBatch) -> Seq<char> {
    batch.key.slot_id@ + " x"@ + decimal(batch.events as nat)
}

/// Batches in words, separated by commas.
pub open spec fn batches_words(batches: Seq<SessionBatch>) -> Seq<char>
    decreases batches.len(),
{
    if batches.len() == 0 {
        "none"@
    } else if batches.len() == 1 {
        batch_words(batches[0])
    } else {
        batches_words(batches.drop_last()) + ", "@ + batch_words(batches.last())
    }
}

/// Says which slots a room's events went to.
pub fn describe_batches(batches: &Vec<SessionBatch>) -> (words: String)
    ensures
        words@ == batches_words(batches@),
{
    if batches.len() == 0 {
        return "none".to_owned();
    }
    let first: String = to_decimal(batches[0].events);
    let mut words: String = joined_with(batches[0].key.slot_id.as_str(), " x", first.as_str());
    let mut i: usize = 1;
    assert(batches@.take(1)[0] == batches@[0]);
    while i < batches.len()
        invariant
            1 <= i <= batches@.len(),
            words@ == batches_words(batches@.take(i as int)),
        decreases batches@.len() - i,
    {
        let count: String = to_decimal(batches[i].events);
        words.append(", ");
        words.append(batches[i].key.slot_id.as_str());
        words.append(" x");
        words.append(count.as_str());
        proof {
            let next = batches@.take(i + 1);
            assert(next.drop_last() =~= batches@.take(i as int));
            assert(next.last() == batches@[i as int]);
            assert(words@ =~= batches_words(next));
        }
        i = i + 1;
    }
    assert(batches@.take(batches@.len() as int) =~= batches@);
    words
}

/// Of the lookups of all sessions each membership event is looked up once, in the order
/// it first came up: by the first lookup that asks about it.
pub proof fn law_each_membership_event_is_looked_up_once(
    lookups: Seq<RelationLookup>,
    event_id: Seq<char>,
)
    ensures
        asks_about(distinct_lookups(lookups), event_id) <==> asks_about(lookups, event_id),
        forall|i: int, j: int|
            0 <= i < j < distinct_lookups(lookups).len() ==> (#[trigger] distinct_lookups(
                lookups,
            )[i]).membership_event_id@ != (#[trigger] distinct_lookups(
                lookups,
            )[j]).membership_event_id@,
        forall|i: int|
            0 <= i < distinct_lookups(lookups).len() ==> is_first_of_its_kind(
                lookups,
                #[trigger] distinct_lookups(lookups)[i],
            ),
    decreases lookups.len(),
{
    lemma_distinct_lookups_ask(lookups, event_id);
    if lookups.len() > 0 {
        let earlier = lookups.drop_last();
        let last = lookups.last();
        let kept = distinct_lookups(earlier);
        let all = distinct_lookups(lookups);
        law_each_membership_event_is_looked_up_once(earlier, event_id);
        lemma_distinct_lookups_ask(earlier, last.membership_event_id@);
        assert forall|i: int, j: int| 0 <= i < j < all.len() implies (
        #[trigger] all[i]).membership_event_id@ != (#[trigger] all[j]).membership_event_id@ by {
            assert(all[i] == kept[i]);
            if j < kept.len() {
                assert(all[j] == kept[j]);
            } else if kept[i].membership_event_id@ == last.membership_event_id@ {
                assert(asks_about(kept, last.membership_event_id@));
            }
        }
        assert forall|i: int| 0 <= i < all.len() implies is_first_of_its_kind(
            lookups,
            #[trigger] all[i],
        ) by {
            if i < kept.len() {
                assert(all[i] == kept[i]);
                let k = choose|k: int| #[trigger]
                    is_first_lookup(earlier, k) && earlier[k] == kept[i];
                assert forall|j: int| 0 <= j < k implies (
                #[trigger] lookups[j]).membership_event_id@ != lookups[k].membership_event_id@ by {
                    assert(earlier[j] == lookups[j]);
                }
                assert(is_first_lookup(lookups, k) && lookups[k] == all[i]);
            } else {
                let k = lookups.len() - 1;
                assert forall|j: int| 0 <= j < k implies (
                #[trigger] lookups[j]).membership_event_id@ != lookups[k].membership_event_id@ by {
                    assert(earlier[j] == lookups[j]);
                }
                assert(is_first_lookup(lookups, k) && lookups[k] == all[i]);
            }
        }
    }
}

/// Whether a lookup is the first that asks about its membership event.
pub open spec fn is_first_lookup(lookups: Seq<RelationLookup>, k: int) -> bool {
    &&& 0 <= k < lookups.len()
    &&& forall|j: int|
        0 <= j < k ==> (#[trigger] lookups[j]).membership_event_id@
            != lookups[k].membership_event_id@
}

/// Whether a lookup is the first among several that asks about its membership event.
pub open spec fn is_first_of_its_kind(
    lookups: Seq<RelationLookup>,
    lookup: RelationLookup,
) -> bool {
    exists|k: int| #[trigger] is_first_lookup(lookups, k) && lookups[k] == lookup
}

/// Batches are told one after the other, each by its slot and how many events it took;
/// where there is none, that is told.
pub proof fn law_batches_are_told_in_order(batches: Seq<SessionBatch>, next: SessionBatch)
    ensures
        batches_words(Seq::empty()) == "none"@,
        batches_words(batches.push(next)) == (if batches.len() == 0 {
            Seq::empty()
        } else {
            batches_words(batches) + ", "@
        }) + (next.key.slot_id@ + " x"@ + decimal(next.events as nat)),
{
    let all = batches.push(next);
    if batches.len() == 0 {
        assert(all[0] == next);
        assert(batches_words(all) =~= Seq::<char>::empty() + batch_words(next));
    } else {
        assert(all.drop_last() =~= batches);
    }
}

} // verus!
