//! The order of time: what it means for messages to stand in it, the sort
//! that puts them there, and what follows for merging.

use crate::conversation::{all_well_formed, merged_messages, Message};
use vstd::prelude::*;

verus! {

/// The timestamps never go down from one message to a later one.
pub open spec fn timestamps_ascend(messages: Seq<Message>) -> bool {
    forall|i: int, j: int|
        0 <= i <= j < messages.len() ==> messages[i].timestamp <= messages[j].timestamp
}

/// The messages of `messages` that were sent at `time`, in their order.
pub open spec fn sent_at(messages: Seq<Message>, time: u64) -> Seq<Message> {
    messages.filter(|m: Message| m.timestamp == time)
}

/// `sorted` holds the messages of `original` by ascending timestamp, those of
/// one timestamp in the order they had in `original`.
pub open spec fn is_chronological_order_of(sorted: Seq<Message>, original: Seq<Message>) -> bool {
    &&& timestamps_ascend(sorted)
    &&& forall|time: u64| sent_at(sorted, time) == sent_at(original, time)
}

/// `backwards` is `forwards` read from its end.
pub open spec fn is_reverse_of(backwards: Seq<Message>, forwards: Seq<Message>) -> bool {
    &&& backwards.len() == forwards.len()
    &&& forall|i: int|
        0 <= i < backwards.len() ==> backwards[i] == forwards[forwards.len() - 1 - i]
}

/// No message of `messages` was sent after `time`.
pub open spec fn none_after(messages: Seq<Message>, time: u64) -> bool {
    forall|i: int| 0 <= i < messages.len() ==> messages[i].timestamp <= time
}

/// Turns a list round.
fn reversed(messages: Vec<Message>) -> (turned: Vec<Message>)
    ensures
        is_reverse_of(messages@, turned@),
{
    let mut rest = messages;
    let mut turned: Vec<Message> = Vec::new();
    while rest.len() > 0
        invariant
            rest@.len() + turned@.len() == messages@.len(),
            forall|i: int| 0 <= i < rest@.len() ==> rest@[i] == messages@[i],
            forall|i: int|
                0 <= i < turned@.len() ==> turned@[i] == messages@[messages@.len() - 1 - i],
        decreases rest.len(),
    {
        let message = rest.pop().unwrap();
        turned.push(message);
    }
    turned
}

/// Merges two ascending lists into one. Of two messages of one timestamp
/// that of the first list comes first.
fn merge_ascending(one: Vec<Message>, two: Vec<Message>) -> (merged: Vec<Message>)
    requires
        timestamps_ascend(one@),
        timestamps_ascend(two@),
    ensures
        is_chronological_order_of(merged@, merged_messages(one@, two@)),
{
    let mut left = one;
    let mut right = two;
    let mut backwards: Vec<Message> = Vec::new();
    let ghost mut tail: Seq<Message> = Seq::empty();
    proof {
        lemma_sent_at_empty();
        assert forall|time: u64|
            sent_at(one@, time) + sent_at(two@, time) == sent_at(left@, time) + sent_at(
                right@,
                time,
            ) + sent_at(tail, time) by {
            assert(sent_at(left@, time) + sent_at(right@, time) + Seq::<Message>::empty()
                == sent_at(left@, time) + sent_at(right@, time));
        }
    }
    while left.len() > 0 || right.len() > 0
        invariant
            timestamps_ascend(left@),
            timestamps_ascend(right@),
            timestamps_ascend(tail),
            tail.len() > 0 ==> none_after(left@, tail[0].timestamp) && none_after(
                right@,
                tail[0].timestamp,
            ),
            is_reverse_of(backwards@, tail),
            forall|time: u64|
                sent_at(one@, time) + sent_at(two@, time) == sent_at(left@, time) + sent_at(
                    right@,
                    time,
                ) + sent_at(tail, time),
        decreases left.len() + right.len(),
    {
        let from_right = if left.len() == 0 {
            true
        } else if right.len() == 0 {
            false
        } else {
            left[left.len() - 1].timestamp <= right[right.len() - 1].timestamp
        };
        let ghost left_before = left@;
        let ghost right_before = right@;
        let message = if from_right {
            right.pop().unwrap()
        } else {
            left.pop().unwrap()
        };
        proof {
            if from_right {
                assert(right@ == right_before.drop_last());
            } else {
                assert(left@ == left_before.drop_last());
            }
            lemma_take_last(left_before, right_before, tail, from_right, message, left@, right@);
            let grown = seq![message] + tail;
            assert forall|time: u64|
                sent_at(one@, time) + sent_at(two@, time) == sent_at(left@, time) + sent_at(
                    right@,
                    time,
                ) + sent_at(grown, time) by {
                assert(sent_at(one@, time) + sent_at(two@, time) == sent_at(left_before, time)
                    + sent_at(right_before, time) + sent_at(tail, time));
            }
            assert forall|i: int| 0 <= i < backwards@.len() + 1 implies backwards@.push(
                message,
            )[i] == grown[grown.len() - 1 - i] by {
                if i < backwards@.len() {
                    assert(backwards@[i] == tail[tail.len() - 1 - i]);
                }
            }
            tail = grown;
        }
        backwards.push(message);
    }
    let merged = reversed(backwards);
    proof {
        assert forall|i: int| 0 <= i < tail.len() implies merged@[i] == tail[i] by {
            assert(backwards@[tail.len() - 1 - i] == merged@[i]);
        }
        assert(merged@ =~= tail);
        assert forall|time: u64| sent_at(merged@, time) == sent_at(one@ + two@, time) by {
            lemma_sent_at_empty();
            Seq::filter_distributes_over_add(one@, two@, |m: Message| m.timestamp == time);
            assert(left@ =~= Seq::<Message>::empty());
            assert(right@ =~= Seq::<Message>::empty());
            assert(Seq::<Message>::empty() + Seq::<Message>::empty() + sent_at(tail, time)
                == sent_at(tail, time));
        }
    }
    merged
}

impl Message {
    /// The messages by ascending timestamp; messages of one timestamp keep
    /// their order.
    pub fn sort_by_timestamp(messages: Vec<Message>) -> (sorted: Vec<Message>)
        ensures
            is_chronological_order_of(sorted@, messages@),
        decreases messages@.len(),
    {
        if messages.len() <= 1 {
            assert(timestamps_ascend(messages@));
            return messages;
        }
        let mut front = messages;
        let back = front.split_off(front.len() / 2);
        assert(messages@ == front@ + back@);
        let ghost first = front@;
        let ghost second = back@;
        let front = Message::sort_by_timestamp(front);
        let back = Message::sort_by_timestamp(back);
        let sorted = merge_ascending(front, back);
        proof {
            assert forall|time: u64| sent_at(sorted@, time) == sent_at(messages@, time) by {
                let pred = |m: Message| m.timestamp == time;
                Seq::filter_distributes_over_add(front@, back@, pred);
                Seq::filter_distributes_over_add(first, second, pred);
                assert(sent_at(sorted@, time) == sent_at(front@ + back@, time));
                assert(sent_at(front@, time) == sent_at(first, time));
                assert(sent_at(back@, time) == sent_at(second, time));
            }
        }
        sorted
    }
}

/// Taking the last message of one of two ascending lists, the later of the
/// two last ones and that of the second list where they are equally late,
/// and putting it in front of `tail` keeps what merging needs: the lists
/// ascend, nothing in them is later than the front of `tail`, and for every
/// time the messages of the three are those they were.
proof fn lemma_take_last(
    left: Seq<Message>,
    right: Seq<Message>,
    tail: Seq<Message>,
    from_right: bool,
    taken: Message,
    left_after: Seq<Message>,
    right_after: Seq<Message>,
)
    requires
        timestamps_ascend(left),
        timestamps_ascend(right),
        timestamps_ascend(tail),
        tail.len() > 0 ==> none_after(left, tail[0].timestamp) && none_after(
            right,
            tail[0].timestamp,
        ),
        from_right ==> right.len() > 0 && (left.len() > 0 ==> left.last().timestamp
            <= right.last().timestamp) && taken == right.last() && left_after == left
            && right_after == right.drop_last(),
        !from_right ==> left.len() > 0 && (right.len() > 0 ==> left.last().timestamp
            > right.last().timestamp) && taken == left.last() && left_after == left.drop_last()
            && right_after == right,
    ensures
        timestamps_ascend(left_after),
        timestamps_ascend(right_after),
        timestamps_ascend(seq![taken] + tail),
        none_after(left_after, taken.timestamp),
        none_after(right_after, taken.timestamp),
        forall|time: u64|
            sent_at(left, time) + sent_at(right, time) + sent_at(tail, time) == sent_at(
                left_after,
                time,
            ) + sent_at(right_after, time) + sent_at(seq![taken] + tail, time),
{
    let grown = seq![taken] + tail;
    assert(timestamps_ascend(grown)) by {
        assert forall|i: int, j: int| 0 <= i <= j < grown.len() implies grown[i].timestamp
            <= grown[j].timestamp by {
            if i > 0 {
                assert(grown[i] == tail[i - 1] && grown[j] == tail[j - 1]);
            } else if j > 0 {
                assert(grown[j] == tail[j - 1]);
                assert(tail[0].timestamp <= tail[j - 1].timestamp);
            }
        }
    }
    assert(none_after(left_after, taken.timestamp)) by {
        assert forall|i: int| 0 <= i < left_after.len() implies left_after[i].timestamp
            <= taken.timestamp by {
            assert(left_after[i] == left[i]);
            assert(left[i].timestamp <= left.last().timestamp);
        }
    }
    assert(none_after(right_after, taken.timestamp)) by {
        assert forall|i: int| 0 <= i < right_after.len() implies right_after[i].timestamp
            <= taken.timestamp by {
            assert(right_after[i] == right[i]);
            assert(right[i].timestamp <= right.last().timestamp);
        }
    }
    assert forall|time: u64|
        sent_at(left, time) + sent_at(right, time) + sent_at(tail, time) == sent_at(
            left_after,
            time,
        ) + sent_at(right_after, time) + sent_at(grown, time) by {
        let pred = |m: Message| m.timestamp == time;
        Seq::filter_distributes_over_add(seq![taken], tail, pred);
        lemma_sent_at_one(taken, time);
        let a = sent_at(left_after, time);
        let b = sent_at(right_after, time);
        let c = sent_at(tail, time);
        if taken.timestamp != time {
            if from_right {
                lemma_sent_at_last(right, time);
            } else {
                lemma_sent_at_last(left, time);
            }
            assert(Seq::<Message>::empty() + c == c);
        } else if from_right {
            lemma_sent_at_last(right, time);
            assert(sent_at(left, time) + b.push(taken) + c == a + b + (seq![taken] + c));
        } else {
            lemma_sent_at_last(left, time);
            assert forall|k: int| 0 <= k < right.len() implies right[k].timestamp < time by {
                assert(right[k].timestamp <= right.last().timestamp);
            }
            lemma_sent_at_none(right, time);
            assert(a.push(taken) + Seq::<Message>::empty() + c == a + Seq::<Message>::empty() + (
            seq![taken] + c));
        }
    }
}

/// Chronological merging pair by pair gives a chronological order of all the
/// fragments' messages, whichever pair was merged first.
pub proof fn lemma_merge_sorted_in_steps(
    one: Seq<Message>,
    two: Seq<Message>,
    three: Seq<Message>,
    first: Seq<Message>,
    whole: Seq<Message>,
)
    requires
        is_chronological_order_of(first, merged_messages(one, two)) && is_chronological_order_of(
            whole,
            merged_messages(first, three),
        ) || is_chronological_order_of(first, merged_messages(two, three))
            && is_chronological_order_of(whole, merged_messages(one, first)),
    ensures
        is_chronological_order_of(
            whole,
            merged_messages(merged_messages(one, two), three),
        ),
{
    assert((one + two) + three =~= one + (two + three));
    assert forall|time: u64|
        sent_at(whole, time) == sent_at(
            merged_messages(merged_messages(one, two), three),
            time,
        ) by {
        let pred = |m: Message| m.timestamp == time;
        Seq::filter_distributes_over_add(one, two, pred);
        Seq::filter_distributes_over_add(two, three, pred);
        Seq::filter_distributes_over_add(one + two, three, pred);
        Seq::filter_distributes_over_add(one, two + three, pred);
        Seq::filter_distributes_over_add(first, three, pred);
        Seq::filter_distributes_over_add(one, first, pred);
        assert(sent_at(first, time) == sent_at(one + two, time) || sent_at(first, time) == sent_at(
            two + three,
            time,
        ));
    }
}

/// A chronological order of well-formed messages holds well-formed messages.
pub proof fn lemma_order_keeps_well_formed(sorted: Seq<Message>, original: Seq<Message>)
    requires
        is_chronological_order_of(sorted, original),
        all_well_formed(original),
    ensures
        all_well_formed(sorted),
{
    assert forall|i: int| 0 <= i < sorted.len() implies (#[trigger] sorted[i]).well_formed() by {
        let message = sorted[i];
        let time = message.timestamp;
        let pred = |m: Message| m.timestamp == time;
        sorted.lemma_filter_contains(pred, i);
        assert(sent_at(original, time).contains(message));
        original.lemma_filter_contains_rev(pred, message);
    }
}

/// No message of an empty list was sent at any time.
proof fn lemma_sent_at_empty()
    ensures
        forall|time: u64| sent_at(Seq::<Message>::empty(), time) == Seq::<Message>::empty(),
{
    reveal(Seq::filter);
}

/// The messages sent at `time` in `[message]`: `message` or nothing.
proof fn lemma_sent_at_one(message: Message, time: u64)
    ensures
        sent_at(seq![message], time) == if message.timestamp == time {
            seq![message]
        } else {
            Seq::<Message>::empty()
        },
{
    reveal(Seq::filter);
    let one = seq![message];
    assert(one.drop_last() == Seq::<Message>::empty());
    assert(one.last() == message);
    assert(sent_at(one.drop_last(), time) == Seq::<Message>::empty());
    if message.timestamp == time {
        assert(Seq::<Message>::empty().push(message) == seq![message]);
    }
}

/// No message of `messages` was sent at `time` if all were sent earlier.
proof fn lemma_sent_at_none(messages: Seq<Message>, time: u64)
    requires
        forall|k: int| 0 <= k < messages.len() ==> messages[k].timestamp < time,
    ensures
        sent_at(messages, time) == Seq::<Message>::empty(),
    decreases messages.len(),
{
    reveal(Seq::filter);
    if messages.len() > 0 {
        lemma_sent_at_none(messages.drop_last(), time);
    }
}

/// A message sent at `time` is among `messages` if one is among those of
/// `messages` that were sent at `time`.
proof fn lemma_sent_at_is_held(messages: Seq<Message>, time: u64)
    requires
        sent_at(messages, time).len() > 0,
    ensures
        exists|i: int| 0 <= i < messages.len() && messages[i].timestamp == time,
{
    let pred = |m: Message| m.timestamp == time;
    let found = sent_at(messages, time)[0];
    messages.lemma_filter_pred(pred, 0);
    assert(sent_at(messages, time).contains(found));
    messages.lemma_filter_contains_rev(pred, found);
    let i = choose|i: int| 0 <= i < messages.len() && messages[i] == found;
    assert(messages[i].timestamp == time);
}

/// What `sent_at` makes of a list that is not empty: that of the list
/// without its last message, with the last behind it where it was sent at
/// `time`.
proof fn lemma_sent_at_last(messages: Seq<Message>, time: u64)
    requires
        messages.len() > 0,
    ensures
        sent_at(messages, time) == if messages.last().timestamp == time {
            sent_at(messages.drop_last(), time).push(messages.last())
        } else {
            sent_at(messages.drop_last(), time)
        },
{
    reveal(Seq::filter);
}

/// Two lists in ascending order that hold, for every time, the same messages
/// in the same order are one list.
proof fn lemma_same_order(one: Seq<Message>, other: Seq<Message>)
    requires
        timestamps_ascend(one),
        timestamps_ascend(other),
        forall|time: u64| sent_at(one, time) == sent_at(other, time),
    ensures
        one == other,
    decreases one.len(),
{
    if one.len() == 0 {
        if other.len() > 0 {
            let time = other[0].timestamp;
            other.lemma_filter_contains(|m: Message| m.timestamp == time, 0);
            lemma_sent_at_empty();
            assert(sent_at(one, time).contains(other[0]));
        }
        assert(one =~= other);
    } else {
        let time = one.last().timestamp;
        lemma_sent_at_last(one, time);
        assert(sent_at(other, time).len() > 0);
        lemma_sent_at_is_held(other, time);
        let late = other.last().timestamp;
        lemma_sent_at_last(other, late);
        assert(sent_at(one, late).len() > 0);
        lemma_sent_at_is_held(one, late);
        assert(late == time);
        let rest_one = sent_at(one.drop_last(), time);
        let rest_other = sent_at(other.drop_last(), time);
        assert(rest_one.push(one.last()) == rest_other.push(other.last()));
        assert(rest_one.push(one.last()).last() == one.last());
        assert(rest_other.push(other.last()).last() == other.last());
        assert(rest_one.push(one.last()).drop_last() == rest_one);
        assert(rest_other.push(other.last()).drop_last() == rest_other);
        assert forall|t: u64|
            sent_at(one.drop_last(), t) == sent_at(other.drop_last(), t) by {
            lemma_sent_at_last(one, t);
            lemma_sent_at_last(other, t);
        }
        lemma_same_order(one.drop_last(), other.drop_last());
        assert(one == one.drop_last().push(one.last()));
        assert(other == other.drop_last().push(other.last()));
    }
}

/// A list has one chronological order, so sorting has one right result.
pub proof fn lemma_chronological_order_is_unique(
    one: Seq<Message>,
    other: Seq<Message>,
    original: Seq<Message>,
)
    requires
        is_chronological_order_of(one, original),
        is_chronological_order_of(other, original),
    ensures
        one == other,
{
    lemma_same_order(one, other);
}

/// Chronological merging with a conversation without messages, on either
/// side, leaves messages that stand in the order of time as they are.
pub proof fn lemma_merge_sorted_with_no_messages(
    none: Seq<Message>,
    messages: Seq<Message>,
    merged: Seq<Message>,
)
    requires
        none.len() == 0,
        timestamps_ascend(messages),
        is_chronological_order_of(merged, merged_messages(none, messages))
            || is_chronological_order_of(merged, merged_messages(messages, none)),
    ensures
        merged == messages,
{
    assert(none + messages =~= messages);
    assert(messages + none =~= messages);
    lemma_chronological_order_is_unique(merged, messages, messages);
}

/// Chronological merging is associative: three fragments merged pair by
/// pair give the same messages in the same order, whichever pair is merged
/// first.
pub proof fn lemma_merge_sorted_associative(
    one: Seq<Message>,
    two: Seq<Message>,
    three: Seq<Message>,
    front: Seq<Message>,
    front_first: Seq<Message>,
    back: Seq<Message>,
    back_first: Seq<Message>,
)
    requires
        is_chronological_order_of(front, merged_messages(one, two)),
        is_chronological_order_of(front_first, merged_messages(front, three)),
        is_chronological_order_of(back, merged_messages(two, three)),
        is_chronological_order_of(back_first, merged_messages(one, back)),
    ensures
        front_first == back_first,
{
    lemma_merge_sorted_in_steps(one, two, three, front, front_first);
    lemma_merge_sorted_in_steps(one, two, three, back, back_first);
    lemma_chronological_order_is_unique(
        front_first,
        back_first,
        merged_messages(merged_messages(one, two), three),
    );
}

/// How often `message` occurs among the messages sent at `time`: as often as
/// in the whole list where that is its time, else never.
proof fn lemma_sent_at_count(messages: Seq<Message>, time: u64, message: Message)
    ensures
        sent_at(messages, time).to_multiset().count(message) == if message.timestamp == time {
            messages.to_multiset().count(message)
        } else {
            0
        },
    decreases messages.len(),
{
    broadcast use vstd::multiset::group_multiset_axioms;

    if messages.len() == 0 {
        lemma_sent_at_empty();
        assert(messages =~= Seq::<Message>::empty());
        Seq::<Message>::empty().to_multiset_ensures();
        assert(Seq::<Message>::empty().to_multiset().len() == 0);
    } else {
        let front = messages.drop_last();
        let last = messages.last();
        lemma_sent_at_count(front, time, message);
        lemma_sent_at_last(messages, time);
        assert(messages == front.push(last));
        vstd::seq_lib::to_multiset_build(front, last);
        if last.timestamp == time {
            vstd::seq_lib::to_multiset_build(sent_at(front, time), last);
        }
    }
}

/// A chronological order holds the messages of the original, each as often.
pub proof fn lemma_order_holds_the_same_messages(sorted: Seq<Message>, original: Seq<Message>)
    requires
        is_chronological_order_of(sorted, original),
    ensures
        sorted.to_multiset() == original.to_multiset(),
{
    assert forall|message: Message|
        sorted.to_multiset().count(message) == original.to_multiset().count(message) by {
        lemma_sent_at_count(sorted, message.timestamp, message);
        lemma_sent_at_count(original, message.timestamp, message);
    }
    assert(sorted.to_multiset() =~= original.to_multiset());
}

/// Chronological merging is commutative in content: merged either way
/// round, two fragments give the same messages, each as often. Messages of
/// one timestamp may stand in another order.
pub proof fn lemma_merge_sorted_commutative_in_content(
    one: Seq<Message>,
    two: Seq<Message>,
    forth: Seq<Message>,
    back: Seq<Message>,
)
    requires
        is_chronological_order_of(forth, merged_messages(one, two)),
        is_chronological_order_of(back, merged_messages(two, one)),
    ensures
        forth.to_multiset() == back.to_multiset(),
        timestamps_ascend(forth) && timestamps_ascend(back),
{
    lemma_order_holds_the_same_messages(forth, one + two);
    lemma_order_holds_the_same_messages(back, two + one);
    vstd::seq_lib::lemma_seq_union_to_multiset_commutative(one, two);
}

} // verus!
