//! The whole way of a fragment, from its bytes to a canonical conversation,
//! and the merging of any number of fragments in the order given.

use crate::cleaner::{
    normalized_conversation, raw_conversation_to_cleaned_conversation, RepairFailure,
};
use crate::chronology::{is_chronological_order_of, lemma_order_keeps_well_formed};
use crate::conversation::{
    all_well_formed, merged_messages, Conversation, ConversationView, Message,
};
use crate::decoder::{decode_conversation, decoded_fragment, DecodeError};
use vstd::prelude::*;

verus! {

/// Why a fragment gave no conversation. One fragment's failure says nothing
/// of the others: each is loaded by itself.
#[derive(Debug, Clone, Copy, PartialEq, Eq, Structural)]
pub enum FragmentError {
    Decode(DecodeError),
    Repair(RepairFailure),
}

/// The canonical conversation that the bytes of a fragment hold.
pub open spec fn loaded_fragment(bytes: Seq<u8>) -> Result<ConversationView, FragmentError> {
    match decoded_fragment(bytes) {
        Err(e) => Err(FragmentError::Decode(e)),
        Ok(raw) => match normalized_conversation(raw) {
            Err(e) => Err(FragmentError::Repair(e)),
            Ok(conversation) => Ok(conversation),
        },
    }
}

/// The messages of all `fragments`, fragment after fragment.
pub open spec fn all_messages(fragments: Seq<Conversation>) -> Seq<Message>
    decreases fragments.len(),
{
    if fragments.len() == 0 {
        Seq::empty()
    } else {
        merged_messages(fragments[0].messages@, all_messages(fragments.drop_first()))
    }
}

/// Every fragment of `fragments` is well formed.
pub open spec fn all_fragments_well_formed(fragments: Seq<Conversation>) -> bool {
    forall|i: int| 0 <= i < fragments.len() ==> (#[trigger] fragments[i]).well_formed()
}

/// Decodes and normalises one fragment.
pub fn conversation_from_bytes(bytes: &[u8]) -> (loaded: Result<Conversation, FragmentError>)
    ensures
        loaded matches Ok(conversation) ==> loaded_fragment(bytes@) == Ok::<
            ConversationView,
            FragmentError,
        >(conversation@) && conversation.well_formed(),
        loaded matches Err(e) ==> loaded_fragment(bytes@) == Err::<ConversationView, FragmentError>(
            e,
        ),
{
    match decode_conversation(bytes) {
        Err(e) => Err(FragmentError::Decode(e)),
        Ok(raw) => match raw_conversation_to_cleaned_conversation(raw) {
            Err(e) => Err(FragmentError::Repair(e)),
            Ok(conversation) => Ok(conversation),
        },
    }
}

/// The messages of fragments put end to end are those of the first run of
/// fragments, then those of the second: merging one by one and merging in
/// groups come to the same.
pub proof fn lemma_all_messages_of_groups(front: Seq<Conversation>, back: Seq<Conversation>)
    ensures
        all_messages(front + back) == merged_messages(all_messages(front), all_messages(back)),
    decreases front.len(),
{
    if front.len() == 0 {
        assert(front + back == back);
        assert(Seq::<Message>::empty() + all_messages(back) == all_messages(back));
    } else {
        lemma_all_messages_of_groups(front.drop_first(), back);
        assert((front + back).drop_first() == front.drop_first() + back);
        assert(front[0].messages@ + (all_messages(front.drop_first()) + all_messages(back)) == (
        front[0].messages@ + all_messages(front.drop_first())) + all_messages(back));
    }
}

/// Well-formed fragments hold well-formed messages.
pub proof fn lemma_all_messages_well_formed(fragments: Seq<Conversation>)
    requires
        all_fragments_well_formed(fragments),
    ensures
        all_well_formed(all_messages(fragments)),
    decreases fragments.len(),
{
    if fragments.len() > 0 {
        assert(fragments[0].well_formed());
        assert(all_fragments_well_formed(fragments.drop_first())) by {
            assert forall|i: int| 0 <= i < fragments.drop_first().len() implies (
            #[trigger] fragments.drop_first()[i]).well_formed() by {
                assert(fragments.drop_first()[i] == fragments[i + 1]);
            }
        }
        lemma_all_messages_well_formed(fragments.drop_first());
    }
}

/// Raw merging of any number of fragments, from the first to the last:
/// title and participants of the first, and all messages in the order of the
/// fragments. No fragments give no conversation.
pub fn merge_all(fragments: Vec<Conversation>) -> (merged: Option<Conversation>)
    ensures
        merged is None <==> fragments@.len() == 0,
        merged matches Some(conversation) ==> {
            &&& conversation.title == fragments@[0].title
            &&& conversation.participants == fragments@[0].participants
            &&& conversation.messages@ == all_messages(fragments@)
            &&& (all_fragments_well_formed(fragments@) ==> conversation.well_formed())
        },
{
    let mut rest = fragments;
    if rest.len() == 0 {
        return None;
    }
    let mut merged = rest.remove(0);
    proof {
        if all_fragments_well_formed(fragments@) {
            assert(fragments@[0].well_formed());
        }
    }
    while rest.len() > 0
        invariant
            merged.title == fragments@[0].title,
            merged.participants == fragments@[0].participants,
            all_messages(fragments@) == merged_messages(merged.messages@, all_messages(rest@)),
            all_fragments_well_formed(fragments@) ==> merged.well_formed()
                && all_fragments_well_formed(rest@),
        decreases rest.len(),
    {
        let ghost before = rest@;
        let ghost so_far = merged.messages@;
        let next = rest.remove(0);
        proof {
            assert(rest@ == before.drop_first());
            assert(so_far + (next.messages@ + all_messages(rest@)) == (so_far + next.messages@)
                + all_messages(rest@));
            assert(next == before[0]);
            if all_fragments_well_formed(fragments@) {
                assert(next.well_formed());
                assert forall|i: int| 0 <= i < rest@.len() implies (
                #[trigger] rest@[i]).well_formed() by {
                    assert(rest@[i] == before[i + 1]);
                }
            }
        }
        merged = Conversation::merge_conversations(merged, next);
    }
    assert(merged.messages@ + Seq::<Message>::empty() == merged.messages@);
    Some(merged)
}

/// Chronological merging of any number of fragments: as `merge_all`, with
/// the messages then put in the order of their timestamps.
pub fn merge_all_sorted(fragments: Vec<Conversation>) -> (merged: Option<Conversation>)
    ensures
        merged is None <==> fragments@.len() == 0,
        merged matches Some(conversation) ==> {
            &&& conversation.title == fragments@[0].title
            &&& conversation.participants == fragments@[0].participants
            &&& is_chronological_order_of(conversation.messages@, all_messages(fragments@))
            &&& (all_fragments_well_formed(fragments@) ==> conversation.well_formed())
        },
{
    match merge_all(fragments) {
        None => None,
        Some(raw) => {
            let messages = Message::sort_by_timestamp(raw.messages);
            proof {
                if all_fragments_well_formed(fragments@) {
                    lemma_order_keeps_well_formed(messages@, raw.messages@);
                }
            }
            Some(Conversation { title: raw.title, participants: raw.participants, messages })
        },
    }
}

} // verus!
