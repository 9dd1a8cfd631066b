use vstd::prelude::*;
use rand::seq::SliceRandom;
use crate::guild::{
    users_in_channel, users_in_channel_spec, voice_channel_named, voice_channel_named_spec,
    voice_channel_of, voice_channel_spec, ChannelEntry, VoiceStateEntry,
};
use crate::replies::Reply;
use crate::text::{is_blank, is_blank_text};

verus! {

/// rand's `SliceRandom::choose` with `thread_rng`: one element of the list,
/// picked at random, or none for an empty list. Which element comes back is
/// left open: the result depends on chance.
#[verifier::external_body]
fn choose_word(words: &Vec<String>) -> (r: Option<String>)
    ensures
        r is None <==> words@.len() == 0,
        r matches Some(w) ==> exists|i: int| 0 <= i < words@.len() && words@[i]@ == w@,
{
    words.choose(&mut rand::thread_rng()).cloned()
}

/// The answer of `random` to the word it picked: the word, unless it is
/// blank (empty once trimmed), and nothing when no word was picked.
pub fn random_reply(chosen: Option<String>) -> (r: Option<String>)
    ensures
        match chosen {
            Some(w) => if is_blank_text(w@) {
                r is None
            } else {
                r == Some(w)
            },
            None => r is None,
        },
{
    match chosen {
        Some(w) => if is_blank(w.as_str()) {
            None
        } else {
            Some(w)
        },
        None => None,
    }
}

/// The `random` command: picks one of the command's words at random and
/// answers with it, unless it is blank.
pub fn select_random(words: &Vec<String>) -> (r: Option<String>)
    ensures
        r matches Some(w) ==> (exists|i: int| 0 <= i < words@.len() && words@[i]@ == w@)
            && !is_blank_text(w@),
        (forall|i: int| 0 <= i < words@.len() ==> is_blank_text(#[trigger] words@[i]@)) ==> r is None,
        (words@.len() > 0 && forall|i: int|
            0 <= i < words@.len() ==> !is_blank_text(#[trigger] words@[i]@)) ==> r is Some,
{
    let chosen = choose_word(words);
    proof {
        if chosen is Some {
            let w = chosen->0;
            let i = choose|i: int| 0 <= i < words@.len() && words@[i]@ == w@;
            assert(is_blank_text(words@[i]@) == is_blank_text(w@));
        }
    }
    random_reply(chosen)
}

/// rand's `SliceRandom::shuffle` with `thread_rng`: the list ends up in a
/// random order, made by swapping elements, so it holds the same elements as
/// many times each. Which order comes out is left open: it depends on chance.
#[verifier::external_body]
fn shuffle_users(users: &mut Vec<u64>)
    ensures
        final(users)@.len() == old(users)@.len(),
        final(users)@.to_multiset() == old(users)@.to_multiset(),
{
    users.shuffle(&mut rand::thread_rng());
}

/// `moved` is the first half (rounded down) of some reordering of `in_call`.
pub open spec fn is_half_of_some_order(moved: Seq<u64>, in_call: Seq<u64>) -> bool {
    exists|p: Seq<u64>|
        #![trigger p.to_multiset()]
        p.to_multiset() == in_call.to_multiset() && moved == p.take((in_call.len() / 2) as int)
}

/// What `split` does: answer with a reply, or move these users to `target`.
pub enum SplitPlan {
    Reply(Reply),
    Move { users: Vec<u64>, target: u64 },
}

/// The `split` command: the users in the author's voice channel are put in a
/// random order and the first half of them (rounded down) are moved to the
/// voice channel whose name is the command's text.
pub fn split_plan(
    author: u64,
    voice_states: &Vec<VoiceStateEntry>,
    channels: &Vec<ChannelEntry>,
    target_name: &String,
) -> (r: SplitPlan)
    ensures
        match voice_channel_spec(voice_states@, author) {
            None => r matches SplitPlan::Reply(Reply::NotInVoiceChannel),
            Some(call) => match voice_channel_named_spec(channels@, target_name@) {
                None => r matches SplitPlan::Reply(Reply::NeedVoiceChannel),
                Some(t) => r matches SplitPlan::Move { users, target } && target == t
                    && is_half_of_some_order(users@, users_in_channel_spec(voice_states@, call)),
            },
        },
{
    let call = match voice_channel_of(voice_states, author) {
        Some(c) => c,
        None => return SplitPlan::Reply(Reply::NotInVoiceChannel),
    };
    let target = match voice_channel_named(channels, target_name) {
        Some(t) => t,
        None => return SplitPlan::Reply(Reply::NeedVoiceChannel),
    };
    let mut users = users_in_channel(voice_states, call);
    let ghost in_call = users@;
    shuffle_users(&mut users);
    let ghost shuffled = users@;
    let half = users.len() / 2;
    users.truncate(half);
    assert(users@ == shuffled.take((in_call.len() / 2) as int));
    assert(shuffled.to_multiset() == in_call.to_multiset());
    SplitPlan::Move { users, target }
}

/// Whom `split` moves: half the users in the call, rounded down, each of them
/// in the call, and none twice unless a user is twice in the call.
pub proof fn lemma_split_moves_half(moved: Seq<u64>, in_call: Seq<u64>)
    requires
        is_half_of_some_order(moved, in_call),
    ensures
        moved.len() == in_call.len() / 2,
        forall|i: int| 0 <= i < moved.len() ==> in_call.contains(#[trigger] moved[i]),
        in_call.no_duplicates() ==> moved.no_duplicates(),
{
    broadcast use vstd::seq_lib::group_to_multiset_ensures;

    let p = choose|p: Seq<u64>|
        #![trigger p.to_multiset()]
        p.to_multiset() == in_call.to_multiset() && moved == p.take((in_call.len() / 2) as int);
    assert(p.to_multiset().len() == in_call.to_multiset().len());
    assert(p.len() == in_call.len());
    assert forall|i: int| 0 <= i < moved.len() implies in_call.contains(#[trigger] moved[i]) by {
        assert(moved[i] == p[i]);
        assert(p.contains(p[i]));
        assert(p.to_multiset().count(p[i]) > 0);
    }
    if in_call.no_duplicates() {
        in_call.lemma_multiset_has_no_duplicates();
        p.lemma_multiset_has_no_duplicates_conv();
    }
}

} // verus!
