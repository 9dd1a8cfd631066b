use rustbot::guild::{ChannelEntry, ChannelKind, VoiceStateEntry};
use rustbot::random::{random_reply, select_random, split_plan, SplitPlan};
use rustbot::replies::Reply;

#[test]
fn random_reply_drops_blank_words() {
    assert_eq!(random_reply(Some("hi".to_string())), Some("hi".to_string()));
    assert_eq!(random_reply(Some("  ".to_string())), None);
    assert_eq!(random_reply(None), None);
}

#[test]
fn random_picks_one_of_the_words() {
    let words = vec!["a".to_string(), "b".to_string(), "c".to_string()];
    for _ in 0..50 {
        let r = select_random(&words).unwrap();
        assert!(words.contains(&r));
    }
    assert_eq!(select_random(&vec!["only".to_string()]), Some("only".to_string()));
}

#[test]
fn random_says_nothing_without_words() {
    assert_eq!(select_random(&vec![]), None);
    assert_eq!(select_random(&vec![" ".to_string(), "\t".to_string()]), None);
}

fn channels() -> Vec<ChannelEntry> {
    vec![
        ChannelEntry { id: 50, name: "general".to_string(), kind: ChannelKind::OtherGuildChannel },
        ChannelEntry { id: 60, name: "team b".to_string(), kind: ChannelKind::Voice },
    ]
}

fn states() -> Vec<VoiceStateEntry> {
    vec![
        VoiceStateEntry { user: 1, channel: Some(10) },
        VoiceStateEntry { user: 2, channel: Some(10) },
        VoiceStateEntry { user: 3, channel: Some(10) },
        VoiceStateEntry { user: 4, channel: Some(10) },
        VoiceStateEntry { user: 5, channel: Some(10) },
        VoiceStateEntry { user: 6, channel: Some(11) },
        VoiceStateEntry { user: 7, channel: None },
    ]
}

#[test]
fn split_moves_half_of_the_call() {
    for _ in 0..20 {
        match split_plan(1, &states(), &channels(), &"team b".to_string()) {
            SplitPlan::Move { users, target } => {
                assert_eq!(target, 60);
                assert_eq!(users.len(), 2);
                assert_ne!(users[0], users[1]);
                assert!(users.iter().all(|u| (1..=5).contains(u)));
            }
            SplitPlan::Reply(_) => panic!("author is in a call"),
        }
    }
}

#[test]
fn split_needs_the_author_in_a_voice_channel() {
    assert!(matches!(
        split_plan(7, &states(), &channels(), &"team b".to_string()),
        SplitPlan::Reply(Reply::NotInVoiceChannel)
    ));
    assert!(matches!(
        split_plan(99, &states(), &channels(), &"team b".to_string()),
        SplitPlan::Reply(Reply::NotInVoiceChannel)
    ));
}

#[test]
fn split_needs_a_voice_channel_name() {
    assert!(matches!(
        split_plan(1, &states(), &channels(), &"general".to_string()),
        SplitPlan::Reply(Reply::NeedVoiceChannel)
    ));
}

#[test]
fn split_of_a_lone_user_moves_nobody() {
    match split_plan(6, &states(), &channels(), &"team b".to_string()) {
        SplitPlan::Move { users, target } => {
            assert_eq!(target, 60);
            assert!(users.is_empty());
        }
        SplitPlan::Reply(_) => panic!("author is in a call"),
    }
}
