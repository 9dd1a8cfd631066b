use rustbot::guild::{MemberEntry, RoleEntry};
use rustbot::spam::{mention_message, spam_plan, spam_targets, Mention, MentionableAdapter, SpamPlan};

fn roles() -> Vec<RoleEntry> {
    vec![RoleEntry { id: 77, name: "gamers".to_string() }]
}

fn members() -> Vec<MemberEntry> {
    vec![MemberEntry { user: 42, name: "alice".to_string(), discriminator: 1234, nick: None }]
}

#[test]
fn adapter_keeps_its_mention() {
    let a = MentionableAdapter::from(Mention::Role(9));
    assert_eq!(a.mention(), Mention::Role(9));
}

#[test]
fn mentions_are_written_in_discord_syntax() {
    let targets = vec![
        MentionableAdapter::from(Mention::User(114941315417899012)),
        MentionableAdapter::from(Mention::Role(7)),
        MentionableAdapter::from(Mention::Channel(0)),
    ];
    assert_eq!(mention_message(&targets), "<@114941315417899012><@&7><#0>");
    assert_eq!(mention_message(&Vec::new()), "");
}

#[test]
fn mentioned_users_come_first() {
    let t = spam_targets(&vec![1, 2], &vec![3], &roles(), &members(), &"gamers".to_string()).unwrap();
    let ms: Vec<Mention> = t.iter().map(|a| a.mention()).collect();
    assert_eq!(ms, vec![Mention::User(1), Mention::User(2)]);
}

#[test]
fn mentioned_roles_come_next() {
    let t = spam_targets(&vec![], &vec![3], &roles(), &members(), &"gamers".to_string()).unwrap();
    let ms: Vec<Mention> = t.iter().map(|a| a.mention()).collect();
    assert_eq!(ms, vec![Mention::Role(3)]);
}

#[test]
fn role_names_come_before_member_names() {
    let t = spam_targets(&vec![], &vec![], &roles(), &members(), &"gamers".to_string()).unwrap();
    let ms: Vec<Mention> = t.iter().map(|a| a.mention()).collect();
    assert_eq!(ms, vec![Mention::Role(77)]);
    let t = spam_targets(&vec![], &vec![], &roles(), &members(), &"alice#1234".to_string()).unwrap();
    let ms: Vec<Mention> = t.iter().map(|a| a.mention()).collect();
    assert_eq!(ms, vec![Mention::User(42)]);
}

#[test]
fn spam_repeats_the_mentions() {
    match spam_plan(&vec![], &vec![], &roles(), &members(), &"alice".to_string()) {
        SpamPlan::Repeat { message, times, interval_ms } => {
            assert_eq!(message, "<@42>");
            assert_eq!(times, 10);
            assert_eq!(interval_ms, 1000);
        }
        SpamPlan::NoTarget(_) => panic!("alice is a member"),
    }
}

#[test]
fn spam_without_target_names_the_text() {
    match spam_plan(&vec![], &vec![], &roles(), &members(), &"bob".to_string()) {
        SpamPlan::NoTarget(m) => assert_eq!(m, "no user named bob"),
        SpamPlan::Repeat { .. } => panic!("bob is nobody"),
    }
}
