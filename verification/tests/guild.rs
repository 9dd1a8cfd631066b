use rustbot::guild::{
    member_named, role_by_name, users_in_channel, voice_channel_named, voice_channel_of, voice_state_of,
    ChannelEntry, ChannelKind, MemberEntry, RoleEntry, VoiceStateEntry,
};

fn states() -> Vec<VoiceStateEntry> {
    vec![
        VoiceStateEntry { user: 1, channel: Some(10) },
        VoiceStateEntry { user: 2, channel: None },
        VoiceStateEntry { user: 3, channel: Some(10) },
        VoiceStateEntry { user: 4, channel: Some(20) },
    ]
}

fn member(user: u64, name: &str, discriminator: u16, nick: Option<&str>) -> MemberEntry {
    MemberEntry { user, name: name.to_string(), discriminator, nick: nick.map(|n| n.to_string()) }
}

#[test]
fn voice_state_lookup() {
    let s = states();
    assert_eq!(voice_state_of(&s, 2), Some(VoiceStateEntry { user: 2, channel: None }));
    assert_eq!(voice_state_of(&s, 9), None);
    assert_eq!(voice_channel_of(&s, 3), Some(10));
    assert_eq!(voice_channel_of(&s, 2), None);
    assert_eq!(voice_channel_of(&s, 9), None);
}

#[test]
fn users_in_a_channel_keep_their_order() {
    let s = states();
    assert_eq!(users_in_channel(&s, 10), vec![1, 3]);
    assert_eq!(users_in_channel(&s, 20), vec![4]);
    assert_eq!(users_in_channel(&s, 30), Vec::<u64>::new());
}

#[test]
fn only_voice_channels_are_found_by_name() {
    let channels = vec![
        ChannelEntry { id: 1, name: "lobby".to_string(), kind: ChannelKind::OtherGuildChannel },
        ChannelEntry { id: 2, name: "lobby".to_string(), kind: ChannelKind::NotGuildChannel },
        ChannelEntry { id: 3, name: "lobby".to_string(), kind: ChannelKind::Voice },
        ChannelEntry { id: 4, name: "lobby".to_string(), kind: ChannelKind::Voice },
    ];
    assert_eq!(voice_channel_named(&channels, &"lobby".to_string()), Some(3));
    assert_eq!(voice_channel_named(&channels, &"Lobby".to_string()), None);
}

#[test]
fn roles_are_found_by_exact_name() {
    let roles = vec![
        RoleEntry { id: 5, name: "admins".to_string() },
        RoleEntry { id: 6, name: "mods".to_string() },
        RoleEntry { id: 7, name: "mods".to_string() },
    ];
    assert_eq!(role_by_name(&roles, &"mods".to_string()), Some(6));
    assert_eq!(role_by_name(&roles, &"mod".to_string()), None);
}

#[test]
fn members_are_found_by_name_tag_or_nickname() {
    let members = vec![
        member(1, "zey", 1, Some("boss")),
        member(2, "zey", 5479, None),
        member(3, "kangalioo", 9108, Some("zey#5479")),
        member(4, "other", 2, Some("kangalioo#10108")),
    ];
    assert_eq!(member_named(&members, &"zey".to_string()), Some(1));
    assert_eq!(member_named(&members, &"zey#5479".to_string()), Some(2));
    assert_eq!(member_named(&members, &"zey#+5479".to_string()), Some(2));
    assert_eq!(member_named(&members, &"zey#05479".to_string()), Some(2));
    assert_eq!(member_named(&members, &"boss".to_string()), Some(1));
    assert_eq!(member_named(&members, &"kangalioo#10108".to_string()), Some(4));
    assert_eq!(member_named(&members, &"kangalioo#9108".to_string()), Some(3));
    assert_eq!(member_named(&members, &"zey#0001".to_string()), Some(1));
    assert_eq!(member_named(&members, &"zey#0002".to_string()), None);
    assert_eq!(member_named(&members, &"nobody".to_string()), None);
}
