use rustbot::eventhandler::{auto_leave_start, auto_leave_step, AutoLeave, AutoLeaveEffect, AutoLeaveEvent, Handler};
use rustbot::guild::VoiceStateEntry;
use rustbot::voice::CallState;

fn states() -> Vec<VoiceStateEntry> {
    vec![
        VoiceStateEntry { user: 1, channel: Some(10) },
        VoiceStateEntry { user: 2, channel: Some(11) },
        VoiceStateEntry { user: 3, channel: Some(10) },
    ]
}

fn to_checking(channel: u64) -> (AutoLeave, Option<AutoLeaveEffect>) {
    let (s, e) = auto_leave_start(Some(1));
    assert_eq!(e, Some(AutoLeaveEffect::QueryCall));
    let (s, e) = auto_leave_step(s, AutoLeaveEvent::Call(CallState::InChannel(channel)));
    assert_eq!(e, Some(AutoLeaveEffect::ReadVoiceStates));
    auto_leave_step(s, AutoLeaveEvent::VoiceStates(states()))
}

#[test]
fn handler_is_made() {
    let _h: Handler = Handler::new();
}

#[test]
fn update_without_guild_is_ignored() {
    let (s, e) = auto_leave_start(None);
    assert!(matches!(s, AutoLeave::Done));
    assert_eq!(e, None);
}

#[test]
fn guild_without_call_is_left_alone() {
    let (s, _) = auto_leave_start(Some(1));
    let (s, e) = auto_leave_step(s, AutoLeaveEvent::Call(CallState::NoCall));
    assert!(matches!(s, AutoLeave::Done));
    assert_eq!(e, None);
}

#[test]
fn disconnected_call_is_removed() {
    let (s, _) = auto_leave_start(Some(1));
    let (s, e) = auto_leave_step(s, AutoLeaveEvent::Call(CallState::Disconnected));
    assert!(matches!(s, AutoLeave::AwaitRemove));
    assert_eq!(e, Some(AutoLeaveEffect::RemoveCall));
    let (s, e) = auto_leave_step(s, AutoLeaveEvent::Removed(false));
    assert!(matches!(s, AutoLeave::Done));
    assert_eq!(e, None);
}

#[test]
fn empty_channel_is_left() {
    let (s, e) = to_checking(12);
    assert!(matches!(s, AutoLeave::AwaitRemove));
    assert_eq!(e, Some(AutoLeaveEffect::RemoveCall));
}

#[test]
fn call_with_only_bots_is_left() {
    let (s, e) = to_checking(10);
    assert_eq!(e, Some(AutoLeaveEffect::FetchUser(1)));
    let (s, e) = auto_leave_step(s, AutoLeaveEvent::UserFetched(Some(true)));
    assert_eq!(e, Some(AutoLeaveEffect::FetchUser(3)));
    let (s, e) = auto_leave_step(s, AutoLeaveEvent::UserFetched(Some(true)));
    assert!(matches!(s, AutoLeave::AwaitRemove));
    assert_eq!(e, Some(AutoLeaveEffect::RemoveCall));
}

#[test]
fn call_with_a_person_is_kept() {
    let (s, _) = to_checking(10);
    let (s, e) = auto_leave_step(s, AutoLeaveEvent::UserFetched(Some(false)));
    assert!(matches!(s, AutoLeave::Done));
    assert_eq!(e, None);
}

#[test]
fn failed_fetch_keeps_the_call() {
    let (s, _) = to_checking(10);
    let (s, _) = auto_leave_step(s, AutoLeaveEvent::UserFetched(Some(true)));
    let (s, e) = auto_leave_step(s, AutoLeaveEvent::UserFetched(None));
    assert!(matches!(s, AutoLeave::Done));
    assert_eq!(e, None);
}
