use rustbot::replies::Reply;
use rustbot::voice::{
    connect_start, connect_step, leave_plan, loop_step, skip_plan, yt_source_kind, CallState, ConnectEffect,
    ConnectEvent, ConnectFlow, ConnectPhase, LeavePlan, LoopEffect, LoopEvent, LoopMode, LoopPhase, SkipPlan,
    SourceQuery, VoiceCommand,
};

fn run(mut flow: ConnectFlow, events: &[ConnectEvent]) -> (ConnectFlow, Vec<ConnectEffect>) {
    let mut all = Vec::new();
    for e in events {
        let (f, effects) = connect_step(flow, *e);
        flow = f;
        all.extend(effects);
    }
    (flow, all)
}

#[test]
fn play_without_voice_channel_tells_and_stops_download() {
    let (flow, effects) = connect_start(VoiceCommand::Play, None);
    assert!(flow.is_none());
    assert_eq!(effects, vec![ConnectEffect::Say(Reply::NotInVoiceChannel), ConnectEffect::AbortDownload]);
}

#[test]
fn join_without_voice_channel_tells() {
    let (flow, effects) = connect_start(VoiceCommand::Join, None);
    assert!(flow.is_none());
    assert_eq!(effects, vec![ConnectEffect::Say(Reply::NotInChannel)]);
}

#[test]
fn play_joins_when_there_is_no_call() {
    let (flow, effects) = connect_start(VoiceCommand::Play, Some(5));
    assert_eq!(effects, vec![ConnectEffect::QueryCall]);
    let (end, effects) = run(
        flow.unwrap(),
        &[
            ConnectEvent::CallStatus(CallState::NoCall),
            ConnectEvent::Joined(true),
            ConnectEvent::SourceReady(true),
            ConnectEvent::Enqueued(1),
        ],
    );
    assert_eq!(end.phase, ConnectPhase::Done);
    assert_eq!(
        effects,
        vec![
            ConnectEffect::JoinChannel(5),
            ConnectEffect::Say(Reply::Searching),
            ConnectEffect::AwaitSource,
            ConnectEffect::Enqueue,
            ConnectEffect::Say(Reply::Playing),
        ]
    );
}

#[test]
fn play_keeps_a_call_in_the_right_channel_and_queues() {
    let (flow, _) = connect_start(VoiceCommand::Play, Some(5));
    let (end, effects) = run(
        flow.unwrap(),
        &[
            ConnectEvent::CallStatus(CallState::InChannel(5)),
            ConnectEvent::SourceReady(true),
            ConnectEvent::Enqueued(3),
        ],
    );
    assert_eq!(end.phase, ConnectPhase::Done);
    assert_eq!(
        effects,
        vec![
            ConnectEffect::Say(Reply::Searching),
            ConnectEffect::AwaitSource,
            ConnectEffect::Enqueue,
            ConnectEffect::Say(Reply::PlacedInQueue),
        ]
    );
}

#[test]
fn join_moves_a_call_from_another_channel() {
    let (flow, _) = connect_start(VoiceCommand::Join, Some(5));
    let (end, effects) = run(
        flow.unwrap(),
        &[
            ConnectEvent::CallStatus(CallState::InChannel(6)),
            ConnectEvent::Removed(true),
            ConnectEvent::Joined(true),
        ],
    );
    assert_eq!(end.phase, ConnectPhase::Done);
    assert_eq!(effects, vec![ConnectEffect::RemoveCall, ConnectEffect::JoinChannel(5)]);
}

#[test]
fn disconnected_call_is_replaced() {
    let (flow, _) = connect_start(VoiceCommand::Join, Some(5));
    let (end, effects) = run(flow.unwrap(), &[ConnectEvent::CallStatus(CallState::Disconnected)]);
    assert_eq!(end.phase, ConnectPhase::AwaitRemove);
    assert_eq!(effects, vec![ConnectEffect::RemoveCall]);
}

#[test]
fn failures_end_the_command() {
    let (flow, _) = connect_start(VoiceCommand::Play, Some(5));
    let (end, effects) =
        run(flow.unwrap(), &[ConnectEvent::CallStatus(CallState::InChannel(6)), ConnectEvent::Removed(false)]);
    assert_eq!(end.phase, ConnectPhase::Failed);
    assert_eq!(effects, vec![ConnectEffect::RemoveCall]);
    let (flow, _) = connect_start(VoiceCommand::Play, Some(5));
    let (end, _) = run(
        flow.unwrap(),
        &[ConnectEvent::CallStatus(CallState::NoCall), ConnectEvent::Joined(true), ConnectEvent::SourceReady(false)],
    );
    assert_eq!(end.phase, ConnectPhase::Failed);
    let (later, effects) = run(end, &[ConnectEvent::Enqueued(2)]);
    assert_eq!(later, end);
    assert!(effects.is_empty());
}

#[test]
fn unexpected_events_change_nothing() {
    let (flow, _) = connect_start(VoiceCommand::Play, Some(5));
    let flow = flow.unwrap();
    let (same, effects) = run(flow, &[ConnectEvent::Joined(true), ConnectEvent::Enqueued(4)]);
    assert_eq!(same, flow);
    assert!(effects.is_empty());
}

#[test]
fn links_and_searches() {
    assert_eq!(yt_source_kind("https://www.youtube.com/watch?v=x"), SourceQuery::Link);
    assert_eq!(yt_source_kind("never gonna give you up"), SourceQuery::Search);
    assert_eq!(yt_source_kind("http://example.com"), SourceQuery::Search);
    assert_eq!(yt_source_kind("https:/"), SourceQuery::Search);
}

#[test]
fn skip_and_leave_need_a_call() {
    assert_eq!(skip_plan(true), SkipPlan::Skip);
    assert_eq!(skip_plan(false), SkipPlan::Reply(Reply::NotInCall));
    assert_eq!(leave_plan(true), LeavePlan::Remove);
    assert_eq!(leave_plan(false), LeavePlan::Stay);
}

#[test]
fn loop_enables_a_finite_track() {
    let (p, e) = loop_step(LoopPhase::AwaitCall, LoopEvent::Call { state: CallState::InChannel(1), queue_empty: false });
    assert_eq!((p, e), (LoopPhase::AwaitInfo, Some(LoopEffect::GetTrackInfo)));
    let (p, e) = loop_step(p, LoopEvent::TrackInfo(Some(LoopMode::Finite(0))));
    assert_eq!((p, e), (LoopPhase::AwaitEnable, Some(LoopEffect::EnableLoop)));
    let (p, e) = loop_step(p, LoopEvent::Toggled(true));
    assert_eq!((p, e), (LoopPhase::Done, Some(LoopEffect::Say(Reply::EnabledLooping))));
}

#[test]
fn loop_disables_an_endless_track() {
    let (p, e) = loop_step(LoopPhase::AwaitInfo, LoopEvent::TrackInfo(Some(LoopMode::Infinite)));
    assert_eq!((p, e), (LoopPhase::AwaitDisable, Some(LoopEffect::DisableLoop)));
    let (p, e) = loop_step(p, LoopEvent::Toggled(true));
    assert_eq!((p, e), (LoopPhase::Done, Some(LoopEffect::Say(Reply::DisabledLooping))));
    assert_eq!(loop_step(LoopPhase::AwaitDisable, LoopEvent::Toggled(false)), (LoopPhase::Failed, None));
    assert_eq!(loop_step(LoopPhase::AwaitInfo, LoopEvent::TrackInfo(None)), (LoopPhase::Failed, None));
}

#[test]
fn loop_needs_a_connected_call_and_a_track() {
    let c = |state, queue_empty| loop_step(LoopPhase::AwaitCall, LoopEvent::Call { state, queue_empty });
    assert_eq!(c(CallState::NoCall, false), (LoopPhase::Done, Some(LoopEffect::Say(Reply::NotInCall))));
    assert_eq!(c(CallState::Disconnected, true), (LoopPhase::Done, Some(LoopEffect::Say(Reply::NotInCall))));
    assert_eq!(c(CallState::InChannel(3), true), (LoopPhase::Done, Some(LoopEffect::Say(Reply::NothingPlaying))));
}
