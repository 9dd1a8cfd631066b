use vstd::prelude::*;
use crate::replies::Reply;
use crate::text::{has_prefix, starts_with};

verus! {

/// What the bot's voice manager holds for a guild: no call, a call that is
/// connected to a voice channel, or a call that is connected to none.
#[derive(Debug, Clone, Copy, PartialEq, Eq, Structural)]
pub enum CallState {
    NoCall,
    InChannel(u64),
    Disconnected,
}

/// The two commands that connect the bot to the author's voice channel.
#[derive(Debug, Clone, Copy, PartialEq, Eq, Structural)]
pub enum VoiceCommand {
    /// `play`: connect, then queue the requested audio.
    Play,
    /// `join`: connect only.
    Join,
}

/// Where a connecting command stands.
#[derive(Debug, Clone, Copy, PartialEq, Eq, Structural)]
pub enum ConnectPhase {
    /// Waits for the state of the guild's call.
    AwaitCall,
    /// Waits for the removal of a call that is not in the author's channel.
    AwaitRemove,
    /// Waits for joining the author's channel.
    AwaitJoin,
    /// `play` waits for its audio source.
    AwaitSource,
    /// `play` waits for the source to be queued.
    AwaitEnqueue,
    /// Finished.
    Done,
    /// Finished with the error of the last outside operation.
    Failed,
}

/// A connecting command in progress: which command, the author's voice
/// channel, and the phase.
#[derive(Debug, Clone, Copy, PartialEq, Eq, Structural)]
pub struct ConnectFlow {
    pub command: VoiceCommand,
    pub channel: u64,
    pub phase: ConnectPhase,
}

/// What the outside world reports to a connecting command.
#[derive(Debug, Clone, Copy, PartialEq, Eq, Structural)]
pub enum ConnectEvent {
    /// The state of the guild's call.
    CallStatus(CallState),
    /// Whether removing the call succeeded.
    Removed(bool),
    /// Whether joining the channel succeeded.
    Joined(bool),
    /// Whether the audio source was obtained.
    SourceReady(bool),
    /// The source was queued; the queue now has this many tracks.
    Enqueued(u64),
}

/// What a connecting command asks the outside world to do, in order.
#[derive(Debug, Clone, Copy, PartialEq, Eq, Structural)]
pub enum ConnectEffect {
    /// Send a reply to the command's channel.
    Say(Reply),
    /// Stop the download of the audio source.
    AbortDownload,
    /// Report the state of the guild's call.
    QueryCall,
    /// Remove the guild's call.
    RemoveCall,
    /// Join this voice channel.
    JoinChannel(u64),
    /// Wait for the audio source.
    AwaitSource,
    /// Queue the audio source in the call.
    Enqueue,
}

/// The reply when the author has no voice channel.
pub open spec fn not_in_voice_reply(command: VoiceCommand) -> Reply {
    match command {
        VoiceCommand::Play => Reply::NotInVoiceChannel,
        VoiceCommand::Join => Reply::NotInChannel,
    }
}

/// How a connecting command begins, given the author's voice channel: without
/// one it tells the author (and `play` stops its download); with one it asks
/// for the guild's call.
pub open spec fn connect_begin(command: VoiceCommand, author_channel: Option<u64>) -> (Option<ConnectFlow>, Seq<ConnectEffect>) {
    match author_channel {
        None => (None, match command {
            VoiceCommand::Play => seq![ConnectEffect::Say(Reply::NotInVoiceChannel), ConnectEffect::AbortDownload],
            VoiceCommand::Join => seq![ConnectEffect::Say(Reply::NotInChannel)],
        }),
        Some(c) => (
            Some(ConnectFlow { command, channel: c, phase: ConnectPhase::AwaitCall }),
            seq![ConnectEffect::QueryCall],
        ),
    }
}

/// What follows once the bot is in the author's channel: `play` says it is
/// searching and waits for its source; `join` is done.
pub open spec fn connected(flow: ConnectFlow) -> (ConnectFlow, Seq<ConnectEffect>) {
    match flow.command {
        VoiceCommand::Play => (
            ConnectFlow { phase: ConnectPhase::AwaitSource, ..flow },
            seq![ConnectEffect::Say(Reply::Searching), ConnectEffect::AwaitSource],
        ),
        VoiceCommand::Join => (ConnectFlow { phase: ConnectPhase::Done, ..flow }, Seq::empty()),
    }
}

/// One step of a connecting command. A call already in the author's channel
/// is kept; any other call is removed first; then the author's channel is
/// joined. An event that does not fit the phase changes nothing.
pub open spec fn connect_next(flow: ConnectFlow, event: ConnectEvent) -> (ConnectFlow, Seq<ConnectEffect>) {
    let fail = (ConnectFlow { phase: ConnectPhase::Failed, ..flow }, Seq::<ConnectEffect>::empty());
    match (flow.phase, event) {
        (ConnectPhase::AwaitCall, ConnectEvent::CallStatus(s)) => {
            if s == CallState::InChannel(flow.channel) {
                connected(flow)
            } else if s == CallState::NoCall {
                (ConnectFlow { phase: ConnectPhase::AwaitJoin, ..flow }, seq![ConnectEffect::JoinChannel(flow.channel)])
            } else {
                (ConnectFlow { phase: ConnectPhase::AwaitRemove, ..flow }, seq![ConnectEffect::RemoveCall])
            }
        },
        (ConnectPhase::AwaitRemove, ConnectEvent::Removed(ok)) => if ok {
            (ConnectFlow { phase: ConnectPhase::AwaitJoin, ..flow }, seq![ConnectEffect::JoinChannel(flow.channel)])
        } else {
            fail
        },
        (ConnectPhase::AwaitJoin, ConnectEvent::Joined(ok)) => if ok {
            connected(flow)
        } else {
            fail
        },
        (ConnectPhase::AwaitSource, ConnectEvent::SourceReady(ok)) => if ok {
            (ConnectFlow { phase: ConnectPhase::AwaitEnqueue, ..flow }, seq![ConnectEffect::Enqueue])
        } else {
            fail
        },
        (ConnectPhase::AwaitEnqueue, ConnectEvent::Enqueued(n)) => (
            ConnectFlow { phase: ConnectPhase::Done, ..flow },
            seq![ConnectEffect::Say(if n > 1 { Reply::PlacedInQueue } else { Reply::Playing })],
        ),
        _ => (flow, Seq::empty()),
    }
}

/// Starts a connecting command; see `connect_begin`.
pub fn connect_start(command: VoiceCommand, author_channel: Option<u64>) -> (r: (Option<ConnectFlow>, Vec<ConnectEffect>))
    ensures
        (r.0, r.1@) == connect_begin(command, author_channel),
        author_channel matches Some(c) ==> r.0 == Some(ConnectFlow { command, channel: c, phase: ConnectPhase::AwaitCall })
            && r.1@ == seq![ConnectEffect::QueryCall],
{
    match author_channel {
        None => {
            let effects = match command {
                VoiceCommand::Play => vec![ConnectEffect::Say(Reply::NotInVoiceChannel), ConnectEffect::AbortDownload],
                VoiceCommand::Join => vec![ConnectEffect::Say(Reply::NotInChannel)],
            };
            (None, effects)
        },
        Some(c) => (Some(ConnectFlow { command, channel: c, phase: ConnectPhase::AwaitCall }), vec![ConnectEffect::QueryCall]),
    }
}

fn connected_step(flow: ConnectFlow) -> (r: (ConnectFlow, Vec<ConnectEffect>))
    ensures
        (r.0, r.1@) == connected(flow),
{
    match flow.command {
        VoiceCommand::Play => (
            ConnectFlow { phase: ConnectPhase::AwaitSource, ..flow },
            vec![ConnectEffect::Say(Reply::Searching), ConnectEffect::AwaitSource],
        ),
        VoiceCommand::Join => (ConnectFlow { phase: ConnectPhase::Done, ..flow }, Vec::new()),
    }
}

/// Advances a connecting command by one event; see `connect_next`.
pub fn connect_step(flow: ConnectFlow, event: ConnectEvent) -> (r: (ConnectFlow, Vec<ConnectEffect>))
    ensures
        (r.0, r.1@) == connect_next(flow, event),
        flow.phase == ConnectPhase::AwaitEnqueue ==> (event matches ConnectEvent::Enqueued(n) ==> r.1@ == seq![
            ConnectEffect::Say(if n > 1 { Reply::PlacedInQueue } else { Reply::Playing }),
        ]),
{
    let fail = (ConnectFlow { phase: ConnectPhase::Failed, ..flow }, Vec::new());
    match (flow.phase, event) {
        (ConnectPhase::AwaitCall, ConnectEvent::CallStatus(s)) => {
            if s == CallState::InChannel(flow.channel) {
                connected_step(flow)
            } else if s == CallState::NoCall {
                (ConnectFlow { phase: ConnectPhase::AwaitJoin, ..flow }, vec![ConnectEffect::JoinChannel(flow.channel)])
            } else {
                (ConnectFlow { phase: ConnectPhase::AwaitRemove, ..flow }, vec![ConnectEffect::RemoveCall])
            }
        },
        (ConnectPhase::AwaitRemove, ConnectEvent::Removed(ok)) => if ok {
            (ConnectFlow { phase: ConnectPhase::AwaitJoin, ..flow }, vec![ConnectEffect::JoinChannel(flow.channel)])
        } else {
            fail
        },
        (ConnectPhase::AwaitJoin, ConnectEvent::Joined(ok)) => if ok {
            connected_step(flow)
        } else {
            fail
        },
        (ConnectPhase::AwaitSource, ConnectEvent::SourceReady(ok)) => if ok {
            (ConnectFlow { phase: ConnectPhase::AwaitEnqueue, ..flow }, vec![ConnectEffect::Enqueue])
        } else {
            fail
        },
        (ConnectPhase::AwaitEnqueue, ConnectEvent::Enqueued(n)) => {
            let reply = if n > 1 {
                Reply::PlacedInQueue
            } else {
                Reply::Playing
            };
            (ConnectFlow { phase: ConnectPhase::Done, ..flow }, vec![ConnectEffect::Say(reply)])
        },
        _ => (flow, Vec::new()),
    }
}

/// A connecting command run through a series of events, first event first:
/// the flow it ends in, and everything it asked for on the way.
pub open spec fn connect_run(flow: ConnectFlow, events: Seq<ConnectEvent>) -> (ConnectFlow, Seq<ConnectEffect>)
    decreases events.len(),
{
    if events.len() == 0 {
        (flow, Seq::empty())
    } else {
        let (next, first) = connect_next(flow, events[0]);
        let (last, rest) = connect_run(next, events.drop_first());
        (last, first + rest)
    }
}

/// A connecting command only ever joins the author's voice channel, and never
/// changes command or channel, whatever the outside world reports.
pub proof fn lemma_connect_joins_only_author_channel(flow: ConnectFlow, events: Seq<ConnectEvent>)
    ensures
        connect_run(flow, events).0.command == flow.command,
        connect_run(flow, events).0.channel == flow.channel,
        forall|i: int|
            0 <= i < connect_run(flow, events).1.len() ==> (#[trigger] connect_run(flow, events).1[i] matches ConnectEffect::JoinChannel(c) ==> c == flow.channel),
    decreases events.len(),
{
    if events.len() > 0 {
        let (next, first) = connect_next(flow, events[0]);
        lemma_connect_joins_only_author_channel(next, events.drop_first());
        let (last, rest) = connect_run(next, events.drop_first());
        assert forall|i: int| 0 <= i < (first + rest).len() implies ((#[trigger] (first + rest)[i]) matches ConnectEffect::JoinChannel(c) ==> c == flow.channel) by {
            if i >= first.len() {
                assert((first + rest)[i] == rest[i - first.len()]);
            }
        }
    }
}

/// The phases in which the bot is already in the author's channel, or done.
pub open spec fn settled(phase: ConnectPhase) -> bool {
    ||| phase == ConnectPhase::AwaitSource
    ||| phase == ConnectPhase::AwaitEnqueue
    ||| phase == ConnectPhase::Done
    ||| phase == ConnectPhase::Failed
}

/// Once settled, a connecting command neither removes the call nor joins.
pub proof fn lemma_settled_never_moves(flow: ConnectFlow, events: Seq<ConnectEvent>)
    requires
        settled(flow.phase),
    ensures
        forall|i: int|
            0 <= i < connect_run(flow, events).1.len() ==> !(#[trigger] connect_run(flow, events).1[i] is RemoveCall)
                && !(connect_run(flow, events).1[i] is JoinChannel),
    decreases events.len(),
{
    if events.len() > 0 {
        let (next, first) = connect_next(flow, events[0]);
        lemma_settled_never_moves(next, events.drop_first());
        let (last, rest) = connect_run(next, events.drop_first());
        assert forall|i: int| 0 <= i < (first + rest).len() implies !(#[trigger] (first + rest)[i] is RemoveCall)
            && !((first + rest)[i] is JoinChannel) by {
            if i >= first.len() {
                assert((first + rest)[i] == rest[i - first.len()]);
            }
        }
    }
}

/// A call that is already in the author's voice channel is kept: when the
/// guild's call is reported there, the command never removes it and never
/// joins again, whatever follows.
pub proof fn lemma_connect_keeps_call_in_author_channel(flow: ConnectFlow, events: Seq<ConnectEvent>)
    requires
        flow.phase == ConnectPhase::AwaitCall,
        events.len() > 0,
        events[0] == ConnectEvent::CallStatus(CallState::InChannel(flow.channel)),
    ensures
        forall|i: int|
            0 <= i < connect_run(flow, events).1.len() ==> !(#[trigger] connect_run(flow, events).1[i] is RemoveCall)
                && !(connect_run(flow, events).1[i] is JoinChannel),
{
    let (next, first) = connect_next(flow, events[0]);
    lemma_settled_never_moves(next, events.drop_first());
    let (last, rest) = connect_run(next, events.drop_first());
    assert forall|i: int| 0 <= i < (first + rest).len() implies !(#[trigger] (first + rest)[i] is RemoveCall)
        && !((first + rest)[i] is JoinChannel) by {
        if i >= first.len() {
            assert((first + rest)[i] == rest[i - first.len()]);
        }
    }
}

/// A finished command stays finished and asks for nothing more.
pub proof fn lemma_connect_finished_is_final(flow: ConnectFlow, events: Seq<ConnectEvent>)
    requires
        flow.phase == ConnectPhase::Done || flow.phase == ConnectPhase::Failed,
    ensures
        connect_run(flow, events) == (flow, Seq::<ConnectEffect>::empty()),
    decreases events.len(),
{
    if events.len() > 0 {
        lemma_connect_finished_is_final(flow, events.drop_first());
        assert(Seq::<ConnectEffect>::empty() + Seq::<ConnectEffect>::empty() =~= Seq::<ConnectEffect>::empty());
    }
}

/// Once `play` has queued its audio, it is done and says one thing: "placed
/// in queue" exactly when the queue holds more than one track, and "playing"
/// exactly when the new track is the only one.
pub proof fn lemma_enqueue_reply(flow: ConnectFlow, n: u64)
    requires
        flow.phase == ConnectPhase::AwaitEnqueue,
    ensures
        connect_next(flow, ConnectEvent::Enqueued(n)).0 == (ConnectFlow { phase: ConnectPhase::Done, ..flow }),
        connect_next(flow, ConnectEvent::Enqueued(n)).1.len() == 1,
        connect_next(flow, ConnectEvent::Enqueued(n)).1[0] == ConnectEffect::Say(Reply::PlacedInQueue) <==> n > 1,
        connect_next(flow, ConnectEvent::Enqueued(n)).1[0] == ConnectEffect::Say(Reply::Playing) <==> n <= 1,
{
}

/// A connecting command, `play` or `join` alike, whose author is in voice
/// channel `c` starts by asking for the guild's call, and for nothing else.
/// When the guild has no call, it then joins `c`; when the call is in another
/// channel or in none, it removes the call and, once removed, joins `c`.
pub proof fn lemma_connect_asks_for_call_then_joins(command: VoiceCommand, c: u64, elsewhere: CallState)
    ensures
        connect_begin(command, Some(c)).0 == Some(ConnectFlow { command, channel: c, phase: ConnectPhase::AwaitCall }),
        connect_begin(command, Some(c)).1 == seq![ConnectEffect::QueryCall],
        connect_begin(command, Some(c)).1 + connect_run(
            ConnectFlow { command, channel: c, phase: ConnectPhase::AwaitCall },
            seq![ConnectEvent::CallStatus(CallState::NoCall)],
        ).1 == seq![ConnectEffect::QueryCall, ConnectEffect::JoinChannel(c)],
        elsewhere != CallState::NoCall && elsewhere != CallState::InChannel(c) ==> connect_begin(command, Some(c)).1
            + connect_run(
            ConnectFlow { command, channel: c, phase: ConnectPhase::AwaitCall },
            seq![ConnectEvent::CallStatus(elsewhere), ConnectEvent::Removed(true)],
        ).1 == seq![ConnectEffect::QueryCall, ConnectEffect::RemoveCall, ConnectEffect::JoinChannel(c)],
{
    reveal_with_fuel(connect_run, 3);
    let f = ConnectFlow { command, channel: c, phase: ConnectPhase::AwaitCall };
    let e1 = seq![ConnectEvent::CallStatus(CallState::NoCall)];
    assert(e1[0] == ConnectEvent::CallStatus(CallState::NoCall));
    assert(e1.drop_first() =~= Seq::<ConnectEvent>::empty());
    assert(connect_run(f, e1).1 =~= seq![ConnectEffect::JoinChannel(c)]);
    assert(seq![ConnectEffect::QueryCall] + seq![ConnectEffect::JoinChannel(c)] =~= seq![
        ConnectEffect::QueryCall,
        ConnectEffect::JoinChannel(c),
    ]);
    if elsewhere != CallState::NoCall && elsewhere != CallState::InChannel(c) {
        let e2 = seq![ConnectEvent::CallStatus(elsewhere), ConnectEvent::Removed(true)];
        let f2 = ConnectFlow { phase: ConnectPhase::AwaitRemove, ..f };
        assert(e2[0] == ConnectEvent::CallStatus(elsewhere));
        assert(e2.drop_first() =~= seq![ConnectEvent::Removed(true)]);
        assert(e2.drop_first()[0] == ConnectEvent::Removed(true));
        assert(e2.drop_first().drop_first() =~= Seq::<ConnectEvent>::empty());
        assert(connect_run(f2, e2.drop_first()).1 =~= seq![ConnectEffect::JoinChannel(c)]);
        assert(connect_run(f, e2).1 =~= seq![ConnectEffect::RemoveCall, ConnectEffect::JoinChannel(c)]);
        assert(seq![ConnectEffect::QueryCall] + seq![ConnectEffect::RemoveCall, ConnectEffect::JoinChannel(c)] =~= seq![
            ConnectEffect::QueryCall,
            ConnectEffect::RemoveCall,
            ConnectEffect::JoinChannel(c),
        ]);
    }
}

/// `play` and `join` run to their end when nothing fails. From an author in
/// channel `c` and a guild without a call, `play` joins `c`, says it is
/// searching, waits for its audio, queues it, and says whether the track
/// plays or waits in the queue; `join` joins `c` and is done. With the call
/// already in `c`, `join` is done at once and asks for nothing.
pub proof fn lemma_connect_runs_through(c: u64, n: u64)
    ensures
        connect_run(
            ConnectFlow { command: VoiceCommand::Play, channel: c, phase: ConnectPhase::AwaitCall },
            seq![
                ConnectEvent::CallStatus(CallState::NoCall),
                ConnectEvent::Joined(true),
                ConnectEvent::SourceReady(true),
                ConnectEvent::Enqueued(n),
            ],
        ) == (ConnectFlow { command: VoiceCommand::Play, channel: c, phase: ConnectPhase::Done }, seq![
            ConnectEffect::JoinChannel(c),
            ConnectEffect::Say(Reply::Searching),
            ConnectEffect::AwaitSource,
            ConnectEffect::Enqueue,
            ConnectEffect::Say(if n > 1 { Reply::PlacedInQueue } else { Reply::Playing }),
        ]),
        connect_run(
            ConnectFlow { command: VoiceCommand::Join, channel: c, phase: ConnectPhase::AwaitCall },
            seq![ConnectEvent::CallStatus(CallState::NoCall), ConnectEvent::Joined(true)],
        ) == (ConnectFlow { command: VoiceCommand::Join, channel: c, phase: ConnectPhase::Done }, seq![
            ConnectEffect::JoinChannel(c),
        ]),
        connect_run(
            ConnectFlow { command: VoiceCommand::Join, channel: c, phase: ConnectPhase::AwaitCall },
            seq![ConnectEvent::CallStatus(CallState::InChannel(c))],
        ) == (ConnectFlow { command: VoiceCommand::Join, channel: c, phase: ConnectPhase::Done }, Seq::<
            ConnectEffect,
        >::empty()),
{
    reveal_with_fuel(connect_run, 5);
    let reply = if n > 1 { Reply::PlacedInQueue } else { Reply::Playing };
    let p0 = ConnectFlow { command: VoiceCommand::Play, channel: c, phase: ConnectPhase::AwaitCall };
    let p1 = ConnectFlow { phase: ConnectPhase::AwaitJoin, ..p0 };
    let p2 = ConnectFlow { phase: ConnectPhase::AwaitSource, ..p0 };
    let p3 = ConnectFlow { phase: ConnectPhase::AwaitEnqueue, ..p0 };
    let p4 = ConnectFlow { phase: ConnectPhase::Done, ..p0 };
    let ev = seq![
        ConnectEvent::CallStatus(CallState::NoCall),
        ConnectEvent::Joined(true),
        ConnectEvent::SourceReady(true),
        ConnectEvent::Enqueued(n),
    ];
    assert(ev.drop_first() =~= seq![ConnectEvent::Joined(true), ConnectEvent::SourceReady(true), ConnectEvent::Enqueued(n)]);
    assert(ev.drop_first().drop_first() =~= seq![ConnectEvent::SourceReady(true), ConnectEvent::Enqueued(n)]);
    assert(ev.drop_first().drop_first().drop_first() =~= seq![ConnectEvent::Enqueued(n)]);
    assert(ev.drop_first().drop_first().drop_first().drop_first() =~= Seq::<ConnectEvent>::empty());
    assert(connect_run(p4, Seq::<ConnectEvent>::empty()) == (p4, Seq::<ConnectEffect>::empty()));
    assert(connect_run(p3, seq![ConnectEvent::Enqueued(n)]).1 =~= seq![ConnectEffect::Say(reply)]);
    assert(connect_run(p2, seq![ConnectEvent::SourceReady(true), ConnectEvent::Enqueued(n)]).1 =~= seq![
        ConnectEffect::Enqueue,
        ConnectEffect::Say(reply),
    ]);
    assert(connect_run(p1, ev.drop_first()).1 =~= seq![
        ConnectEffect::Say(Reply::Searching),
        ConnectEffect::AwaitSource,
        ConnectEffect::Enqueue,
        ConnectEffect::Say(reply),
    ]);
    assert(connect_run(p0, ev).1 =~= seq![
        ConnectEffect::JoinChannel(c),
        ConnectEffect::Say(Reply::Searching),
        ConnectEffect::AwaitSource,
        ConnectEffect::Enqueue,
        ConnectEffect::Say(reply),
    ]);
    let j0 = ConnectFlow { command: VoiceCommand::Join, channel: c, phase: ConnectPhase::AwaitCall };
    let j1 = ConnectFlow { phase: ConnectPhase::AwaitJoin, ..j0 };
    let jd = ConnectFlow { phase: ConnectPhase::Done, ..j0 };
    let ej = seq![ConnectEvent::CallStatus(CallState::NoCall), ConnectEvent::Joined(true)];
    assert(ej.drop_first() =~= seq![ConnectEvent::Joined(true)]);
    assert(ej.drop_first().drop_first() =~= Seq::<ConnectEvent>::empty());
    assert(connect_run(j1, ej.drop_first()).1 =~= Seq::<ConnectEffect>::empty());
    assert(connect_run(j0, ej).1 =~= seq![ConnectEffect::JoinChannel(c)]);
    let ek = seq![ConnectEvent::CallStatus(CallState::InChannel(c))];
    assert(ek.drop_first() =~= Seq::<ConnectEvent>::empty());
    assert(connect_run(j0, ek).1 =~= Seq::<ConnectEffect>::empty());
}

/// How `play` obtains its audio: from a link, or by a search.
#[derive(Debug, Clone, Copy, PartialEq, Eq, Structural)]
pub enum SourceQuery {
    Link,
    Search,
}

/// A text that starts with `https://` is a link; any other text is a search.
pub fn yt_source_kind(text: &str) -> (r: SourceQuery)
    ensures
        r == (if has_prefix(text@, "https://"@) {
            SourceQuery::Link
        } else {
            SourceQuery::Search
        }),
{
    if starts_with(text, "https://") {
        SourceQuery::Link
    } else {
        SourceQuery::Search
    }
}

/// What `skip` does.
#[derive(Debug, Clone, Copy, PartialEq, Eq, Structural)]
pub enum SkipPlan {
    /// Skip the current track of the guild's call.
    Skip,
    /// Answer with a reply.
    Reply(Reply),
}

/// `skip` skips the current track when the guild has a call, and otherwise
/// tells that the bot is not in a call.
pub fn skip_plan(has_call: bool) -> (r: SkipPlan)
    ensures
        r == (if has_call {
            SkipPlan::Skip
        } else {
            SkipPlan::Reply(Reply::NotInCall)
        }),
{
    if has_call {
        SkipPlan::Skip
    } else {
        SkipPlan::Reply(Reply::NotInCall)
    }
}

/// What `leave` does.
#[derive(Debug, Clone, Copy, PartialEq, Eq, Structural)]
pub enum LeavePlan {
    /// Remove the guild's call.
    Remove,
    /// Nothing to leave.
    Stay,
}

/// `leave` removes the guild's call when there is one, and does nothing else.
pub fn leave_plan(has_call: bool) -> (r: LeavePlan)
    ensures
        r == (if has_call {
            LeavePlan::Remove
        } else {
            LeavePlan::Stay
        }),
{
    if has_call {
        LeavePlan::Remove
    } else {
        LeavePlan::Stay
    }
}

/// How a track repeats: a number of times, or without end.
#[derive(Debug, Clone, Copy, PartialEq, Eq, Structural)]
pub enum LoopMode {
    Finite(u64),
    Infinite,
}

/// Where the `loop` command stands.
#[derive(Debug, Clone, Copy, PartialEq, Eq, Structural)]
pub enum LoopPhase {
    /// Waits for the state of the guild's call and its queue.
    AwaitCall,
    /// Waits for the current track's loop mode.
    AwaitInfo,
    /// Waits for looping to be switched on.
    AwaitEnable,
    /// Waits for looping to be switched off.
    AwaitDisable,
    /// Finished.
    Done,
    /// Finished with the error of the last outside operation.
    Failed,
}

/// What the outside world reports to `loop`.
#[derive(Debug, Clone, Copy, PartialEq, Eq, Structural)]
pub enum LoopEvent {
    /// The guild's call, and whether its queue is empty.
    Call { state: CallState, queue_empty: bool },
    /// The loop mode of the current track, or none when it could not be read.
    TrackInfo(Option<LoopMode>),
    /// Whether switching looping succeeded.
    Toggled(bool),
}

/// What `loop` asks the outside world to do.
#[derive(Debug, Clone, Copy, PartialEq, Eq, Structural)]
pub enum LoopEffect {
    Say(Reply),
    GetTrackInfo,
    EnableLoop,
    DisableLoop,
}

/// One step of `loop`: without a connected call it says so; with an empty
/// queue it says nothing plays; otherwise it switches looping of the current
/// track on when it repeats a finite number of times, and off when it repeats
/// without end, and says which. An event that does not fit the phase changes
/// nothing.
pub open spec fn loop_next(phase: LoopPhase, event: LoopEvent) -> (LoopPhase, Option<LoopEffect>) {
    match (phase, event) {
        (LoopPhase::AwaitCall, LoopEvent::Call { state, queue_empty }) => match state {
            CallState::InChannel(_) => if queue_empty {
                (LoopPhase::Done, Some(LoopEffect::Say(Reply::NothingPlaying)))
            } else {
                (LoopPhase::AwaitInfo, Some(LoopEffect::GetTrackInfo))
            },
            _ => (LoopPhase::Done, Some(LoopEffect::Say(Reply::NotInCall))),
        },
        (LoopPhase::AwaitInfo, LoopEvent::TrackInfo(info)) => match info {
            Some(LoopMode::Finite(_)) => (LoopPhase::AwaitEnable, Some(LoopEffect::EnableLoop)),
            Some(LoopMode::Infinite) => (LoopPhase::AwaitDisable, Some(LoopEffect::DisableLoop)),
            None => (LoopPhase::Failed, None),
        },
        (LoopPhase::AwaitEnable, LoopEvent::Toggled(ok)) => if ok {
            (LoopPhase::Done, Some(LoopEffect::Say(Reply::EnabledLooping)))
        } else {
            (LoopPhase::Failed, None)
        },
        (LoopPhase::AwaitDisable, LoopEvent::Toggled(ok)) => if ok {
            (LoopPhase::Done, Some(LoopEffect::Say(Reply::DisabledLooping)))
        } else {
            (LoopPhase::Failed, None)
        },
        _ => (phase, None),
    }
}

/// Advances `loop` by one event; see `loop_next`. The command starts in
/// `LoopPhase::AwaitCall`.
pub fn loop_step(phase: LoopPhase, event: LoopEvent) -> (r: (LoopPhase, Option<LoopEffect>))
    ensures
        r == loop_next(phase, event),
{
    match (phase, event) {
        (LoopPhase::AwaitCall, LoopEvent::Call { state, queue_empty }) => match state {
            CallState::InChannel(_) => if queue_empty {
                (LoopPhase::Done, Some(LoopEffect::Say(Reply::NothingPlaying)))
            } else {
                (LoopPhase::AwaitInfo, Some(LoopEffect::GetTrackInfo))
            },
            _ => (LoopPhase::Done, Some(LoopEffect::Say(Reply::NotInCall))),
        },
        (LoopPhase::AwaitInfo, LoopEvent::TrackInfo(info)) => match info {
            Some(LoopMode::Finite(_)) => (LoopPhase::AwaitEnable, Some(LoopEffect::EnableLoop)),
            Some(LoopMode::Infinite) => (LoopPhase::AwaitDisable, Some(LoopEffect::DisableLoop)),
            None => (LoopPhase::Failed, None),
        },
        (LoopPhase::AwaitEnable, LoopEvent::Toggled(ok)) => if ok {
            (LoopPhase::Done, Some(LoopEffect::Say(Reply::EnabledLooping)))
        } else {
            (LoopPhase::Failed, None)
        },
        (LoopPhase::AwaitDisable, LoopEvent::Toggled(ok)) => if ok {
            (LoopPhase::Done, Some(LoopEffect::Say(Reply::DisabledLooping)))
        } else {
            (LoopPhase::Failed, None)
        },
        _ => (phase, None),
    }
}

/// `loop` says "not in a call" when the guild's call is not connected to a
/// channel, whatever the queue, and "nothing playing" when the call is
/// connected and its queue is empty; either way it is then done.
pub proof fn lemma_loop_refusals(channel: u64, queue_empty: bool)
    ensures
        loop_next(LoopPhase::AwaitCall, LoopEvent::Call { state: CallState::NoCall, queue_empty }) == (
            LoopPhase::Done,
            Some(LoopEffect::Say(Reply::NotInCall)),
        ),
        loop_next(LoopPhase::AwaitCall, LoopEvent::Call { state: CallState::Disconnected, queue_empty }) == (
            LoopPhase::Done,
            Some(LoopEffect::Say(Reply::NotInCall)),
        ),
        loop_next(LoopPhase::AwaitCall, LoopEvent::Call { state: CallState::InChannel(channel), queue_empty: true })
            == (LoopPhase::Done, Some(LoopEffect::Say(Reply::NothingPlaying))),
{
}

/// `loop` switches looping to the opposite of the current track's mode: a
/// track that repeats a finite number of times is made to repeat without end,
/// and one that repeats without end is made to stop repeating; with the call
/// connected and something queued, and the switch succeeding, it says which.
pub proof fn lemma_loop_switches_mode(channel: u64, mode: LoopMode)
    ensures
        loop_next(LoopPhase::AwaitCall, LoopEvent::Call { state: CallState::InChannel(channel), queue_empty: false })
            == (LoopPhase::AwaitInfo, Some(LoopEffect::GetTrackInfo)),
        loop_next(LoopPhase::AwaitInfo, LoopEvent::TrackInfo(Some(mode))) == (match mode {
            LoopMode::Finite(_) => (LoopPhase::AwaitEnable, Some(LoopEffect::EnableLoop)),
            LoopMode::Infinite => (LoopPhase::AwaitDisable, Some(LoopEffect::DisableLoop)),
        }),
        loop_next(LoopPhase::AwaitEnable, LoopEvent::Toggled(true)) == (LoopPhase::Done, Some(LoopEffect::Say(Reply::EnabledLooping))),
        loop_next(LoopPhase::AwaitDisable, LoopEvent::Toggled(true)) == (LoopPhase::Done, Some(LoopEffect::Say(Reply::DisabledLooping))),
{
}

} // verus!
