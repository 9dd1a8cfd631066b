use vstd::prelude::*;
use crate::guild::{users_in_channel, users_in_channel_spec, VoiceStateEntry};
use crate::voice::CallState;

verus! {

/// The bot's handler of gateway events.
#[derive(Debug)]
pub struct Handler {}

impl Handler {
    pub fn new() -> (r: Self)
        ensures
            r == (Handler {}),
    {
        Handler {}
    }
}

/// Where the check after a voice state update stands. After each update in a
/// guild, the bot leaves its call there unless a user who is not a bot is in
/// the call's channel.
#[derive(Debug)]
pub enum AutoLeave {
    /// Waits for the state of the guild's call.
    AwaitCall,
    /// Waits for the guild's voice states; the call is in `channel`.
    AwaitVoiceStates { channel: u64 },
    /// Waits to learn whether `candidates[next]` is a bot.
    Checking { candidates: Vec<u64>, next: usize },
    /// Waits for the removal of the call.
    AwaitRemove,
    /// Finished.
    Done,
}

/// The mathematical form of `AutoLeave`.
pub enum AutoLeaveView {
    AwaitCall,
    AwaitVoiceStates { channel: u64 },
    Checking { candidates: Seq<u64>, next: nat },
    AwaitRemove,
    Done,
}

impl View for AutoLeave {
    type V = AutoLeaveView;

    open spec fn view(&self) -> AutoLeaveView {
        match self {
            AutoLeave::AwaitCall => AutoLeaveView::AwaitCall,
            AutoLeave::AwaitVoiceStates { channel } => AutoLeaveView::AwaitVoiceStates { channel: *channel },
            AutoLeave::Checking { candidates, next } => AutoLeaveView::Checking {
                candidates: candidates@,
                next: *next as nat,
            },
            AutoLeave::AwaitRemove => AutoLeaveView::AwaitRemove,
            AutoLeave::Done => AutoLeaveView::Done,
        }
    }
}

/// What the outside world reports to the check.
pub enum AutoLeaveEvent {
    /// The state of the guild's call.
    Call(CallState),
    /// The guild's voice states.
    VoiceStates(Vec<VoiceStateEntry>),
    /// Whether the user asked for is a bot; none when fetching the user failed.
    UserFetched(Option<bool>),
    /// Whether removing the call succeeded.
    Removed(bool),
}

/// What the check asks the outside world to do.
#[derive(Debug, Clone, Copy, PartialEq, Eq, Structural)]
pub enum AutoLeaveEffect {
    QueryCall,
    ReadVoiceStates,
    FetchUser(u64),
    RemoveCall,
}

/// How the check begins for an update: without a guild there is nothing to
/// check; otherwise it asks for the guild's call.
pub open spec fn auto_leave_begin(guild: Option<u64>) -> (AutoLeaveView, Option<AutoLeaveEffect>) {
    match guild {
        None => (AutoLeaveView::Done, None),
        Some(_) => (AutoLeaveView::AwaitCall, Some(AutoLeaveEffect::QueryCall)),
    }
}

/// What follows once `candidates[next]` is known to be a bot: ask for the
/// next candidate, or leave when none is left.
pub open spec fn after_bot(candidates: Seq<u64>, next: nat) -> (AutoLeaveView, Option<AutoLeaveEffect>) {
    if next + 1 < candidates.len() {
        (
            AutoLeaveView::Checking { candidates, next: next + 1 },
            Some(AutoLeaveEffect::FetchUser(candidates[(next + 1) as int])),
        )
    } else {
        (AutoLeaveView::AwaitRemove, Some(AutoLeaveEffect::RemoveCall))
    }
}

/// One step of the check. Without a call there is nothing to leave; a call
/// connected to no channel is removed; otherwise every user in the call's
/// channel is fetched in turn: the first that is not a bot, or the first
/// failure to fetch, ends the check with the call kept, and the call is
/// removed once all of them are known to be bots. An event that does not fit
/// the phase changes nothing.
pub open spec fn auto_leave_next(s: AutoLeaveView, e: AutoLeaveEvent) -> (AutoLeaveView, Option<AutoLeaveEffect>) {
    match (s, e) {
        (AutoLeaveView::AwaitCall, AutoLeaveEvent::Call(c)) => match c {
            CallState::NoCall => (AutoLeaveView::Done, None),
            CallState::Disconnected => (AutoLeaveView::AwaitRemove, Some(AutoLeaveEffect::RemoveCall)),
            CallState::InChannel(ch) => (
                AutoLeaveView::AwaitVoiceStates { channel: ch },
                Some(AutoLeaveEffect::ReadVoiceStates),
            ),
        },
        (AutoLeaveView::AwaitVoiceStates { channel }, AutoLeaveEvent::VoiceStates(vs)) => {
            let c = users_in_channel_spec(vs@, channel);
            if c.len() == 0 {
                (AutoLeaveView::AwaitRemove, Some(AutoLeaveEffect::RemoveCall))
            } else {
                (
                    AutoLeaveView::Checking { candidates: c, next: 0 },
                    Some(AutoLeaveEffect::FetchUser(c[0])),
                )
            }
        },
        (AutoLeaveView::Checking { candidates, next }, AutoLeaveEvent::UserFetched(f)) => match f {
            Some(true) => after_bot(candidates, next),
            _ => (AutoLeaveView::Done, None),
        },
        (AutoLeaveView::AwaitRemove, AutoLeaveEvent::Removed(_)) => (AutoLeaveView::Done, None),
        _ => (s, None),
    }
}

/// Begins the check for a voice state update in `guild`; see
/// `auto_leave_begin`.
pub fn auto_leave_start(guild: Option<u64>) -> (r: (AutoLeave, Option<AutoLeaveEffect>))
    ensures
        (r.0@, r.1) == auto_leave_begin(guild),
{
    match guild {
        None => (AutoLeave::Done, None),
        Some(_) => (AutoLeave::AwaitCall, Some(AutoLeaveEffect::QueryCall)),
    }
}

/// Advances the check by one event; see `auto_leave_next`.
pub fn auto_leave_step(s: AutoLeave, e: AutoLeaveEvent) -> (r: (AutoLeave, Option<AutoLeaveEffect>))
    ensures
        (r.0@, r.1) == auto_leave_next(s@, e),
{
    match (s, e) {
        (AutoLeave::AwaitCall, AutoLeaveEvent::Call(c)) => match c {
            CallState::NoCall => (AutoLeave::Done, None),
            CallState::Disconnected => (AutoLeave::AwaitRemove, Some(AutoLeaveEffect::RemoveCall)),
            CallState::InChannel(ch) => (
                AutoLeave::AwaitVoiceStates { channel: ch },
                Some(AutoLeaveEffect::ReadVoiceStates),
            ),
        },
        (AutoLeave::AwaitVoiceStates { channel }, AutoLeaveEvent::VoiceStates(vs)) => {
            let c = users_in_channel(&vs, channel);
            if c.len() == 0 {
                (AutoLeave::AwaitRemove, Some(AutoLeaveEffect::RemoveCall))
            } else {
                let first = c[0];
                (AutoLeave::Checking { candidates: c, next: 0 }, Some(AutoLeaveEffect::FetchUser(first)))
            }
        },
        (AutoLeave::Checking { candidates, next }, AutoLeaveEvent::UserFetched(f)) => match f {
            Some(true) => {
                if candidates.len() > 0 && next < candidates.len() - 1 {
                    let user = candidates[next + 1];
                    (AutoLeave::Checking { candidates, next: next + 1 }, Some(AutoLeaveEffect::FetchUser(user)))
                } else {
                    (AutoLeave::AwaitRemove, Some(AutoLeaveEffect::RemoveCall))
                }
            },
            _ => (AutoLeave::Done, None),
        },
        (AutoLeave::AwaitRemove, AutoLeaveEvent::Removed(_)) => (AutoLeave::Done, None),
        (s, _) => (s, None),
    }
}

/// How the check opens: an update outside a guild asks for nothing; one in a
/// guild asks for the guild's call. Without a call there is nothing to do; a
/// call connected to no channel is removed at once; a call in channel `ch`
/// leads to reading the guild's voice states, to check the users in `ch`.
pub proof fn lemma_auto_leave_opening(guild: u64, ch: u64)
    ensures
        auto_leave_begin(None) == (AutoLeaveView::Done, None::<AutoLeaveEffect>),
        auto_leave_begin(Some(guild)) == (AutoLeaveView::AwaitCall, Some(AutoLeaveEffect::QueryCall)),
        auto_leave_next(AutoLeaveView::AwaitCall, AutoLeaveEvent::Call(CallState::NoCall)) == (
            AutoLeaveView::Done,
            None::<AutoLeaveEffect>,
        ),
        auto_leave_next(AutoLeaveView::AwaitCall, AutoLeaveEvent::Call(CallState::Disconnected)) == (
            AutoLeaveView::AwaitRemove,
            Some(AutoLeaveEffect::RemoveCall),
        ),
        auto_leave_next(AutoLeaveView::AwaitCall, AutoLeaveEvent::Call(CallState::InChannel(ch))) == (
            AutoLeaveView::AwaitVoiceStates { channel: ch },
            Some(AutoLeaveEffect::ReadVoiceStates),
        ),
{
}

/// The effect of a step as a sequence of at most one effect.
pub open spec fn effect_seq(e: Option<AutoLeaveEffect>) -> Seq<AutoLeaveEffect> {
    match e {
        Some(x) => seq![x],
        None => Seq::empty(),
    }
}

/// The check run through a series of events, first event first: the phase it
/// ends in, and everything it asked for on the way.
pub open spec fn auto_leave_run(s: AutoLeaveView, events: Seq<AutoLeaveEvent>) -> (AutoLeaveView, Seq<AutoLeaveEffect>)
    decreases events.len(),
{
    if events.len() == 0 {
        (s, Seq::empty())
    } else {
        let (next, first) = auto_leave_next(s, events[0]);
        let (last, rest) = auto_leave_run(next, events.drop_first());
        (last, effect_seq(first) + rest)
    }
}

/// The reports on fetched users, one per answer.
pub open spec fn fetch_reports(answers: Seq<Option<bool>>) -> Seq<AutoLeaveEvent> {
    answers.map_values(|a: Option<bool>| AutoLeaveEvent::UserFetched(a))
}

/// All of the first `n` answers say "bot".
pub open spec fn all_bots(answers: Seq<Option<bool>>, n: int) -> bool {
    answers.len() >= n && forall|k: int| 0 <= k < n ==> answers[k] == Some(true)
}

proof fn lemma_fetch_reports_drop_first(answers: Seq<Option<bool>>)
    requires
        answers.len() > 0,
    ensures
        fetch_reports(answers).drop_first() == fetch_reports(answers.drop_first()),
        fetch_reports(answers)[0] == AutoLeaveEvent::UserFetched(answers[0]),
{
    assert(fetch_reports(answers).drop_first() =~= fetch_reports(answers.drop_first()));
}

/// A finished check asks for nothing more.
pub proof fn lemma_auto_leave_done_is_final(events: Seq<AutoLeaveEvent>)
    ensures
        auto_leave_run(AutoLeaveView::Done, events).1 == Seq::<AutoLeaveEffect>::empty(),
    decreases events.len(),
{
    if events.len() > 0 {
        lemma_auto_leave_done_is_final(events.drop_first());
        assert(Seq::<AutoLeaveEffect>::empty() + Seq::<AutoLeaveEffect>::empty() =~= Seq::<AutoLeaveEffect>::empty());
    }
}

/// While the removal is pending, reports on users change nothing.
proof fn lemma_await_remove_ignores_reports(answers: Seq<Option<bool>>)
    ensures
        auto_leave_run(AutoLeaveView::AwaitRemove, fetch_reports(answers)).1 == Seq::<AutoLeaveEffect>::empty(),
    decreases answers.len(),
{
    if answers.len() > 0 {
        lemma_fetch_reports_drop_first(answers);
        lemma_await_remove_ignores_reports(answers.drop_first());
        assert(Seq::<AutoLeaveEffect>::empty() + Seq::<AutoLeaveEffect>::empty() =~= Seq::<AutoLeaveEffect>::empty());
    }
}

/// While users are checked, the call is removed exactly when every user left
/// to check is reported to be a bot.
pub proof fn lemma_checking_removes_iff_all_bots(candidates: Seq<u64>, next: nat, answers: Seq<Option<bool>>)
    requires
        next < candidates.len(),
    ensures
        auto_leave_run(AutoLeaveView::Checking { candidates, next }, fetch_reports(answers)).1.contains(
            AutoLeaveEffect::RemoveCall,
        ) <==> all_bots(answers, candidates.len() - next),
    decreases answers.len(),
{
    let s = AutoLeaveView::Checking { candidates, next };
    let effects = auto_leave_run(s, fetch_reports(answers)).1;
    if answers.len() == 0 {
        assert(!all_bots(answers, candidates.len() - next));
        assert(effects =~= Seq::<AutoLeaveEffect>::empty());
    } else {
        lemma_fetch_reports_drop_first(answers);
        let (n1, first) = auto_leave_next(s, AutoLeaveEvent::UserFetched(answers[0]));
        let rest = auto_leave_run(n1, fetch_reports(answers.drop_first())).1;
        assert(effects == effect_seq(first) + rest);
        if answers[0] != Some(true) {
            lemma_auto_leave_done_is_final(fetch_reports(answers.drop_first()));
            assert(effects =~= Seq::<AutoLeaveEffect>::empty());
            assert(!all_bots(answers, candidates.len() - next));
        } else if next + 1 < candidates.len() {
            lemma_checking_removes_iff_all_bots(candidates, next + 1, answers.drop_first());
            assert(first == Some(AutoLeaveEffect::FetchUser(candidates[(next + 1) as int])));
            assert(effects.contains(AutoLeaveEffect::RemoveCall) <==> rest.contains(AutoLeaveEffect::RemoveCall)) by {
                if rest.contains(AutoLeaveEffect::RemoveCall) {
                    let j = choose|j: int| 0 <= j < rest.len() && rest[j] == AutoLeaveEffect::RemoveCall;
                    assert(effects[j + 1] == rest[j]);
                }
                if effects.contains(AutoLeaveEffect::RemoveCall) {
                    let j = choose|j: int| 0 <= j < effects.len() && effects[j] == AutoLeaveEffect::RemoveCall;
                    assert(j != 0);
                    assert(rest[j - 1] == effects[j]);
                }
            }
            let m = candidates.len() - next;
            assert(all_bots(answers, m) <==> all_bots(answers.drop_first(), m - 1)) by {
                if all_bots(answers.drop_first(), m - 1) {
                    assert forall|k: int| 0 <= k < m implies answers[k] == Some(true) by {
                        if k > 0 {
                            assert(answers[k] == answers.drop_first()[k - 1]);
                        }
                    }
                }
                if all_bots(answers, m) {
                    assert forall|k: int| 0 <= k < m - 1 implies answers.drop_first()[k] == Some(true) by {
                        assert(answers.drop_first()[k] == answers[k + 1]);
                    }
                }
            }
        } else {
            assert(first == Some(AutoLeaveEffect::RemoveCall));
            assert(effects[0] == AutoLeaveEffect::RemoveCall);
            assert(all_bots(answers, candidates.len() - next));
        }
    }
}

/// Asking for each of `users`, in order.
pub open spec fn fetches(users: Seq<u64>) -> Seq<AutoLeaveEffect> {
    users.map_values(|u: u64| AutoLeaveEffect::FetchUser(u))
}

/// While users are checked and each one fetched is reported to be a bot, the
/// check asks for each remaining user exactly once, in the order of the
/// channel: after `candidates[k]` comes `candidates[k + 1]`; and only once the
/// last one is reported a bot is the call removed.
pub proof fn lemma_checking_fetches_in_order(candidates: Seq<u64>, next: nat, answers: Seq<Option<bool>>)
    requires
        next < candidates.len(),
        forall|k: int| 0 <= k < answers.len() ==> answers[k] == Some(true),
    ensures
        auto_leave_run(AutoLeaveView::Checking { candidates, next }, fetch_reports(answers)).1 == (if answers.len()
            < candidates.len() - next {
            fetches(candidates.subrange(next + 1 as int, next + 1 + answers.len() as int))
        } else {
            fetches(candidates.subrange(next + 1 as int, candidates.len() as int)) + seq![AutoLeaveEffect::RemoveCall]
        }),
    decreases answers.len(),
{
    let s = AutoLeaveView::Checking { candidates, next };
    let effects = auto_leave_run(s, fetch_reports(answers)).1;
    if answers.len() == 0 {
        assert(effects =~= Seq::<AutoLeaveEffect>::empty());
        assert(fetches(candidates.subrange(next + 1 as int, next + 1 as int)) =~= Seq::<AutoLeaveEffect>::empty());
    } else {
        lemma_fetch_reports_drop_first(answers);
        let tail = answers.drop_first();
        assert forall|k: int| 0 <= k < tail.len() implies tail[k] == Some(true) by {
            assert(tail[k] == answers[k + 1]);
        }
        let (n1, first) = auto_leave_next(s, AutoLeaveEvent::UserFetched(answers[0]));
        let rest = auto_leave_run(n1, fetch_reports(tail)).1;
        assert(effects == effect_seq(first) + rest);
        if next + 1 < candidates.len() {
            lemma_checking_fetches_in_order(candidates, next + 1, tail);
            assert(first == Some(AutoLeaveEffect::FetchUser(candidates[next + 1 as int])));
            if answers.len() < candidates.len() - next {
                assert(effects =~= fetches(candidates.subrange(next + 1 as int, next + 1 + answers.len() as int)));
            } else {
                assert(effects =~= fetches(candidates.subrange(next + 1 as int, candidates.len() as int)) + seq![
                    AutoLeaveEffect::RemoveCall,
                ]);
            }
        } else {
            lemma_await_remove_ignores_reports(tail);
            assert(first == Some(AutoLeaveEffect::RemoveCall));
            assert(fetches(candidates.subrange(next + 1 as int, candidates.len() as int)) =~= Seq::<AutoLeaveEffect>::empty());
            assert(effects =~= seq![AutoLeaveEffect::RemoveCall]);
            assert(effects =~= fetches(candidates.subrange(next + 1 as int, candidates.len() as int)) + seq![
                AutoLeaveEffect::RemoveCall,
            ]);
        }
    }
}

/// Once the guild's voice states are read, and while each user fetched is
/// reported to be a bot, the check asks for every user in the call's channel
/// exactly once, in order, and removes the call only after the last of them:
/// with fewer reports than users, it has asked for one user more than it has
/// reports; otherwise it has asked for all of them and then removed the call.
pub proof fn lemma_auto_leave_fetches_each_user_once(
    channel: u64,
    states: Vec<VoiceStateEntry>,
    answers: Seq<Option<bool>>,
)
    requires
        forall|k: int| 0 <= k < answers.len() ==> answers[k] == Some(true),
    ensures
        ({
            let users = users_in_channel_spec(states@, channel);
            let events = seq![AutoLeaveEvent::VoiceStates(states)] + fetch_reports(answers);
            auto_leave_run(AutoLeaveView::AwaitVoiceStates { channel }, events).1 == (if answers.len() < users.len() {
                fetches(users.take(answers.len() + 1 as int))
            } else {
                fetches(users) + seq![AutoLeaveEffect::RemoveCall]
            })
        }),
{
    let events = seq![AutoLeaveEvent::VoiceStates(states)] + fetch_reports(answers);
    let s = AutoLeaveView::AwaitVoiceStates { channel };
    let c = users_in_channel_spec(states@, channel);
    assert(events[0] == AutoLeaveEvent::VoiceStates(states));
    assert(events.drop_first() =~= fetch_reports(answers));
    let (n1, first) = auto_leave_next(s, events[0]);
    let rest = auto_leave_run(n1, fetch_reports(answers)).1;
    let effects = auto_leave_run(s, events).1;
    assert(effects == effect_seq(first) + rest);
    if c.len() == 0 {
        lemma_await_remove_ignores_reports(answers);
        assert(fetches(c) =~= Seq::<AutoLeaveEffect>::empty());
        assert(effects =~= fetches(c) + seq![AutoLeaveEffect::RemoveCall]);
    } else {
        lemma_checking_fetches_in_order(c, 0, answers);
        assert(first == Some(AutoLeaveEffect::FetchUser(c[0])));
        if answers.len() < c.len() {
            assert(effects =~= fetches(c.take(answers.len() + 1 as int)));
        } else {
            assert(effects =~= fetches(c) + seq![AutoLeaveEffect::RemoveCall]);
        }
    }
}

/// The bot leaves its call only when nobody but bots is in the call's
/// channel: once the guild's voice states are read, the call is removed
/// exactly when every user in the channel is reported to be a bot (at once,
/// when the channel is empty).
pub proof fn lemma_leaves_iff_only_bots(channel: u64, states: Vec<VoiceStateEntry>, answers: Seq<Option<bool>>)
    ensures
        ({
            let events = seq![AutoLeaveEvent::VoiceStates(states)] + fetch_reports(answers);
            auto_leave_run(AutoLeaveView::AwaitVoiceStates { channel }, events).1.contains(AutoLeaveEffect::RemoveCall)
                <==> all_bots(answers, users_in_channel_spec(states@, channel).len() as int)
        }),
{
    let events = seq![AutoLeaveEvent::VoiceStates(states)] + fetch_reports(answers);
    let s = AutoLeaveView::AwaitVoiceStates { channel };
    let c = users_in_channel_spec(states@, channel);
    assert(events[0] == AutoLeaveEvent::VoiceStates(states));
    assert(events.drop_first() =~= fetch_reports(answers));
    let (n1, first) = auto_leave_next(s, events[0]);
    let rest = auto_leave_run(n1, fetch_reports(answers)).1;
    let effects = auto_leave_run(s, events).1;
    assert(effects == effect_seq(first) + rest);
    if c.len() == 0 {
        assert(effects[0] == AutoLeaveEffect::RemoveCall);
        assert(all_bots(answers, 0));
    } else {
        lemma_checking_removes_iff_all_bots(c, 0, answers);
        assert(effects.contains(AutoLeaveEffect::RemoveCall) <==> rest.contains(AutoLeaveEffect::RemoveCall)) by {
            if rest.contains(AutoLeaveEffect::RemoveCall) {
                let j = choose|j: int| 0 <= j < rest.len() && rest[j] == AutoLeaveEffect::RemoveCall;
                assert(effects[j + 1] == rest[j]);
            }
            if effects.contains(AutoLeaveEffect::RemoveCall) {
                let j = choose|j: int| 0 <= j < effects.len() && effects[j] == AutoLeaveEffect::RemoveCall;
                assert(j != 0);
                assert(rest[j - 1] == effects[j]);
            }
        }
    }
}

} // verus!
