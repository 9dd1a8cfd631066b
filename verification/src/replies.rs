use vstd::prelude::*;
use vstd::string::*;

verus! {

/// The fixed messages that the bot sends back to the channel of a command.
#[derive(Debug, Clone, Copy, PartialEq, Eq, Structural)]
pub enum Reply {
    /// Answer of `echo` and `ping`.
    Ping,
    /// The author of `play` or `split` has no voice channel.
    NotInVoiceChannel,
    /// The author of `join` has no voice channel.
    NotInChannel,
    /// `split` names no voice channel of the guild.
    NeedVoiceChannel,
    /// `play` is connected and now waits for the audio source.
    Searching,
    /// The new track was queued behind others.
    PlacedInQueue,
    /// The new track is the only one in the queue.
    Playing,
    /// `skip` or `loop` found no call of the bot.
    NotInCall,
    /// `loop` found an empty queue.
    NothingPlaying,
    /// `loop` switched looping on.
    EnabledLooping,
    /// `loop` switched looping off.
    DisabledLooping,
}

/// The text of each reply.
pub open spec fn reply_spec(r: Reply) -> Seq<char> {
    match r {
        Reply::Ping => "ping"@,
        Reply::NotInVoiceChannel => "you are not in a voice channel"@,
        Reply::NotInChannel => "you are not in a channel"@,
        Reply::NeedVoiceChannel => "you need to specify a voice channel to split to"@,
        Reply::Searching => "searching"@,
        Reply::PlacedInQueue => "placed in queue"@,
        Reply::Playing => "playing"@,
        Reply::NotInCall => "not in a call"@,
        Reply::NothingPlaying => "nothing playing"@,
        Reply::EnabledLooping => "enabled looping"@,
        Reply::DisabledLooping => "disabled looping"@,
    }
}

/// The message to send for a reply.
pub fn reply_text(r: Reply) -> (s: String)
    ensures
        s@ == reply_spec(r),
{
    match r {
        Reply::Ping => String::from_str("ping"),
        Reply::NotInVoiceChannel => String::from_str("you are not in a voice channel"),
        Reply::NotInChannel => String::from_str("you are not in a channel"),
        Reply::NeedVoiceChannel => String::from_str("you need to specify a voice channel to split to"),
        Reply::Searching => String::from_str("searching"),
        Reply::PlacedInQueue => String::from_str("placed in queue"),
        Reply::Playing => String::from_str("playing"),
        Reply::NotInCall => String::from_str("not in a call"),
        Reply::NothingPlaying => String::from_str("nothing playing"),
        Reply::EnabledLooping => String::from_str("enabled looping"),
        Reply::DisabledLooping => String::from_str("disabled looping"),
    }
}

} // verus!
