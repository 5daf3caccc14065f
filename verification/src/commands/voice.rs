//! Voice commands: what each of them does to the guild's voice connection,
//! decided from what the command sees of it.
use vstd::prelude::*;

verus! {

/// The key under which the program keeps its shared HTTP client.
pub struct HttpKey;

/// What a command sees of the guild it was called in: the guild and the
/// voice channel that the caller is in, if any.
#[derive(Debug, Clone, Copy, PartialEq, Eq)]
pub struct GuildVoice {
    pub guild_id: u64,
    pub channel_id: Option<u64>,
}

/// The notice for a command that was called outside a guild.
pub open spec fn no_guild_notice() -> Seq<char> {
    "user not in guild"@
}

/// The notice for a caller who is in no voice channel.
pub open spec fn no_channel_notice() -> Seq<char> {
    "user not in voice channel, aborting"@
}

/// The notice for a missing voice client.
pub open spec fn no_manager_notice() -> Seq<char> {
    "Songbird Voice client placed in at initialisation."@
}

/// Guild and voice channel of the caller, by what the command sees.
pub open spec fn voice_info_of(guild: Option<GuildVoice>) -> Result<(u64, u64), Seq<char>> {
    match guild {
        None => Err(no_guild_notice()),
        Some(seen) => match seen.channel_id {
            Some(channel_id) => Ok((seen.guild_id, channel_id)),
            None => Err(no_channel_notice()),
        },
    }
}

/// Finds the guild and the voice channel to act in. A command that was
/// called outside a guild, or by someone in no voice channel, gets the notice
/// that says so.
pub fn get_voice_info(guild: Option<GuildVoice>) -> (result: Result<(u64, u64), String>)
    ensures
        match voice_info_of(guild) {
            Ok(found) => result == Ok::<(u64, u64), String>(found),
            Err(notice) => result matches Err(given) && given@ == notice,
        },
{
    match guild {
        None => Err(String::from_str("user not in guild")),
        Some(seen) => match seen.channel_id {
            Some(channel_id) => Ok((seen.guild_id, channel_id)),
            None => Err(String::from_str("user not in voice channel, aborting")),
        },
    }
}

/// Hands on the voice client, or the notice that there is none.
pub fn get_manager<M>(manager: Option<M>) -> (result: Result<M, String>)
    ensures
        match manager {
            Some(found) => result == Ok::<M, String>(found),
            None => result matches Err(given) && given@ == no_manager_notice(),
        },
{
    match manager {
        Some(manager) => Ok(manager),
        None => Err(String::from_str("Songbird Voice client placed in at initialisation.")),
    }
}

/// Help text of the `join` command.
pub fn join_help() -> (text: String)
    ensures
        text@ == "joins current voice channel"@,
{
    String::from_str("joins current voice channel")
}

/// Help text of the `leave` command.
pub fn leave_help() -> (text: String)
    ensures
        text@ == "leaves current voice channel"@,
{
    String::from_str("leaves current voice channel")
}

/// Help text of the `play` command.
pub fn play_help() -> (text: String)
    ensures
        text@ == "plays audio track from YouTube link"@,
{
    String::from_str("plays audio track from YouTube link")
}

/// Help text of the `skip` command.
pub fn skip_help() -> (text: String)
    ensures
        text@ == "skips current audio track"@,
{
    String::from_str("skips current audio track")
}

/// Help text of the `clear` command.
pub fn clear_help() -> (text: String)
    ensures
        text@ == "clears audio track queue"@,
{
    String::from_str("clears audio track queue")
}

/// Help text of the `pause` command.
pub fn pause_help() -> (text: String)
    ensures
        text@ == "pauses current audio track"@,
{
    String::from_str("pauses current audio track")
}

/// Help text of the `resume` command.
pub fn resume_help() -> (text: String)
    ensures
        text@ == "resumes current audio track"@,
{
    String::from_str("resumes current audio track")
}

/// Help text of the `loop` command.
pub fn loop_help() -> (text: String)
    ensures
        text@ == "loops current audio track"@,
{
    String::from_str("loops current audio track")
}

/// Whether a character is a decimal digit.
pub open spec fn is_digit(c: char) -> bool {
    0x30 <= (c as u32) <= 0x39
}

/// The number that a decimal digit stands for.
pub open spec fn digit_of(c: char) -> nat {
    ((c as u32) - 0x30) as nat
}

/// Whether a text is made of decimal digits.
pub open spec fn all_digits(digits: Seq<char>) -> bool {
    forall|i: int| 0 <= i < digits.len() ==> is_digit(#[trigger] digits[i])
}

/// The number that a text of decimal digits stands for.
pub open spec fn decimal(digits: Seq<char>) -> nat
    decreases digits.len(),
{
    if digits.len() == 0 {
        0
    } else {
        decimal(digits.drop_last()) * 10 + digit_of(digits.last())
    }
}

/// A text without the plus sign that it may begin with.
pub open spec fn unsigned_part(text: Seq<char>) -> Seq<char> {
    if text.len() > 0 && text[0] == '+' {
        text.drop_first()
    } else {
        text
    }
}

/// The count that a text stands for: an optional plus sign, then one decimal
/// digit or more, with a value that a `usize` holds. `None` for anything else:
/// no digit, another character anywhere, a value too large.
pub open spec fn count_of(text: Seq<char>) -> Option<usize> {
    let digits = unsigned_part(text);
    if digits.len() > 0 && all_digits(digits) && decimal(digits) <= usize::MAX {
        Some(decimal(digits) as usize)
    } else {
        None
    }
}

/// The first digits of a number stand for no more than the number.
proof fn lemma_decimal_grows(digits: Seq<char>, shorter: int)
    requires
        0 <= shorter <= digits.len(),
    ensures
        decimal(digits.take(shorter)) <= decimal(digits),
    decreases digits.len() - shorter,
{
    if shorter == digits.len() {
        assert(digits.take(shorter) =~= digits);
    } else {
        lemma_decimal_grows(digits.drop_last(), shorter);
        assert(digits.drop_last().take(shorter) =~= digits.take(shorter));
    }
}

/// Reads a count.
pub fn parse_count(text: &str) -> (count: Option<usize>)
    ensures
        count == count_of(text@),
{
    let length = text.unicode_len();
    let first: usize = if length > 0 && text.get_char(0) == '+' {
        1
    } else {
        0
    };
    let ghost digits = unsigned_part(text@);
    assert(digits =~= text@.subrange(first as int, length as int));
    if first == length {
        return None;
    }
    let mut value: usize = 0;
    let mut index: usize = first;
    while index < length
        invariant
            first <= index <= length,
            length == text@.len(),
            digits == text@.subrange(first as int, length as int),
            digits == unsigned_part(text@),
            all_digits(digits.take(index - first)),
            value == decimal(digits.take(index - first)),
        decreases length - index,
    {
        let c = text.get_char(index);
        let ghost seen = digits.take(index - first + 1);
        assert(seen.drop_last() =~= digits.take(index - first));
        assert(seen.last() == c);
        if !('0' <= c && c <= '9') {
            assert(!is_digit(digits[index - first]));
            return None;
        }
        let digit: usize = (c as u32 - '0' as u32) as usize;
        assert(digit == digit_of(c));
        proof {
            lemma_decimal_grows(digits, index - first + 1);
        }
        let tenfold = match value.checked_mul(10) {
            Some(tenfold) => tenfold,
            None => {
                return None;
            },
        };
        value = match tenfold.checked_add(digit) {
            Some(sum) => sum,
            None => {
                return None;
            },
        };
        index += 1;
    }
    assert(digits.take(index - first) =~= digits);
    Some(value)
}

/// How often the current track is to be played again, by what the caller
/// wrote: nothing stands for zero, which means without end.
pub fn loop_count(amount: Option<String>) -> (count: Option<usize>)
    ensures
        count == match amount {
            Some(text) => count_of(text@),
            None => Some(0usize),
        },
{
    match amount {
        Some(text) => parse_count(text.as_str()),
        None => Some(0),
    }
}

/// What a command sees of the voice connection of its guild.
#[derive(Debug, Clone, Copy, PartialEq, Eq)]
pub struct Call {
    /// The voice channel that the connection is in, if it is in one.
    pub channel: Option<u64>,
    /// Whether a track is playing or paused.
    pub has_track: bool,
}

/// What a voice command asks for.
#[derive(Debug, Clone, Copy, PartialEq, Eq)]
pub enum Request {
    /// Watch a connection that was just made.
    Join,
    /// End the connection.
    Leave,
    /// Queue a track.
    Play,
    /// Go on to the next track.
    Skip,
    /// Stop and empty the queue.
    Clear,
    /// Halt the current track.
    Pause,
    /// Go on with the current track.
    Resume,
    /// Play the current track again, this many times; zero means without end.
    Loop(usize),
}

/// What is done to the voice connection.
#[derive(Debug, Clone, Copy, PartialEq, Eq)]
pub enum VoiceAction {
    /// Have track errors reported.
    Watch,
    /// Leave the voice channel.
    Disconnect,
    /// Put the track at the end of the queue and show that music plays.
    Enqueue,
    /// Go on to the next track.
    Skip,
    /// Stop and empty the queue.
    Stop,
    /// Halt the current track.
    Pause,
    /// Go on with the current track.
    Resume,
    /// Play the current track again without end.
    LoopForever,
    /// Play the current track again this many times.
    LoopTimes(usize),
}

/// Why nothing is done.
#[derive(Debug, Clone, Copy, PartialEq, Eq)]
pub enum Refusal {
    /// The guild has no voice connection.
    NotConnected,
    /// The connection is in no voice channel.
    NoChannel,
    /// There is no track to act on.
    NoTrack,
}

/// What a request does to a connection that is in a channel.
pub open spec fn action_of(request: Request, has_track: bool) -> Result<VoiceAction, Refusal> {
    match request {
        Request::Join => Ok(VoiceAction::Watch),
        Request::Leave => Ok(VoiceAction::Disconnect),
        Request::Play => Ok(VoiceAction::Enqueue),
        Request::Skip => Ok(VoiceAction::Skip),
        Request::Clear => Ok(VoiceAction::Stop),
        Request::Pause => Ok(VoiceAction::Pause),
        Request::Resume => Ok(VoiceAction::Resume),
        Request::Loop(times) => if !has_track {
            Err(Refusal::NoTrack)
        } else if times == 0 {
            Ok(VoiceAction::LoopForever)
        } else {
            Ok(VoiceAction::LoopTimes(times))
        },
    }
}

/// What is done on a request, by what the command sees of the connection.
/// Without a connection, or with one that is in no channel, nothing is done.
pub open spec fn decision(request: Request, call: Option<Call>) -> Result<VoiceAction, Refusal> {
    match call {
        None => Err(Refusal::NotConnected),
        Some(seen) => if seen.channel is None {
            Err(Refusal::NoChannel)
        } else {
            action_of(request, seen.has_track)
        },
    }
}

/// Decides what a voice command does.
pub fn decide(request: Request, call: Option<Call>) -> (result: Result<VoiceAction, Refusal>)
    ensures
        result == decision(request, call),
{
    let seen = match call {
        Some(seen) => seen,
        None => {
            return Err(Refusal::NotConnected);
        },
    };
    if seen.channel.is_none() {
        return Err(Refusal::NoChannel);
    }
    match request {
        Request::Join => Ok(VoiceAction::Watch),
        Request::Leave => Ok(VoiceAction::Disconnect),
        Request::Play => Ok(VoiceAction::Enqueue),
        Request::Skip => Ok(VoiceAction::Skip),
        Request::Clear => Ok(VoiceAction::Stop),
        Request::Pause => Ok(VoiceAction::Pause),
        Request::Resume => Ok(VoiceAction::Resume),
        Request::Loop(times) => {
            if !seen.has_track {
                Err(Refusal::NoTrack)
            } else if times == 0 {
                Ok(VoiceAction::LoopForever)
            } else {
                Ok(VoiceAction::LoopTimes(times))
            }
        },
    }
}

/// What the bot shows as its activity while music plays.
pub fn play_activity() -> (text: String)
    ensures
        text@ == "Darude -Sandstorm"@,
{
    String::from_str("Darude -Sandstorm")
}

} // verus!
