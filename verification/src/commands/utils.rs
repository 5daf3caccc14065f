//! Utility commands: liveness checks and their help texts.
use vstd::prelude::*;

verus! {

/// Help text of the `ping` command.
pub fn ping_help() -> (text: String)
    ensures
        text@ == "send ping, get pong"@,
{
    String::from_str("send ping, get pong")
}

/// Help text of the `pong` command.
pub fn pong_help() -> (text: String)
    ensures
        text@ == "send pong, get ping"@,
{
    String::from_str("send pong, get ping")
}

/// What the bot answers to `ping`.
pub fn ping_reply() -> (text: String)
    ensures
        text@ == "pong!"@,
{
    String::from_str("pong!")
}

/// What the bot answers to `pong`.
pub fn pong_reply() -> (text: String)
    ensures
        text@ == "ping!"@,
{
    String::from_str("ping!")
}

/// The line below the list of commands that `help` shows.
pub fn help_footer() -> (text: String)
    ensures
        text@ == "Nooqie is a Discord bot with basic LLM functionality though the Ollama API"@,
{
    String::from_str("Nooqie is a Discord bot with basic LLM functionality though the Ollama API")
}

} // verus!
