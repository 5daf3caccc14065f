use nooqie::commands::voice;
use nooqie::commands::voice::{Call, GuildVoice, Refusal, Request, VoiceAction};

#[test]
fn voice_info_of_a_caller_in_a_channel() {
    let seen = GuildVoice { guild_id: 7, channel_id: Some(9) };
    assert_eq!(voice::get_voice_info(Some(seen)), Ok((7, 9)));
}

#[test]
fn voice_info_outside_a_guild() {
    assert_eq!(voice::get_voice_info(None), Err(String::from("user not in guild")));
}

#[test]
fn voice_info_outside_a_voice_channel() {
    let seen = GuildVoice { guild_id: 7, channel_id: None };
    assert_eq!(
        voice::get_voice_info(Some(seen)),
        Err(String::from("user not in voice channel, aborting"))
    );
}

#[test]
fn manager_or_its_notice() {
    assert_eq!(voice::get_manager(Some(5u8)), Ok(5u8));
    assert_eq!(
        voice::get_manager::<u8>(None),
        Err(String::from("Songbird Voice client placed in at initialisation."))
    );
}

#[test]
fn parse_count_reads_decimal_numbers() {
    assert_eq!(voice::parse_count("0"), Some(0));
    assert_eq!(voice::parse_count("7"), Some(7));
    assert_eq!(voice::parse_count("42"), Some(42));
    assert_eq!(voice::parse_count("+42"), Some(42));
    assert_eq!(voice::parse_count("007"), Some(7));
    assert_eq!(voice::parse_count(&usize::MAX.to_string()), Some(usize::MAX));
}

#[test]
fn parse_count_refuses_everything_else() {
    for text in ["", "+", "-", "-1", " 1", "1 ", "1_000", "1.5", "0x10", "ten", "１２", "++1", "1+"]
    {
        assert_eq!(voice::parse_count(text), None, "{:?}", text);
    }
    let too_large = format!("{}0", usize::MAX);
    assert_eq!(voice::parse_count(&too_large), None);
    let one_more = format!("{}", usize::MAX as u128 + 1);
    assert_eq!(voice::parse_count(&one_more), None);
    assert_eq!(voice::parse_count("99999999999999999999999999999999x"), None);
}

#[test]
fn parse_count_agrees_with_the_standard_parser() {
    let max = usize::MAX.to_string();
    let over = format!("{}", usize::MAX as u128 + 1);
    let texts = [
        "", "0", "1", "+1", "-1", "+", "-", "00", "+00012", "12a", "a12", " 12", "12 ", "1_0",
        "1e3", "+-1", "18446744073709551615", "18446744073709551616", "4294967295", "4294967296",
        "٣", "0000000000000000000000000000000000000001", max.as_str(), over.as_str(),
    ];
    for text in texts {
        assert_eq!(voice::parse_count(text), text.parse::<usize>().ok(), "{:?}", text);
    }
}

#[test]
fn loop_count_defaults_to_zero() {
    assert_eq!(voice::loop_count(None), Some(0));
    assert_eq!(voice::loop_count(Some(String::from("3"))), Some(3));
    assert_eq!(voice::loop_count(Some(String::from("three"))), None);
    assert_eq!(voice::loop_count(Some(String::new())), None);
}

#[test]
fn nothing_is_done_without_a_connection() {
    for request in [
        Request::Join,
        Request::Leave,
        Request::Play,
        Request::Skip,
        Request::Clear,
        Request::Pause,
        Request::Resume,
        Request::Loop(0),
        Request::Loop(2),
    ] {
        assert_eq!(voice::decide(request, None), Err(Refusal::NotConnected));
        let outside = Call { channel: None, has_track: true };
        assert_eq!(voice::decide(request, Some(outside)), Err(Refusal::NoChannel));
    }
}

#[test]
fn each_request_has_its_action() {
    let call = Some(Call { channel: Some(3), has_track: false });
    assert_eq!(voice::decide(Request::Join, call), Ok(VoiceAction::Watch));
    assert_eq!(voice::decide(Request::Leave, call), Ok(VoiceAction::Disconnect));
    assert_eq!(voice::decide(Request::Play, call), Ok(VoiceAction::Enqueue));
    assert_eq!(voice::decide(Request::Skip, call), Ok(VoiceAction::Skip));
    assert_eq!(voice::decide(Request::Clear, call), Ok(VoiceAction::Stop));
    assert_eq!(voice::decide(Request::Pause, call), Ok(VoiceAction::Pause));
    assert_eq!(voice::decide(Request::Resume, call), Ok(VoiceAction::Resume));
}

#[test]
fn loop_needs_a_track() {
    let silent = Some(Call { channel: Some(3), has_track: false });
    assert_eq!(voice::decide(Request::Loop(0), silent), Err(Refusal::NoTrack));
    assert_eq!(voice::decide(Request::Loop(4), silent), Err(Refusal::NoTrack));
    let playing = Some(Call { channel: Some(3), has_track: true });
    assert_eq!(voice::decide(Request::Loop(0), playing), Ok(VoiceAction::LoopForever));
    assert_eq!(voice::decide(Request::Loop(1), playing), Ok(VoiceAction::LoopTimes(1)));
    assert_eq!(voice::decide(Request::Loop(4), playing), Ok(VoiceAction::LoopTimes(4)));
}

#[test]
fn voice_help_texts() {
    assert_eq!(voice::join_help(), "joins current voice channel");
    assert_eq!(voice::leave_help(), "leaves current voice channel");
    assert_eq!(voice::play_help(), "plays audio track from YouTube link");
    assert_eq!(voice::skip_help(), "skips current audio track");
    assert_eq!(voice::clear_help(), "clears audio track queue");
    assert_eq!(voice::pause_help(), "pauses current audio track");
    assert_eq!(voice::resume_help(), "resumes current audio track");
    assert_eq!(voice::loop_help(), "loops current audio track");
    assert_eq!(voice::play_activity(), "Darude -Sandstorm");
}
