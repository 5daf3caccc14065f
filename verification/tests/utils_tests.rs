use nooqie::commands::utils;

#[test]
fn utility_help_texts() {
    assert_eq!(utils::ping_help(), "send ping, get pong");
    assert_eq!(utils::pong_help(), "send pong, get ping");
}

#[test]
fn utility_replies() {
    assert_eq!(utils::ping_reply(), "pong!");
    assert_eq!(utils::pong_reply(), "ping!");
    assert_eq!(
        utils::help_footer(),
        "Nooqie is a Discord bot with basic LLM functionality though the Ollama API"
    );
}

#[test]
fn shared_items_can_be_made() {
    let _data = nooqie::Data {};
    let _key = nooqie::commands::voice::HttpKey;
}
