use nooqie::commands::ollama;
use nooqie::commands::ollama::Exchange;
use nooqie::delivery;
use nooqie::delivery::{Action, DeliveryOutcome, EditOutcome, Event, Path, Presence, Stage};

fn text_of(length: usize) -> String {
    let mut text = String::new();
    for index in 0..length {
        text.push((b'a' + (index % 26) as u8) as char);
    }
    text
}

fn lengths(pieces: &[String]) -> Vec<usize> {
    pieces.iter().map(|piece| piece.chars().count()).collect()
}

#[test]
fn answer_of_exactly_the_limit_is_edited_in_place() {
    assert_eq!(delivery::path_for(&text_of(2000)), Path::EditInPlace);
    assert_eq!(delivery::path_for(&text_of(1999)), Path::EditInPlace);
    assert_eq!(delivery::path_for(""), Path::EditInPlace);
}

#[test]
fn answer_above_the_limit_is_chunked() {
    assert_eq!(delivery::path_for(&text_of(2001)), Path::Chunked);
    assert_eq!(delivery::path_for(&text_of(5000)), Path::Chunked);
}

#[test]
fn limit_counts_characters_not_bytes() {
    // 2000 characters of two bytes each.
    let text: String = std::iter::repeat('é').take(2000).collect();
    assert_eq!(text.len(), 4000);
    assert_eq!(delivery::path_for(&text), Path::EditInPlace);
}

#[test]
fn split_of_2001_characters_gives_three_pieces() {
    let text = text_of(2001);
    let pieces = delivery::split(&text);
    assert_eq!(lengths(&pieces), vec![1000, 1000, 1]);
    assert_eq!(pieces[0], text[0..1000]);
    assert_eq!(pieces[1], text[1000..2000]);
    assert_eq!(pieces[2], text[2000..2001]);
    assert_eq!(pieces.concat(), text);
}

#[test]
fn split_at_the_edges() {
    assert_eq!(delivery::split("").len(), 0);
    assert_eq!(lengths(&delivery::split("a")), vec![1]);
    assert_eq!(lengths(&delivery::split(&text_of(999))), vec![999]);
    assert_eq!(lengths(&delivery::split(&text_of(1000))), vec![1000]);
    assert_eq!(lengths(&delivery::split(&text_of(1001))), vec![1000, 1]);
    assert_eq!(lengths(&delivery::split(&text_of(3000))), vec![1000, 1000, 1000]);
}

#[test]
fn split_cuts_between_characters() {
    let text: String = std::iter::repeat('日').take(1500).collect();
    let pieces = delivery::split(&text);
    assert_eq!(lengths(&pieces), vec![1000, 500]);
    assert_eq!(pieces.concat(), text);
}

#[test]
fn invocation_with_a_prompt_starts_the_work() {
    let (stage, actions) = delivery::step(Stage::Start, Event::Invoked(Some(String::from("why?"))));
    assert_eq!(stage, Stage::Pending);
    assert_eq!(
        actions,
        vec![
            Action::SetPresence(Presence::Busy),
            Action::PostPlaceholder,
            Action::Query(String::from("why?")),
        ]
    );
}

#[test]
fn invocation_without_a_prompt_does_nothing() {
    let (stage, actions) = delivery::step(Stage::Start, Event::Invoked(None));
    assert_eq!(stage, Stage::Aborted);
    assert!(actions.is_empty());
    let (stage, actions) = delivery::step(Stage::Start, Event::Invoked(Some(String::new())));
    assert_eq!(stage, Stage::Aborted);
    assert!(actions.is_empty());
}

#[test]
fn short_answer_is_written_into_the_placeholder() {
    let answer = text_of(2000);
    let (stage, actions) = delivery::step(Stage::Pending, Event::Answered(answer.clone()));
    assert_eq!(stage, Stage::EditInPlace(answer.clone()));
    assert_eq!(actions, vec![Action::Edit(answer)]);
}

#[test]
fn long_answer_is_posted_in_pieces_in_order() {
    let answer = text_of(2001);
    let (stage, actions) = delivery::step(Stage::Pending, Event::Answered(answer.clone()));
    assert_eq!(stage, Stage::Chunked);
    assert_eq!(
        actions,
        vec![
            Action::Post(String::from(&answer[0..1000])),
            Action::Post(String::from(&answer[1000..2000])),
            Action::Post(String::from(&answer[2000..2001])),
        ]
    );
    let (stage, actions) = delivery::step(stage, Event::Posted);
    assert_eq!(stage, Stage::Done(DeliveryOutcome::Chunked));
    assert_eq!(actions, vec![Action::SetPresence(Presence::Idle)]);
}

#[test]
fn failed_prompt_client_ends_the_invocation_without_a_message() {
    let (stage, actions) = delivery::step(Stage::Pending, Event::Unanswered);
    assert_eq!(stage, Stage::Aborted);
    assert!(actions.is_empty());
}

#[test]
fn successful_edit_ends_the_invocation() {
    let stage = Stage::EditInPlace(String::from("answer"));
    let (stage, actions) = delivery::step(stage, Event::Edited(EditOutcome::Edited));
    assert_eq!(stage, Stage::Done(DeliveryOutcome::Edited));
    assert_eq!(actions, vec![Action::SetPresence(Presence::Idle)]);
}

#[test]
fn deleted_placeholder_has_the_answer_posted_anew() {
    let stage = Stage::EditInPlace(String::from("the full answer"));
    let (stage, actions) = delivery::step(stage, Event::Edited(EditOutcome::Missing));
    assert_eq!(stage, Stage::RepostFallback);
    assert_eq!(actions, vec![Action::Post(String::from("the full answer"))]);
    let (stage, actions) = delivery::step(stage, Event::Posted);
    assert_eq!(stage, Stage::Done(DeliveryOutcome::Reposted));
    assert_eq!(actions, vec![Action::SetPresence(Presence::Idle)]);
}

#[test]
fn other_edit_failure_ends_the_invocation() {
    let stage = Stage::EditInPlace(String::from("answer"));
    let (stage, actions) = delivery::step(stage, Event::Edited(EditOutcome::Failed));
    assert_eq!(stage, Stage::Done(DeliveryOutcome::Unchanged));
    assert_eq!(actions, vec![Action::SetPresence(Presence::Idle)]);
}

#[test]
fn unreachable_endpoint_delivers_the_fallback_sentence() {
    let (stage, actions) =
        delivery::step(Stage::Start, Event::Invoked(Some(String::from("anyone there?"))));
    assert_eq!(actions.len(), 3);
    let event = ollama::report(ollama::answer(Exchange::Unreachable));
    let (stage, actions) = delivery::step(stage, event);
    let fallback = String::from("I seem to have dropped my brain :brain:");
    assert_eq!(stage, Stage::EditInPlace(fallback.clone()));
    assert_eq!(actions, vec![Action::Edit(fallback)]);
    let (stage, actions) = delivery::step(stage, Event::Edited(EditOutcome::Edited));
    assert_eq!(stage, Stage::Done(DeliveryOutcome::Edited));
    assert_eq!(actions, vec![Action::SetPresence(Presence::Idle)]);
}

#[test]
fn malformed_reply_leaves_the_placeholder_as_it_is() {
    let event = ollama::report(ollama::answer(Exchange::Malformed(String::from("bad"))));
    let (stage, actions) = delivery::step(Stage::Pending, event);
    assert_eq!(stage, Stage::Aborted);
    assert!(actions.is_empty());
}

#[test]
fn events_out_of_place_change_nothing() {
    let (stage, actions) = delivery::step(Stage::Start, Event::Posted);
    assert_eq!(stage, Stage::Start);
    assert!(actions.is_empty());
    let (stage, actions) = delivery::step(Stage::Pending, Event::Edited(EditOutcome::Missing));
    assert_eq!(stage, Stage::Pending);
    assert!(actions.is_empty());
    let (stage, actions) =
        delivery::step(Stage::EditInPlace(String::from("a")), Event::Answered(String::from("b")));
    assert_eq!(stage, Stage::EditInPlace(String::from("a")));
    assert!(actions.is_empty());
    let (stage, actions) = delivery::step(Stage::Chunked, Event::Unanswered);
    assert_eq!(stage, Stage::Chunked);
    assert!(actions.is_empty());
    let (stage, actions) = delivery::step(Stage::RepostFallback, Event::Invoked(None));
    assert_eq!(stage, Stage::RepostFallback);
    assert!(actions.is_empty());
}

#[test]
fn finished_invocation_stays_finished() {
    for stage in [
        Stage::Done(DeliveryOutcome::Edited),
        Stage::Done(DeliveryOutcome::Chunked),
        Stage::Done(DeliveryOutcome::Reposted),
        Stage::Done(DeliveryOutcome::Unchanged),
        Stage::Aborted,
    ] {
        assert!(stage.is_over());
        let expected = format!("{:?}", stage);
        let (next, actions) = delivery::step(stage, Event::Answered(String::from("late")));
        assert_eq!(format!("{:?}", next), expected);
        assert!(actions.is_empty());
    }
    assert!(!Stage::Start.is_over());
    assert!(!Stage::Pending.is_over());
    assert!(!Stage::EditInPlace(String::new()).is_over());
    assert!(!Stage::Chunked.is_over());
    assert!(!Stage::RepostFallback.is_over());
}

#[test]
fn no_message_is_longer_than_the_limit() {
    for length in [0usize, 1, 1999, 2000, 2001, 2999, 3000, 3001, 7777] {
        let answer = text_of(length);
        let (_, actions) = delivery::step(Stage::Pending, Event::Answered(answer.clone()));
        let mut delivered = String::new();
        for action in actions {
            match action {
                Action::Edit(text) | Action::Post(text) => {
                    assert!(text.chars().count() <= delivery::MESSAGE_LIMIT);
                    delivered.push_str(&text);
                }
                other => panic!("unexpected: {:?}", other),
            }
        }
        assert_eq!(delivered, answer);
    }
}

#[test]
fn edit_outcome_by_the_reported_failure() {
    assert_eq!(delivery::edit_outcome(None), EditOutcome::Edited);
    assert_eq!(
        delivery::edit_outcome(Some(String::from("Unknown Message"))),
        EditOutcome::Missing
    );
    assert_eq!(
        delivery::edit_outcome(Some(String::from("Missing Permissions"))),
        EditOutcome::Failed
    );
    assert_eq!(delivery::edit_outcome(Some(String::from("unknown message"))), EditOutcome::Failed);
    assert_eq!(delivery::edit_outcome(Some(String::new())), EditOutcome::Failed);
}

#[test]
fn placeholder_and_presence_texts() {
    assert_eq!(delivery::placeholder(), "...");
    assert_eq!(Presence::Busy.activity(), "thinking...");
    assert_eq!(Presence::Idle.activity(), "");
    assert_eq!(delivery::MESSAGE_LIMIT, 2000);
    assert_eq!(delivery::CHUNK_SIZE, 1000);
}

#[test]
fn whole_invocation_with_a_short_answer() {
    let mut shown = Vec::new();
    let (stage, actions) = delivery::step(Stage::Start, Event::Invoked(Some(String::from("hi"))));
    shown.extend(actions);
    let (stage, actions) = delivery::step(stage, Event::Answered(String::from("hello")));
    shown.extend(actions);
    let (stage, actions) = delivery::step(stage, Event::Edited(EditOutcome::Edited));
    shown.extend(actions);
    assert!(stage.is_over());
    assert_eq!(
        shown,
        vec![
            Action::SetPresence(Presence::Busy),
            Action::PostPlaceholder,
            Action::Query(String::from("hi")),
            Action::Edit(String::from("hello")),
            Action::SetPresence(Presence::Idle),
        ]
    );
}
