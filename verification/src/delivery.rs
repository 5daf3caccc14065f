//! Response delivery: how an answer of any length reaches the channel.
//!
//! A short answer replaces the placeholder message. A long one is cut into
//! pieces that are posted one after the other. The decisions are a state
//! machine: the program performs the actions it is given and reports what
//! happened as the next event.
use vstd::prelude::*;

verus! {

/// The largest number of characters that one message may hold.
pub const MESSAGE_LIMIT: usize = 2000;

/// The number of characters in each piece of a long answer, but for the last.
pub const CHUNK_SIZE: usize = 1000;

/// The number of pieces that a text of `length` characters is cut into.
pub open spec fn chunk_count(length: nat) -> nat {
    ((length + CHUNK_SIZE - 1) / (CHUNK_SIZE as int)) as nat
}

/// Piece `index` of a text: `CHUNK_SIZE` characters from where the piece
/// before it ended, or what is left of the text if that is less.
pub open spec fn chunk(text: Seq<char>, index: int) -> Seq<char> {
    let start = index * CHUNK_SIZE;
    let end = if start + CHUNK_SIZE < text.len() {
        start + CHUNK_SIZE
    } else {
        text.len() as int
    };
    text.subrange(start, end)
}

/// The pieces of a text, in the order in which they stand in it.
pub open spec fn chunks(text: Seq<char>) -> Seq<Seq<char>> {
    Seq::new(chunk_count(text.len()), |index: int| chunk(text, index))
}

/// Cuts a text into its pieces. The pieces are counted in characters, so no
/// character is ever cut in two.
pub fn split(text: &str) -> (pieces: Vec<String>)
    ensures
        pieces.deep_view() == chunks(text@),
{
    let length = text.unicode_len();
    let ascii = text.is_ascii();
    let mut pieces: Vec<String> = Vec::new();
    let mut start: usize = 0;
    while start < length
        invariant
            length == text@.len(),
            ascii ==> text.is_ascii(),
            start <= length,
            start < length ==> start == pieces.len() * CHUNK_SIZE,
            start == length ==> pieces.len() == chunk_count(length as nat),
            forall|index: int|
                0 <= index < pieces.len() ==> (#[trigger] pieces[index])@ == chunk(text@, index),
        decreases length - start,
    {
        let end = if length - start > CHUNK_SIZE {
            start + CHUNK_SIZE
        } else {
            length
        };
        let piece = if ascii {
            text.substring_ascii(start, end)
        } else {
            text.substring_char(start, end)
        };
        pieces.push(String::from_str(piece));
        start = end;
    }
    assert(pieces.deep_view() =~= chunks(text@));
    pieces
}

/// Cutting a text into pieces loses nothing and changes no order: the pieces,
/// set one after the other, are the text. Every piece holds at least one
/// character and at most `CHUNK_SIZE`, and every piece but the last holds
/// exactly `CHUNK_SIZE`.
pub proof fn lemma_chunks_partition(text: Seq<char>)
    ensures
        chunks(text).flatten() == text,
        chunks(text).len() == chunk_count(text.len()),
        forall|index: int|
            0 <= index < chunks(text).len() ==> 1 <= (#[trigger] chunks(text)[index]).len()
                <= CHUNK_SIZE,
        forall|index: int|
            0 <= index < chunks(text).len() - 1 ==> (#[trigger] chunks(text)[index]).len()
                == CHUNK_SIZE,
    decreases text.len(),
{
    let pieces = chunks(text);
    if text.len() == 0 {
        assert(pieces =~= Seq::<Seq<char>>::empty());
    } else {
        let first = chunk(text, 0);
        let rest = text.skip(first.len() as int);
        assert(pieces[0] == first);
        assert(pieces.drop_first() =~= chunks(rest)) by {
            assert(pieces.drop_first().len() == chunks(rest).len());
            assert forall|index: int| 0 <= index < chunks(rest).len() implies pieces.drop_first()[index]
                == chunks(rest)[index] by {
                assert(pieces.drop_first()[index] == chunk(text, index + 1));
                assert(chunk(text, index + 1) =~= chunk(rest, index));
            }
        }
        lemma_chunks_partition(rest);
        assert(first + rest =~= text);
    }
}

/// The way an answer takes to the channel.
#[derive(Debug, Clone, Copy, PartialEq, Eq)]
pub enum Path {
    /// The answer fits into one message and replaces the placeholder.
    EditInPlace,
    /// The answer is too long for one message and is posted in pieces.
    Chunked,
}

/// The way that an answer of `length` characters takes: in place up to and
/// including `MESSAGE_LIMIT` characters, in pieces above.
pub open spec fn path_of(length: nat) -> Path {
    if length <= MESSAGE_LIMIT {
        Path::EditInPlace
    } else {
        Path::Chunked
    }
}

/// Measures an answer against the limit of one message.
pub fn path_for(answer: &str) -> (path: Path)
    ensures
        path == path_of(answer@.len()),
{
    if answer.unicode_len() <= MESSAGE_LIMIT {
        Path::EditInPlace
    } else {
        Path::Chunked
    }
}

/// How an invocation that ran to its end has left the channel.
#[derive(Debug, Clone, Copy, PartialEq, Eq)]
pub enum DeliveryOutcome {
    /// The placeholder shows the answer.
    Edited,
    /// The answer stands in new messages, piece by piece; the placeholder is as it was.
    Chunked,
    /// The answer stands in one new message; the placeholder was gone.
    Reposted,
    /// The edit failed and the placeholder is as it was.
    Unchanged,
}

/// What the bot shows of itself while an invocation runs and after it.
#[derive(Debug, Clone, Copy, PartialEq, Eq)]
pub enum Presence {
    /// Working on an answer.
    Busy,
    /// Not working on anything.
    Idle,
}

/// How the attempt to edit the placeholder message ended.
#[derive(Debug, Clone, Copy, PartialEq, Eq)]
pub enum EditOutcome {
    /// The placeholder now shows the answer.
    Edited,
    /// The placeholder is gone: someone deleted it in the meantime.
    Missing,
    /// The edit failed for another reason, such as a rate limit or a missing permission.
    Failed,
}

impl Presence {
    /// The activity text that goes with the presence.
    pub fn activity(&self) -> (text: String)
        ensures
            text@ == match *self {
                Presence::Busy => "thinking..."@,
                Presence::Idle => ""@,
            },
    {
        match self {
            Presence::Busy => String::from_str("thinking..."),
            Presence::Idle => String::from_str(""),
        }
    }
}

/// The content of the placeholder message.
pub fn placeholder() -> (text: String)
    ensures
        text@ == "..."@,
{
    String::from_str("...")
}

/// What the platform says of a message that does not exist any more.
pub open spec fn missing_notice() -> Seq<char> {
    "Unknown Message"@
}

/// The outcome of an edit, by the failure that the platform reported, if any.
pub open spec fn outcome_of(failure: Option<Seq<char>>) -> EditOutcome {
    match failure {
        None => EditOutcome::Edited,
        Some(notice) => if notice == missing_notice() {
            EditOutcome::Missing
        } else {
            EditOutcome::Failed
        },
    }
}

/// Tells a placeholder that is gone from every other failure of an edit.
pub fn edit_outcome(failure: Option<String>) -> (outcome: EditOutcome)
    ensures
        outcome == outcome_of(
            match failure {
                Some(notice) => Some(notice@),
                None => None,
            },
        ),
{
    match failure {
        None => EditOutcome::Edited,
        Some(notice) => {
            if notice == String::from_str("Unknown Message") {
                EditOutcome::Missing
            } else {
                EditOutcome::Failed
            }
        },
    }
}

/// Something for the program to do on the chat platform or at the endpoint.
#[derive(Debug, PartialEq, Eq)]
pub enum Action {
    /// Show the given presence.
    SetPresence(Presence),
    /// Post the placeholder message and remember it.
    PostPlaceholder,
    /// Send the prompt to the inference endpoint.
    Query(String),
    /// Replace the content of the placeholder message with the text.
    Edit(String),
    /// Post the text as a new message in the channel.
    Post(String),
}

/// An `Action` as a plain value.
pub enum ActionView {
    SetPresence(Presence),
    PostPlaceholder,
    Query(Seq<char>),
    Edit(Seq<char>),
    Post(Seq<char>),
}

impl View for Action {
    type V = ActionView;

    open spec fn view(&self) -> ActionView {
        match *self {
            Action::SetPresence(presence) => ActionView::SetPresence(presence),
            Action::PostPlaceholder => ActionView::PostPlaceholder,
            Action::Query(prompt) => ActionView::Query(prompt@),
            Action::Edit(text) => ActionView::Edit(text@),
            Action::Post(text) => ActionView::Post(text@),
        }
    }
}

impl DeepView for Action {
    type V = ActionView;

    open spec fn deep_view(&self) -> ActionView {
        self@
    }
}

/// What the program reports back to the state machine.
#[derive(Debug, PartialEq, Eq)]
pub enum Event {
    /// The command was invoked, with the prompt if one was given.
    Invoked(Option<String>),
    /// The prompt client handed on an answer.
    Answered(String),
    /// The prompt client failed: there is no answer.
    Unanswered,
    /// The attempt to edit the placeholder has ended.
    Edited(EditOutcome),
    /// Every message that was to be posted has been sent, in order.
    Posted,
}

/// An `Event` as a plain value.
pub enum EventView {
    Invoked(Option<Seq<char>>),
    Answered(Seq<char>),
    Unanswered,
    Edited(EditOutcome),
    Posted,
}

impl View for Event {
    type V = EventView;

    open spec fn view(&self) -> EventView {
        match *self {
            Event::Invoked(Some(prompt)) => EventView::Invoked(Some(prompt@)),
            Event::Invoked(None) => EventView::Invoked(None),
            Event::Answered(answer) => EventView::Answered(answer@),
            Event::Unanswered => EventView::Unanswered,
            Event::Edited(outcome) => EventView::Edited(outcome),
            Event::Posted => EventView::Posted,
        }
    }
}

/// Where an invocation stands.
#[derive(Debug, PartialEq, Eq)]
pub enum Stage {
    /// Nothing has happened yet.
    Start,
    /// The placeholder is posted and the prompt is with the endpoint.
    Pending,
    /// The answer, which fits into one message, is being written into the placeholder.
    EditInPlace(String),
    /// The answer is being posted in pieces; the placeholder stays as it is.
    Chunked,
    /// The placeholder was gone, and the answer is being posted as a new message.
    RepostFallback,
    /// The invocation is over and the presence is idle again.
    Done(DeliveryOutcome),
    /// The invocation ended without an answer: no prompt was given, or the
    /// prompt client failed. Nothing more is posted.
    Aborted,
}

/// A `Stage` as a plain value.
pub enum StageView {
    Start,
    Pending,
    EditInPlace(Seq<char>),
    Chunked,
    RepostFallback,
    Done(DeliveryOutcome),
    Aborted,
}

impl View for Stage {
    type V = StageView;

    open spec fn view(&self) -> StageView {
        match *self {
            Stage::Start => StageView::Start,
            Stage::Pending => StageView::Pending,
            Stage::EditInPlace(answer) => StageView::EditInPlace(answer@),
            Stage::Chunked => StageView::Chunked,
            Stage::RepostFallback => StageView::RepostFallback,
            Stage::Done(outcome) => StageView::Done(outcome),
            Stage::Aborted => StageView::Aborted,
        }
    }
}

/// The messages that carry a long answer: one for each piece, in order.
pub open spec fn posts_of(answer: Seq<char>) -> Seq<ActionView> {
    chunks(answer).map_values(|piece: Seq<char>| ActionView::Post(piece))
}

/// What ends an invocation that has delivered what it could: the presence goes back to idle.
pub open spec fn finish(outcome: DeliveryOutcome) -> (StageView, Seq<ActionView>) {
    (StageView::Done(outcome), seq![ActionView::SetPresence(Presence::Idle)])
}

/// The stage that follows `stage` on `event`, and what the program is to do
/// on the way, in this order.
///
/// - At the start, an invocation with a prompt of at least one character sets
///   the presence to busy, posts the placeholder and sends the prompt. Without
///   such a prompt the invocation is over and nothing is done.
/// - While pending, an answer of at most `MESSAGE_LIMIT` characters is written
///   into the placeholder; a longer one is posted in pieces. Without an
///   answer the invocation is over and nothing more is done.
/// - After the edit, a placeholder that was gone has the answer posted as a
///   new message. Any other end of the edit ends the invocation.
/// - After the posts the invocation ends.
/// - An event that the stage does not wait for changes nothing.
pub open spec fn transition(stage: StageView, event: EventView) -> (StageView, Seq<ActionView>) {
    match stage {
        StageView::Start => match event {
            EventView::Invoked(Some(prompt)) => if prompt.len() > 0 {
                (
                    StageView::Pending,
                    seq![
                        ActionView::SetPresence(Presence::Busy),
                        ActionView::PostPlaceholder,
                        ActionView::Query(prompt),
                    ],
                )
            } else {
                (StageView::Aborted, Seq::empty())
            },
            EventView::Invoked(None) => (StageView::Aborted, Seq::empty()),
            _ => (stage, Seq::empty()),
        },
        StageView::Pending => match event {
            EventView::Answered(answer) => match path_of(answer.len()) {
                Path::EditInPlace => (StageView::EditInPlace(answer), seq![ActionView::Edit(answer)]),
                Path::Chunked => (StageView::Chunked, posts_of(answer)),
            },
            EventView::Unanswered => (StageView::Aborted, Seq::empty()),
            _ => (stage, Seq::empty()),
        },
        StageView::EditInPlace(answer) => match event {
            EventView::Edited(EditOutcome::Missing) => (
                StageView::RepostFallback,
                seq![ActionView::Post(answer)],
            ),
            EventView::Edited(EditOutcome::Edited) => finish(DeliveryOutcome::Edited),
            EventView::Edited(EditOutcome::Failed) => finish(DeliveryOutcome::Unchanged),
            _ => (stage, Seq::empty()),
        },
        StageView::Chunked => match event {
            EventView::Posted => finish(DeliveryOutcome::Chunked),
            _ => (stage, Seq::empty()),
        },
        StageView::RepostFallback => match event {
            EventView::Posted => finish(DeliveryOutcome::Reposted),
            _ => (stage, Seq::empty()),
        },
        StageView::Done(_) => (stage, Seq::empty()),
        StageView::Aborted => (stage, Seq::empty()),
    }
}

/// The messages that carry a long answer.
fn posts(answer: &str) -> (actions: Vec<Action>)
    ensures
        actions.deep_view() == posts_of(answer@),
{
    let pieces = split(answer);
    let mut actions: Vec<Action> = Vec::new();
    let mut index: usize = 0;
    while index < pieces.len()
        invariant
            index <= pieces.len(),
            actions.len() == index,
            pieces.deep_view() == chunks(answer@),
            forall|i: int| 0 <= i < index ==> (#[trigger] actions[i])@ == posts_of(answer@)[i],
        decreases pieces.len() - index,
    {
        let piece = pieces[index].clone();
        assert(piece@ == pieces.deep_view()[index as int]);
        actions.push(Action::Post(piece));
        index += 1;
    }
    assert(actions.deep_view() =~= posts_of(answer@));
    actions
}

/// The end of an invocation that has delivered what it could.
fn finished(outcome: DeliveryOutcome) -> (next: (Stage, Vec<Action>))
    ensures
        (next.0@, next.1.deep_view()) == finish(outcome),
{
    let actions = vec![Action::SetPresence(Presence::Idle)];
    assert(actions.deep_view() =~= finish(outcome).1);
    (Stage::Done(outcome), actions)
}

/// The given stage, with nothing to do.
fn at_rest(stage: Stage) -> (next: (Stage, Vec<Action>))
    ensures
        next.0 == stage,
        next.1.deep_view() == Seq::<ActionView>::empty(),
{
    let actions: Vec<Action> = Vec::new();
    assert(actions.deep_view() =~= Seq::<ActionView>::empty());
    (stage, actions)
}

/// Takes one step of an invocation: from the stage it stands at and the
/// event that the program reports, to the next stage and the actions that
/// the program is to perform, one after the other, before it reports again.
pub fn step(stage: Stage, event: Event) -> (next: (Stage, Vec<Action>))
    ensures
        (next.0@, next.1.deep_view()) == transition(stage@, event@),
{
    match stage {
        Stage::Start => match event {
            Event::Invoked(Some(prompt)) => {
                if !prompt.as_str().is_empty() {
                    let ghost asked = prompt@;
                    let actions = vec![
                        Action::SetPresence(Presence::Busy),
                        Action::PostPlaceholder,
                        Action::Query(prompt),
                    ];
                    assert(actions.deep_view() =~= seq![
                        ActionView::SetPresence(Presence::Busy),
                        ActionView::PostPlaceholder,
                        ActionView::Query(asked),
                    ]);
                    (Stage::Pending, actions)
                } else {
                    at_rest(Stage::Aborted)
                }
            },
            Event::Invoked(None) => at_rest(Stage::Aborted),
            _ => at_rest(Stage::Start),
        },
        Stage::Pending => match event {
            Event::Answered(answer) => match path_for(answer.as_str()) {
                Path::EditInPlace => {
                    let actions = vec![Action::Edit(answer.clone())];
                    assert(actions.deep_view() =~= seq![ActionView::Edit(answer@)]);
                    (Stage::EditInPlace(answer), actions)
                },
                Path::Chunked => (Stage::Chunked, posts(answer.as_str())),
            },
            Event::Unanswered => at_rest(Stage::Aborted),
            _ => at_rest(Stage::Pending),
        },
        Stage::EditInPlace(answer) => match event {
            Event::Edited(EditOutcome::Missing) => {
                let ghost text = answer@;
                let actions = vec![Action::Post(answer)];
                assert(actions.deep_view() =~= seq![ActionView::Post(text)]);
                (Stage::RepostFallback, actions)
            },
            Event::Edited(EditOutcome::Edited) => finished(DeliveryOutcome::Edited),
            Event::Edited(EditOutcome::Failed) => finished(DeliveryOutcome::Unchanged),
            _ => at_rest(Stage::EditInPlace(answer)),
        },
        Stage::Chunked => match event {
            Event::Posted => finished(DeliveryOutcome::Chunked),
            _ => at_rest(Stage::Chunked),
        },
        Stage::RepostFallback => match event {
            Event::Posted => finished(DeliveryOutcome::Reposted),
            _ => at_rest(Stage::RepostFallback),
        },
        Stage::Done(outcome) => at_rest(Stage::Done(outcome)),
        Stage::Aborted => at_rest(Stage::Aborted),
    }
}

impl Stage {
    /// Whether the invocation is over: nothing that is reported changes the stage any more.
    pub fn is_over(&self) -> (over: bool)
        ensures
            over == (self@ is Done || self@ is Aborted),
    {
        match self {
            Stage::Done(_) => true,
            Stage::Aborted => true,
            _ => false,
        }
    }
}

/// A stage that can be reached: an answer that is being written into the
/// placeholder fits into one message.
pub open spec fn is_reachable(stage: StageView) -> bool {
    stage matches StageView::EditInPlace(answer) ==> answer.len() <= MESSAGE_LIMIT
}

/// The text that an action puts into the channel, if it puts one there.
pub open spec fn message_of(action: ActionView) -> Option<Seq<char>> {
    match action {
        ActionView::Edit(text) => Some(text),
        ActionView::Post(text) => Some(text),
        _ => None,
    }
}

/// The texts that a sequence of actions puts into the channel, one after the other.
pub open spec fn delivered(actions: Seq<ActionView>) -> Seq<char>
    decreases actions.len(),
{
    if actions.len() == 0 {
        Seq::empty()
    } else {
        let first = match message_of(actions[0]) {
            Some(text) => text,
            None => Seq::empty(),
        };
        first + delivered(actions.drop_first())
    }
}

/// An invocation that is over stays over: whatever is reported, the stage
/// stays and nothing is done.
pub proof fn lemma_over_is_final(stage: StageView, event: EventView)
    requires
        stage is Done || stage is Aborted,
    ensures
        transition(stage, event) == (stage, Seq::<ActionView>::empty()),
{
}

/// Whichever way an invocation takes to its end, the step that ends it sets
/// the presence back to idle, and does nothing else.
pub proof fn lemma_end_clears_presence(stage: StageView, event: EventView)
    requires
        !(stage is Done),
        transition(stage, event).0 is Done,
    ensures
        transition(stage, event).1 == seq![ActionView::SetPresence(Presence::Idle)],
{
}

/// No step asks for a message that the platform would refuse for its length:
/// from a stage that can be reached, every text to edit in or to post holds
/// at most `MESSAGE_LIMIT` characters, and the next stage can be reached too.
pub proof fn lemma_messages_fit(stage: StageView, event: EventView)
    requires
        is_reachable(stage),
    ensures
        is_reachable(transition(stage, event).0),
        forall|index: int|
            0 <= index < transition(stage, event).1.len() ==> (message_of(
                #[trigger] transition(stage, event).1[index],
            ) matches Some(text) ==> text.len() <= MESSAGE_LIMIT),
{
    let actions = transition(stage, event).1;
    assert forall|index: int| 0 <= index < actions.len() implies (message_of(
        #[trigger] actions[index],
    ) matches Some(text) ==> text.len() <= MESSAGE_LIMIT) by {
        if stage is Pending && event is Answered {
            let answer = event->Answered_0;
            if answer.len() > MESSAGE_LIMIT {
                lemma_chunks_partition(answer);
                assert(actions[index] == ActionView::Post(chunks(answer)[index]));
            }
        }
    }
}

/// The messages that carry a long answer hold the answer: set one after the
/// other in the order in which they are posted, their texts are the answer.
pub proof fn lemma_posts_carry_answer(answer: Seq<char>)
    ensures
        delivered(posts_of(answer)) == answer,
{
    lemma_chunks_partition(answer);
    lemma_delivered_posts(chunks(answer));
}

/// What a sequence of posts delivers is the texts posted, one after the other.
proof fn lemma_delivered_posts(pieces: Seq<Seq<char>>)
    ensures
        delivered(pieces.map_values(|piece: Seq<char>| ActionView::Post(piece)))
            == pieces.flatten(),
    decreases pieces.len(),
{
    let actions = pieces.map_values(|piece: Seq<char>| ActionView::Post(piece));
    if pieces.len() > 0 {
        lemma_delivered_posts(pieces.drop_first());
        assert(actions.drop_first() =~= pieces.drop_first().map_values(
            |piece: Seq<char>| ActionView::Post(piece),
        ));
    }
}

/// Whatever the answer, the step that takes it up delivers all of it and
/// nothing else: the texts of its actions, one after the other, are the answer.
pub proof fn lemma_answer_delivered_whole(answer: Seq<char>)
    ensures
        delivered(transition(StageView::Pending, EventView::Answered(answer)).1) == answer,
{
    if answer.len() <= MESSAGE_LIMIT {
        let actions = seq![ActionView::Edit(answer)];
        assert(actions.drop_first() =~= Seq::<ActionView>::empty());
        assert(delivered(actions.drop_first()) == Seq::<char>::empty());
        assert(answer + Seq::<char>::empty() =~= answer);
    } else {
        lemma_posts_carry_answer(answer);
    }
}

/// Where an invocation stands after a sequence of events, and everything
/// that the program was to do on the way, in order.
pub open spec fn run(stage: StageView, events: Seq<EventView>) -> (StageView, Seq<ActionView>)
    decreases events.len(),
{
    if events.len() == 0 {
        (stage, Seq::empty())
    } else {
        let first = transition(stage, events[0]);
        let rest = run(first.0, events.drop_first());
        (rest.0, first.1 + rest.1)
    }
}

/// Whatever is reported to an invocation, in whatever order, it never asks
/// for a message longer than `MESSAGE_LIMIT` characters.
pub proof fn lemma_run_messages_fit(stage: StageView, events: Seq<EventView>)
    requires
        is_reachable(stage),
    ensures
        is_reachable(run(stage, events).0),
        forall|index: int|
            0 <= index < run(stage, events).1.len() ==> (message_of(
                #[trigger] run(stage, events).1[index],
            ) matches Some(text) ==> text.len() <= MESSAGE_LIMIT),
    decreases events.len(),
{
    if events.len() > 0 {
        let first = transition(stage, events[0]);
        lemma_messages_fit(stage, events[0]);
        lemma_run_messages_fit(first.0, events.drop_first());
    }
}

/// Once an invocation is over, nothing that is reported makes it do anything.
pub proof fn lemma_run_over_is_final(stage: StageView, events: Seq<EventView>)
    requires
        stage is Done || stage is Aborted,
    ensures
        run(stage, events) == (stage, Seq::<ActionView>::empty()),
    decreases events.len(),
{
    if events.len() > 0 {
        lemma_over_is_final(stage, events[0]);
        lemma_run_over_is_final(stage, events.drop_first());
        assert(Seq::<ActionView>::empty() + Seq::<ActionView>::empty() =~= Seq::<
            ActionView,
        >::empty());
    }
}

/// An invocation that runs to its end leaves the presence idle: whichever
/// way it took, the last thing it asks for is to set the presence back.
pub proof fn lemma_run_ends_idle(stage: StageView, events: Seq<EventView>)
    requires
        !(stage is Done),
        run(stage, events).0 is Done,
    ensures
        run(stage, events).1.len() > 0,
        run(stage, events).1.last() == ActionView::SetPresence(Presence::Idle),
    decreases events.len(),
{
    let first = transition(stage, events[0]);
    let rest = run(first.0, events.drop_first());
    if first.0 is Done {
        lemma_end_clears_presence(stage, events[0]);
        lemma_run_over_is_final(first.0, events.drop_first());
        assert(first.1 + rest.1 =~= first.1);
    } else {
        lemma_run_ends_idle(first.0, events.drop_first());
        assert((first.1 + rest.1).last() == rest.1.last());
    }
}

} // verus!
