//! The prompt client: what is sent to the language model's endpoint and
//! what becomes of its reply.
use vstd::prelude::*;
use crate::json::{
    escaped, is_plain, is_printable, lemma_escaped_reads_back, lemma_escaped_stays_inside,
    lemma_rewritten_is_escaped, on_one_line, pass_count, pass_replacement, pass_target,
    read_literal, rewritten,
};
use crate::delivery::{ActionView, Event, EventView, StageView, transition};
use crate::pattern::{is_verbatim, literal_of, replace_all};

verus! {

/// Help text of the `llm` command.
pub fn llm_help() -> (text: String)
    ensures
        text@ == "queries offline local Ollama instance"@,
{
    String::from_str("queries offline local Ollama instance")
}

/// Escapes a text for embedding between the quotation marks of a JSON string.
///
/// Four passes rewrite the whole text one after the other: linefeed to space,
/// then reverse solidus, solidus and quotation mark each to itself behind a
/// reverse solidus. The order matters: the reverse solidus is rewritten before
/// any pass has put one in. The result is the text escaped character by
/// character. The patterns of the passes are fixed and always compile, so
/// `PromptError::Escape`, which stands for a pattern that does not, never
/// comes back.
pub fn json_strip_escape(string: &str) -> (result: Result<String, PromptError>)
    ensures
        result is Ok,
        result->Ok_0@ == escaped(string@),
{
    let expressions: Vec<(&str, &str)> = vec![
        (r#"\n"#, r#" "#),  // linefeed
        (r#"\\"#, r#"\\"#),  // reverse solidus
        (r#"/"#, r#"\/"#),  // solidus
        (r#"""#, r#"\""#),  // quotation mark
    ];
    proof {
        reveal_strlit(r#"\n"#);
        reveal_strlit(r#" "#);
        reveal_strlit(r#"\\"#);
        reveal_strlit(r#"/"#);
        reveal_strlit(r#"\/"#);
        reveal_strlit(r#"""#);
        reveal_strlit(r#"\""#);
        assert(expressions[0].1@ =~= pass_replacement(0));
        assert(expressions[1].1@ =~= pass_replacement(1));
        assert(expressions[2].1@ =~= pass_replacement(2));
        assert(expressions[3].1@ =~= pass_replacement(3));
    }
    let mut text = String::from_str(string);
    let mut index: usize = 0;
    while index < expressions.len()
        invariant
            index <= expressions.len() == pass_count(),
            forall|i: int|
                0 <= i < expressions.len() ==> literal_of((#[trigger] expressions[i]).0@) == Some(
                    pass_target(i),
                ) && expressions[i].1@ == pass_replacement(i),
            text@ == rewritten(string@, index as nat),
        decreases expressions.len() - index,
    {
        let (pattern, replacement) = expressions[index];
        assert(is_verbatim(replacement@));
        match replace_all(pattern, text.as_str(), replacement) {
            Ok(next) => {
                text = next;
            },
            Err(_) => {
                return Err(PromptError::Escape);
            },
        }
        index += 1;
    }
    proof {
        lemma_rewritten_is_escaped(string@);
    }
    Ok(text)
}

/// The text before the model identifier in a request body.
pub open spec fn body_opening() -> Seq<char> {
    r#"{"model": ""#@
}

/// The text between the model identifier and the prompt in a request body.
pub open spec fn body_middle() -> Seq<char> {
    r#"", "prompt": ""#@
}

/// The text between the prompt and the streaming flag in a request body.
pub open spec fn body_flag() -> Seq<char> {
    r#"", "stream": "#@
}

/// How a streaming flag is written.
pub open spec fn flag_text(flag: bool) -> Seq<char> {
    if flag {
        "true"@
    } else {
        "false"@
    }
}

/// The text after the streaming flag in a request body.
pub open spec fn body_closing() -> Seq<char> {
    " }"@
}

/// The request body for a model identifier and a prompt: a JSON object with
/// the members `model`, `prompt` and `stream`, the two texts escaped.
pub open spec fn request_text(model: Seq<char>, prompt: Seq<char>, stream: bool) -> Seq<char> {
    body_opening() + escaped(model) + body_middle() + escaped(prompt) + body_flag() + flag_text(
        stream,
    ) + body_closing()
}

/// Whether `text` begins with `start`.
pub open spec fn starts_with(text: Seq<char>, start: Seq<char>) -> bool {
    start.len() <= text.len() && text.take(start.len() as int) == start
}

/// What the endpoint reads in a request body: the model identifier, the prompt
/// and the streaming flag. `None` where the body is not of the form that
/// requests have.
pub open spec fn read_request(body: Seq<char>) -> Option<(Seq<char>, Seq<char>, bool)> {
    let to_prompt = body_middle().drop_first();
    let to_flag = body_flag().drop_first();
    if !starts_with(body, body_opening()) {
        None
    } else {
        match read_literal(body.skip(body_opening().len() as int)) {
            None => None,
            Some((model, after_model)) => if !starts_with(after_model, to_prompt) {
                None
            } else {
                match read_literal(after_model.skip(to_prompt.len() as int)) {
                    None => None,
                    Some((prompt, after_prompt)) => if after_prompt == to_flag + flag_text(true)
                        + body_closing() {
                        Some((model, prompt, true))
                    } else if after_prompt == to_flag + flag_text(false) + body_closing() {
                        Some((model, prompt, false))
                    } else {
                        None
                    },
                }
            },
        }
    }
}

/// The endpoint reads in a request body what was put in: the model identifier
/// and the prompt, each on one line, and the streaming flag. This holds for
/// every model identifier and prompt whose only control characters are
/// linefeeds, whatever they hold of quotation marks and solidi: no text can
/// end its string early or add a member to the request.
pub proof fn lemma_request_reads_back(model: Seq<char>, prompt: Seq<char>, stream: bool)
    requires
        is_plain(model),
        is_plain(prompt),
    ensures
        read_request(request_text(model, prompt, stream)) == Some(
            (on_one_line(model), on_one_line(prompt), stream),
        ),
{
    reveal_strlit(r#"{"model": ""#);
    reveal_strlit(r#"", "prompt": ""#);
    reveal_strlit(r#"", "stream": "#);
    reveal_strlit("true");
    reveal_strlit("false");
    reveal_strlit(" }");
    let body = request_text(model, prompt, stream);
    let quote = seq!['"'];
    let to_prompt = body_middle().drop_first();
    let to_flag = body_flag().drop_first();
    let tail = to_flag + flag_text(stream) + body_closing();
    let after_model = to_prompt + escaped(prompt) + quote + tail;
    assert(body_middle() =~= quote + to_prompt);
    assert(body_flag() =~= quote + to_flag);
    assert(body =~= body_opening() + (escaped(model) + quote + after_model));
    assert(starts_with(body, body_opening())) by {
        assert(body.take(body_opening().len() as int) =~= body_opening());
    }
    let from_model = body.skip(body_opening().len() as int);
    assert(from_model =~= escaped(model) + quote + after_model);
    lemma_escaped_stays_inside(model, after_model);
    lemma_escaped_reads_back(model);
    let model_end = escaped(model).len() as int;
    assert(from_model.take(model_end) =~= escaped(model));
    assert(from_model.skip(model_end + 1) =~= after_model);
    assert(read_literal(from_model) == Some((on_one_line(model), after_model)));
    assert(starts_with(after_model, to_prompt)) by {
        assert(after_model.take(to_prompt.len() as int) =~= to_prompt);
    }
    let from_prompt = after_model.skip(to_prompt.len() as int);
    assert(from_prompt =~= escaped(prompt) + quote + tail);
    lemma_escaped_stays_inside(prompt, tail);
    lemma_escaped_reads_back(prompt);
    let prompt_end = escaped(prompt).len() as int;
    assert(from_prompt.take(prompt_end) =~= escaped(prompt));
    assert(from_prompt.skip(prompt_end + 1) =~= tail);
    assert(read_literal(from_prompt) == Some((on_one_line(prompt), tail)));
    if !stream {
        let other = to_flag + flag_text(true) + body_closing();
        assert(tail.len() != other.len());
    }
}

/// Escaping and embedding lose nothing of texts without control characters:
/// the endpoint reads in the request body exactly the model identifier and
/// the prompt that were given, whatever mix of reverse solidi, solidi and
/// quotation marks they hold.
pub proof fn lemma_request_round_trip(model: Seq<char>, prompt: Seq<char>, stream: bool)
    requires
        is_printable(model),
        is_printable(prompt),
    ensures
        read_request(request_text(model, prompt, stream)) == Some((model, prompt, stream)),
{
    lemma_request_reads_back(model, prompt, stream);
    assert(on_one_line(model) =~= model);
    assert(on_one_line(prompt) =~= prompt);
}

/// One request to the inference endpoint. Made anew for each invocation.
pub struct PromptRequest {
    /// The identifier of the model that is asked.
    pub model: String,
    /// The prompt as the user wrote it.
    pub prompt: String,
    /// Whether the endpoint may answer in pieces. Requests made by `new` never ask for that.
    pub stream: bool,
}

impl PromptRequest {
    /// A request for `prompt` to `model`, with streaming disabled.
    pub fn new(model: String, prompt: String) -> (request: PromptRequest)
        ensures
            request.model@ == model@,
            request.prompt@ == prompt@,
            !request.stream,
    {
        PromptRequest { model, prompt, stream: false }
    }

    /// The body to post to the endpoint: model identifier and prompt escaped
    /// and set between the quotation marks of the template.
    pub fn body(&self) -> (result: Result<String, PromptError>)
        ensures
            result is Ok,
            result->Ok_0@ == request_text(self.model@, self.prompt@, self.stream),
    {
        let model = match json_strip_escape(self.model.as_str()) {
            Ok(model) => model,
            Err(error) => {
                return Err(error);
            },
        };
        let prompt_fmt = match json_strip_escape(self.prompt.as_str()) {
            Ok(prompt) => prompt,
            Err(error) => {
                return Err(error);
            },
        };
        let mut body = String::from_str(r#"{"model": ""#);
        body.append(model.as_str());
        body.append(r#"", "prompt": ""#);
        body.append(prompt_fmt.as_str());
        body.append(r#"", "stream": "#);
        if self.stream {
            body.append("true");
        } else {
            body.append("false");
        }
        body.append(" }");
        Ok(body)
    }
}

/// The reply of the inference endpoint, field by field. Only `response` is
/// used; the other fields are what the endpoint sends along with it.
pub struct InferenceResponse {
    /// The model that answered.
    pub model: String,
    /// When the reply was made.
    pub created_at: String,
    /// The answer.
    pub response: String,
    /// Whether the answer is complete.
    pub done: bool,
    /// Why the model stopped.
    pub done_reason: String,
    /// The conversation so far, as the model encodes it.
    pub context: Vec<u64>,
    /// The counters and timings of the endpoint.
    pub total_duration: u64,
    pub load_duration: u64,
    pub prompt_eval_count: u64,
    pub prompt_eval_duration: u64,
    pub eval_count: u64,
    pub eval_duration: u64,
}

/// Why a prompt got no answer.
#[derive(Debug, PartialEq, Eq)]
pub enum PromptError {
    /// The prompt or the model identifier could not be escaped: a pattern of
    /// the escaping rules did not compile.
    Escape,
    /// The endpoint replied, but not with what a reply has to hold. The
    /// message says what was wrong with it.
    Decode(String),
}

/// What is said of a text that could not be escaped.
pub open spec fn escape_notice() -> Seq<char> {
    "escape pattern does not compile"@
}

impl PromptError {
    /// The failure in words, for the log.
    pub fn message(&self) -> (text: String)
        ensures
            text@ == match *self {
                PromptError::Escape => escape_notice(),
                PromptError::Decode(message) => message@,
            },
    {
        match self {
            PromptError::Escape => String::from_str("escape pattern does not compile"),
            PromptError::Decode(message) => message.clone(),
        }
    }
}

/// How the round trip to the inference endpoint ended.
pub enum Exchange {
    /// The endpoint could not be reached: refused, timed out, not found.
    Unreachable,
    /// The endpoint replied and the reply was decoded.
    Decoded(InferenceResponse),
    /// The endpoint replied with a body that does not decode; the message says why.
    Malformed(String),
}

/// The sentence shown in place of an answer when the endpoint cannot be reached.
pub open spec fn fallback_text() -> Seq<char> {
    "I seem to have dropped my brain :brain:"@
}

/// The sentence shown in place of an answer when the endpoint cannot be reached.
pub fn fallback_reply() -> (text: String)
    ensures
        text@ == fallback_text(),
{
    String::from_str("I seem to have dropped my brain :brain:")
}

/// What the prompt client hands on, by how the round trip ended.
pub open spec fn answer_of(exchange: Exchange) -> Result<Seq<char>, Seq<char>> {
    match exchange {
        Exchange::Unreachable => Ok(fallback_text()),
        Exchange::Decoded(reply) => Ok(reply.response@),
        Exchange::Malformed(message) => Err(message@),
    }
}

/// The answer to hand on after the round trip to the endpoint.
///
/// An unreachable endpoint is no failure: the answer is then the fallback
/// sentence. A decoded reply gives its response text. A reply that does not
/// decode is the one failure, and it is not turned into the fallback sentence.
pub fn answer(exchange: Exchange) -> (result: Result<String, PromptError>)
    ensures
        match answer_of(exchange) {
            Ok(text) => result matches Ok(given) && given@ == text,
            Err(message) => result matches Err(PromptError::Decode(given)) && given@ == message,
        },
{
    match exchange {
        Exchange::Unreachable => Ok(fallback_reply()),
        Exchange::Decoded(reply) => Ok(reply.response),
        Exchange::Malformed(message) => Err(PromptError::Decode(message)),
    }
}

/// What to report to the delivery of an invocation once the prompt client
/// is through: the answer, or that there is none.
pub fn report(result: Result<String, PromptError>) -> (event: Event)
    ensures
        event@ == match result {
            Ok(text) => EventView::Answered(text@),
            Err(_) => EventView::Unanswered,
        },
{
    match result {
        Ok(text) => Event::Answered(text),
        Err(_) => Event::Unanswered,
    }
}

/// An endpoint that cannot be reached fails no invocation: the prompt client
/// hands on the fallback sentence, and the step that takes it up writes
/// exactly that sentence into the placeholder.
pub proof fn lemma_unreachable_shows_fallback()
    ensures
        answer_of(Exchange::Unreachable) == Ok::<Seq<char>, Seq<char>>(fallback_text()),
        transition(StageView::Pending, EventView::Answered(fallback_text())) == (
            StageView::EditInPlace(fallback_text()),
            seq![ActionView::Edit(fallback_text())],
        ),
{
    reveal_strlit("I seem to have dropped my brain :brain:");
}

} // verus!
