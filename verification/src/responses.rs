//! The Responses API.
use vstd::prelude::*;

use crate::error;
use crate::error::{EngineError, EngineErrorView};
use crate::frames;
use crate::frames::{parse_responses_chunk, Decoded, DecodedView};
use crate::json;
use crate::json::{parse_json, write_json, Fields, Json, JsonView};
use crate::payload;
use crate::payload::build_responses_payload;
use crate::text;
use crate::text::{join, take_chars};
use crate::types::{ChatCompletionChunk, ChatCompletionChunkView, ConversationRequest};

verus! {

/// A whole response as the event that ends a stream.
pub open spec fn completed_event(response: JsonView) -> JsonView {
    JsonView::Object(
        seq![("type"@, JsonView::Text("response.completed"@)), ("response"@, response)],
    )
}

/// A whole response as the event that ends a stream.
pub fn make_completed_event(response: Json) -> (event: Json)
    ensures
        event.deep_view() == completed_event(response.deep_view()),
{
    let fields = Fields::new().with("type", Json::text("response.completed")).with(
        "response",
        response,
    );
    assert(fields.deep_view() =~= completed_event(response.deep_view())->Object_0);
    fields.object()
}

/// The error for a response that is no JSON: what the parser says, and how the
/// response begins.
pub open spec fn unreadable(message: Seq<char>, data: Seq<char>) -> EngineErrorView {
    EngineErrorView::Stream(
        "failed to parse buffered Responses response: "@ + message + ": "@ + if data.len() >= 120 {
            data.take(120)
        } else {
            data
        },
    )
}

fn make_unreadable(message: &str, data: &str) -> (error: EngineError)
    ensures
        error.deep_view() == unreadable(message@, data@),
{
    let mut text = join("failed to parse buffered Responses response: ", message);
    text.append(": ");
    let front = take_chars(data, 120);
    text.append(front.as_str());
    EngineError::Stream(text)
}

/// The text of a whole response as the event that ends a stream.
pub open spec fn completed_text(data: Seq<char>) -> Result<Seq<char>, EngineErrorView> {
    match json::parsed_text(data) {
        Ok(response) => Ok(json::text_of(completed_event(response))),
        Err(message) => Err(unreadable(message, data)),
    }
}

/// Where the text is read, it is an event that names itself as the end of a stream.
pub open spec fn reads_as_completed(text: Seq<char>) -> bool {
    match json::parsed_text(text) {
        Ok(event) => json::text_in(event.get("type"@)) == Some("response.completed"@),
        Err(_) => true,
    }
}

proof fn lemma_stored_event(response: JsonView)
    ensures
        json::stored(completed_event(response)) == JsonView::Object(
            seq![
                ("response"@, json::stored(response)),
                ("type"@, JsonView::Text("response.completed"@)),
            ],
        ),
{
    reveal_strlit("type");
    reveal_strlit("response");
    let entries = completed_event(response)->Object_0;
    let given = seq![
        ("type"@, JsonView::Text("response.completed"@)),
        ("response"@, json::stored(response)),
    ];
    assert(json::stored_entries(entries) =~= given);
    assert(given.drop_last() =~= seq![given[0]]);
    assert(seq![given[0]].drop_last() =~= Seq::empty());
    assert(json::map_entries(Seq::empty()) =~= Seq::empty());
    assert(json::map_entries(seq![given[0]]) =~= seq![given[0]]);
    assert(json::key_before("response"@, "type"@));
    assert(json::map_entries(given) =~= seq![given[1], given[0]]);
}

proof fn lemma_names_itself(response: JsonView, back: JsonView)
    requires
        json::same_but_fractions(json::stored(completed_event(response)), back),
    ensures
        json::text_in(back.get("type"@)) == Some("response.completed"@),
{
    reveal_strlit("type");
    reveal_strlit("response");
    lemma_stored_event(response);
    let written = json::stored(completed_event(response))->Object_0;
    let entries = back->Object_0;
    assert(written[0].0 == entries[0].0);
    assert(written[1].0 == entries[1].0 && json::same_but_fractions(written[1].1, entries[1].1));
    assert("response"@.len() != "type"@.len());
    let rest = entries.drop_first();
    assert(rest[0] == entries[1]);
    assert(json::lookup(rest, "type"@) == Some(entries[1].1));
}

/// The text of a whole response as the event that ends a stream.
pub fn completed_event_text(data: &str) -> (text: Result<String, EngineError>)
    ensures
        error::outcome_of(text) == completed_text(data@),
        text matches Ok(event) ==> text::trimmed(event@) == event@ && reads_as_completed(event@),
{
    match parse_json(data) {
        Ok(response) => {
            let ghost tree = response.deep_view();
            let event = write_json(&make_completed_event(response));
            proof {
                assert(!text::whitespace_char(event@[0]));
                assert(!text::whitespace_char(event@.last()));
                if let Ok(back) = json::parsed_text(event@) {
                    lemma_names_itself(tree, back);
                }
            }
            Ok(event)
        },
        Err(message) => Err(make_unreadable(message.as_str(), data)),
    }
}

proof fn lemma_completed_is_not_failed()
    ensures
        text::lowercase_text("response.completed"@) == "response.completed"@,
        !text::contains_text("response.completed"@, "response.failed"@),
{
    reveal_strlit("response.completed");
    reveal_strlit("response.failed");
    let name = "response.completed"@;
    let failed = "response.failed"@;
    assert(text::is_ascii_text(name));
    assert(text::ascii_lower_text(name) =~= name);
    assert forall|at: int| !text::occurs_at(name, failed, at) by {
        if text::occurs_at(name, failed, at) {
            let part = name.subrange(at, at + failed.len());
            assert(part[0] == name[at]);
            assert(part[9] == name[at + 9]);
        }
    }
}

/// What a whole response comes to: what the event that ends a stream would, so that
/// both are read alike.
pub open spec fn response_outcome(data: Seq<char>, decoded: DecodedView) -> Result<
    Option<ChatCompletionChunkView>,
    EngineErrorView,
> {
    match completed_text(data) {
        Ok(event) => frames::chunk_of("response.completed"@, event, decoded),
        Err(error) => Err(error),
    }
}

/// What a whole response comes to: an error if and only if it is no JSON. `decoded`
/// is what the typed decoders make of [`completed_event_text`].
pub fn parse_responses_response(data: &str, decoded: &Decoded) -> (outcome: Result<
    Option<ChatCompletionChunk>,
    EngineError,
>)
    ensures
        error::outcome_of(outcome) == response_outcome(data@, decoded.deep_view()),
        outcome is Err <==> json::parsed_text(data@) is Err,
{
    match completed_event_text(data) {
        Ok(event) => {
            proof {
                lemma_completed_is_not_failed();
            }
            parse_responses_chunk("response.completed", event.as_str(), decoded)
        },
        Err(error) => Err(error),
    }
}

/// The Responses API as a wire format.
pub struct ResponsesAdapter;

impl ResponsesAdapter {
    /// Where requests are sent to.
    pub fn endpoint(&self, base: &str, _model: &str, _stream: bool) -> (url: String)
        ensures
            url@ == base@ + "/responses"@,
    {
        join(base, "/responses")
    }

    /// The body of a request.
    pub fn build_payload(&self, req: &ConversationRequest) -> (payload: Result<Json, EngineError>)
        ensures
            error::outcome_of(payload) == payload::payload_of(req.deep_view()),
    {
        build_responses_payload(req)
    }

    /// What the data of an event comes to.
    pub fn parse_event(&self, event: &str, data: &str, decoded: &Decoded) -> (outcome: Result<
        Option<ChatCompletionChunk>,
        EngineError,
    >)
        ensures
            error::outcome_of(outcome) == frames::chunk_of(event@, data@, decoded.deep_view()),
    {
        parse_responses_chunk(event, data, decoded)
    }

    /// What a whole response comes to.
    pub fn parse_response(&self, data: &str, decoded: &Decoded) -> (outcome: Result<
        Option<ChatCompletionChunk>,
        EngineError,
    >)
        ensures
            error::outcome_of(outcome) == response_outcome(data@, decoded.deep_view()),
            outcome is Err <==> json::parsed_text(data@) is Err,
    {
        parse_responses_response(data, decoded)
    }
}

/// The event that a whole response is read as holds the response as it is, under the
/// name of the event that ends a stream.
pub proof fn law_whole_responses_end_a_stream(response: JsonView)
    ensures
        completed_event(response).get("response"@) == Some(response),
        completed_event(response).get("type"@) == Some(JsonView::Text("response.completed"@)),
        completed_event(response)->Object_0.len() == 2,
{
    reveal_strlit("type");
    reveal_strlit("response");
    let entries = completed_event(response)->Object_0;
    assert(entries[0].0.len() != entries[1].0.len());
    json::lemma_lookup_at(entries, 0);
    json::lemma_lookup_at(entries, 1);
}

/// A whole response comes to what the event that ends a stream comes to, so that both
/// are read alike. One that is no JSON is an error with what the parser says and at
/// most the first 120 characters of the response.
pub proof fn law_whole_and_streamed_responses_are_read_alike(
    data: Seq<char>,
    decoded: DecodedView,
)
    ensures
        match json::parsed_text(data) {
            Ok(response) => response_outcome(data, decoded) == frames::chunk_of(
                "response.completed"@,
                json::text_of(completed_event(response)),
                decoded,
            ),
            Err(message) => response_outcome(data, decoded) matches Err(EngineErrorView::Stream(
                said,
            )) && {
                let front = "failed to parse buffered Responses response: "@ + message + ": "@;
                &&& data.len() <= 120 ==> said == front + data
                &&& data.len() > 120 ==> said == front + data.take(120)
            },
        },
{
    if data.len() == 120 {
        assert(data.take(120) =~= data);
    }
}

} // verus!
