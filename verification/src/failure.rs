//! What kind of failure an error is, and what follows from it.
use vstd::prelude::*;

use crate::error::{EngineError, EngineErrorView};
use crate::events::FailureClass;
use crate::json;
use crate::json::{parse_leading_json, Json, JsonView};
use crate::text;
use crate::text::{first_word, parse_u64, skip_chars, str_eq, tail_from};

verus! {

/// What the transport says of a failed request.
#[derive(Debug, Clone, Copy, PartialEq, Eq, Structural)]
pub enum RetryClass {
    /// Asking again is no use.
    Fatal,
    /// The provider asked for a pause.
    RateLimited,
    /// Asking again may help.
    Retry,
}

/// What the transport reads off a failed request: the status, what asking again
/// would do, whether the message forbids it, and how long to wait.
#[derive(Debug, Clone, Copy, PartialEq, Eq, Structural)]
pub struct FailureSignals {
    pub class: RetryClass,
    pub status: Option<u16>,
    /// The context does not fit, or the server said not to ask again.
    pub message_vetoes: bool,
    /// The pause, in nanoseconds, that the transport makes of the seconds that the
    /// message asks for, where it asks for some.
    pub retry_after: Option<u128>,
}

/// The class of a failure: silence and emptiness by the error itself, anything
/// else by what the transport says of it.
pub open spec fn class_of(err: EngineErrorView, signals: FailureSignals) -> FailureClass {
    match err {
        EngineErrorView::StreamIdleTimeout(_) => FailureClass::StreamIdle,
        EngineErrorView::EmptyResponse => FailureClass::EmptyResponse,
        _ => match signals.class {
            RetryClass::RateLimited => FailureClass::RateLimited,
            RetryClass::Retry => if signals.status is None {
                FailureClass::Connection
            } else {
                FailureClass::RetryableHttp
            },
            RetryClass::Fatal => FailureClass::Fatal,
        },
    }
}

/// The class of a failure.
pub fn failure_class_of(err: &EngineError, signals: &FailureSignals) -> (class: FailureClass)
    ensures
        class == class_of(err.deep_view(), *signals),
{
    match err {
        EngineError::StreamIdleTimeout(_) => FailureClass::StreamIdle,
        EngineError::EmptyResponse => FailureClass::EmptyResponse,
        _ => match signals.class {
            RetryClass::RateLimited => FailureClass::RateLimited,
            RetryClass::Retry => if signals.status.is_none() {
                FailureClass::Connection
            } else {
                FailureClass::RetryableHttp
            },
            RetryClass::Fatal => FailureClass::Fatal,
        },
    }
}

/// The body of a refusal says that the account has no quota left, by its code.
pub open spec fn reports_spent_quota(body: JsonView) -> bool {
    json::text_in(body.get_in("error"@, "code"@)) == Some("insufficient_user_quota"@)
}

/// Whether the body of a refusal says that the account has no quota left. The code
/// decides, not the words of the message.
pub fn is_spent_quota(body: &Json) -> (spent: bool)
    ensures
        spent == reports_spent_quota(body.deep_view()),
{
    match body.get_in("error", "code") {
        Some(code) => match code.as_text() {
            Some(code) => str_eq(code, "insufficient_user_quota"),
            None => false,
        },
        None => false,
    }
}

/// The body that a transport put into the message of an error.
pub open spec fn message_body(message: Seq<char>) -> Option<JsonView> {
    match text::tail_at(message, "{"@) {
        Some(tail) => json::leading_value(tail),
        None => None,
    }
}

/// The error ends the operation: neither asking again nor another provider helps.
pub open spec fn vetoes(err: EngineErrorView, signals: FailureSignals) -> bool {
    match err {
        EngineErrorView::Llm(message) => signals.message_vetoes || (signals.status == Some(403u16)
            && match message_body(message) {
            Some(body) => reports_spent_quota(body),
            None => false,
        }),
        _ => false,
    }
}

/// Whether the error ends the operation. The quota of an account says nothing of
/// the health of a provider.
pub fn is_veto(err: &EngineError, signals: &FailureSignals) -> (veto: bool)
    ensures
        veto == vetoes(err.deep_view(), *signals),
{
    match err {
        EngineError::Llm(message) => {
            if signals.message_vetoes {
                return true;
            }
            match signals.status {
                Some(status) => if status != 403 {
                    return false;
                },
                None => {
                    return false;
                },
            }
            match tail_from(message.as_str(), "{") {
                Some(tail) => match parse_leading_json(tail.as_str()) {
                    Some(body) => is_spent_quota(&body),
                    None => false,
                },
                None => false,
            }
        },
        _ => false,
    }
}

/// A refusal with any other status than 403 is no veto by its body.
pub proof fn law_quota_veto_needs_the_status(err: EngineErrorView, signals: FailureSignals)
    requires
        !signals.message_vetoes,
        signals.status != Some(403u16),
    ensures
        !vetoes(err, signals),
{
}

/// The seconds that a message asks for: the number behind `retry-after=`.
pub open spec fn seconds_in(err: EngineErrorView) -> Option<u64> {
    match err {
        EngineErrorView::Llm(message) => match text::tail_at(message, "retry-after="@) {
            Some(tail) => match text::first_word_of(tail.skip("retry-after="@.len() as int)) {
                Some(word) => match text::u64_of(word) {
                    Some(secs) => Some(secs as u64),
                    None => None,
                },
                None => None,
            },
            None => None,
        },
        _ => None,
    }
}

/// The pause that a message asks for.
pub open spec fn asked_pause(err: EngineErrorView, signals: FailureSignals) -> Option<u128> {
    match seconds_in(err) {
        Some(_) => signals.retry_after,
        None => None,
    }
}

proof fn lemma_tail_starts(text: Seq<char>, needle: Seq<char>)
    ensures
        match text::tail_at(text, needle) {
            Some(tail) => text::occurs_at(tail, needle, 0),
            None => true,
        },
    decreases text.len(),
{
    if !text::occurs_at(text, needle, 0) && text.len() > 0 {
        lemma_tail_starts(text.drop_first(), needle);
    }
}

/// The seconds that a transport put into the message of an error.
pub fn asked_seconds(err: &EngineError) -> (secs: Option<u64>)
    ensures
        secs == seconds_in(err.deep_view()),
{
    let message = match err {
        EngineError::Llm(message) => message,
        _ => {
            return None;
        },
    };
    let marker = "retry-after=";
    let tail = match tail_from(message.as_str(), marker) {
        Some(tail) => tail,
        None => {
            return None;
        },
    };
    proof {
        lemma_tail_starts(message@, marker@);
    }
    let rest = skip_chars(tail.as_str(), marker.unicode_len());
    match first_word(rest.as_str()) {
        Some(word) => parse_u64(word.as_str()),
        None => None,
    }
}

/// The pause that the message of an error asks for, in nanoseconds: what the
/// transport makes of its seconds.
pub fn retry_after_from_error(err: &EngineError, signals: &FailureSignals) -> (pause: Option<u128>)
    ensures
        pause == asked_pause(err.deep_view(), *signals),
{
    match asked_seconds(err) {
        Some(_) => signals.retry_after,
        None => None,
    }
}

/// Silence and emptiness are told by the error, whatever the transport says. Of any
/// other failure the transport tells the class; one that asking again may mend is one
/// of the connection where there was no status.
pub proof fn law_classes_follow_error_and_transport(err: EngineErrorView, signals: FailureSignals)
    ensures
        ({
            let class = class_of(err, signals);
            let by_itself = err is StreamIdleTimeout || err is EmptyResponse;
            &&& class == FailureClass::StreamIdle <==> err is StreamIdleTimeout
            &&& class == FailureClass::EmptyResponse <==> err is EmptyResponse
            &&& class == FailureClass::RateLimited <==> !by_itself && signals.class
                == RetryClass::RateLimited
            &&& class == FailureClass::Fatal <==> !by_itself && signals.class == RetryClass::Fatal
            &&& class == FailureClass::Connection <==> !by_itself && signals.class
                == RetryClass::Retry && signals.status is None
            &&& class == FailureClass::RetryableHttp <==> !by_itself && signals.class
                == RetryClass::Retry && signals.status is Some
        }),
{
}

/// Only an error of the model's service is ever a veto. It is one where its message
/// forbids asking again, whatever else it says.
pub proof fn law_messages_can_veto(err: EngineErrorView, signals: FailureSignals)
    ensures
        !(err is Llm) ==> !vetoes(err, signals),
        err is Llm && signals.message_vetoes ==> vetoes(err, signals),
{
}

/// A refusal with the status 403 is a veto if and only if the JSON value that begins
/// at the first brace of its message has `insufficient_user_quota` as the code of its
/// error, whatever stands before the brace and behind the value.
pub proof fn law_spent_quota_is_a_veto(
    before: Seq<char>,
    rest: Seq<char>,
    signals: FailureSignals,
)
    requires
        !signals.message_vetoes,
        signals.status == Some(403u16),
        forall|i: int| 0 <= i < before.len() ==> #[trigger] before[i] != '{',
    ensures
        ({
            let tail = seq!['{'] + rest;
            let spent = match json::leading_value(tail) {
                Some(body) => match body.get("error"@) {
                    Some(error) => error.get("code"@) == Some(
                        JsonView::Text("insufficient_user_quota"@),
                    ),
                    None => false,
                },
                None => false,
            };
            &&& vetoes(EngineErrorView::Llm(before + tail), signals) == spent
            &&& !vetoes(EngineErrorView::Llm(before), signals)
        }),
{
    reveal_strlit("{");
    let tail = seq!['{'] + rest;
    let message = before + tail;
    text::law_text_is_cut_at_the_first_place(message, "{"@);
    text::law_text_is_cut_at_the_first_place(before, "{"@);
    assert("{"@ =~= seq!['{']);
    text::law_parts_are_found(before, "{"@, rest);
    assert(before + "{"@ + rest =~= message);
    assert forall|j: int| 0 <= j < before.len() implies !text::occurs_at(message, "{"@, j) by {
        if text::occurs_at(message, "{"@, j) {
            assert(message.subrange(j, j + 1)[0] == message[j]);
        }
    }
    assert forall|j: int| !text::occurs_at(before, "{"@, j) by {
        if text::occurs_at(before, "{"@, j) {
            assert(before.subrange(j, j + 1)[0] == before[j]);
        }
    }
    assert(message.skip(before.len() as int) =~= tail);
    assert(text::occurs_at(message, "{"@, before.len() as int));
    assert(text::tail_at(message, "{"@) == Some(tail));
    assert(text::tail_at(before, "{"@) is None);
    assert(message_body(message) == json::leading_value(tail));
}

/// The seconds of a message are the word behind the first `retry-after=` in it, where
/// that is a number: what a number was written as, it is read as.
pub proof fn law_asked_seconds_are_read(before: Seq<char>, secs: u64, rest: Seq<char>)
    requires
        forall|j: int|
            0 <= j < before.len() ==> !text::occurs_at(
                before + "retry-after="@ + text::decimal_text(secs as nat) + rest,
                "retry-after="@,
                j,
            ),
        rest.len() > 0 ==> text::whitespace_char(rest[0]),
    ensures
        seconds_in(
            EngineErrorView::Llm(
                before + "retry-after="@ + text::decimal_text(secs as nat) + rest,
            ),
        ) == Some(secs),
{
    let marker = "retry-after="@;
    let number = text::decimal_text(secs as nat);
    let message = before + marker + number + rest;
    let at = before.len() as int;
    text::law_decimal_is_made_of_digits(secs as nat);
    text::law_decimal_is_read_back(secs);
    text::law_text_is_cut_at_the_first_place(message, marker);
    text::law_parts_are_found(before, marker, number + rest);
    assert(before + marker + (number + rest) =~= message);
    assert(text::occurs_at(message, marker, at));
    assert(text::tail_at(message, marker) == Some(message.skip(at)));
    assert(message.skip(at).skip(marker.len() as int) =~= Seq::empty() + number + rest);
    assert forall|i: int| 0 <= i < number.len() implies !text::whitespace_char(
        #[trigger] number[i],
    ) by {
        assert(text::is_digit(number[i]));
    }
    text::law_first_word_stands_apart(Seq::empty(), number, rest);
}

/// A message without `retry-after=` asks for no pause, and neither does another error.
/// A pause that is asked for is the one that the transport makes of it.
pub proof fn law_pauses_are_asked_for(err: EngineErrorView, signals: FailureSignals)
    ensures
        match err {
            EngineErrorView::Llm(message) => !text::contains_text(message, "retry-after="@)
                ==> seconds_in(err) is None,
            _ => seconds_in(err) is None,
        },
        seconds_in(err) is None ==> asked_pause(err, signals) is None,
        seconds_in(err) is Some ==> asked_pause(err, signals) == signals.retry_after,
{
    if let EngineErrorView::Llm(message) = err {
        text::law_text_is_cut_at_the_first_place(message, "retry-after="@);
        if let Some(tail) = text::tail_at(message, "retry-after="@) {
            let at = choose|at: int|
                {
                    &&& #[trigger] text::occurs_at(message, "retry-after="@, at)
                    &&& tail == message.skip(at)
                    &&& forall|j: int|
                        0 <= j < at ==> !text::occurs_at(message, "retry-after="@, j)
                };
            assert(text::occurs_at(message, "retry-after="@, at));
        }
    }
}

} // verus!
