//! The decisions behind the C interface: checks of arguments, envelopes, and lines
//! of the log.
use vstd::prelude::*;

use crate::json;
use crate::json::{
    holds_exactly, lemma_holds_exactly, parse_json, set_entry, write_json, Fields, Json, JsonView,
};
use crate::slots::MAIN_POOL_ID;
use crate::text;
use crate::text::{chars_of, join, starts_with, str_eq};

verus! {

// ── Arguments ───────────────────────────────────────────────────────────

/// What a call returns when it panicked.
pub const PANIC_CODE: i32 = -100;

/// Why a call was refused.
#[derive(Debug, PartialEq, Eq)]
pub struct ArgumentFault {
    pub code: i32,
    pub message: String,
}

/// What a [`ArgumentFault`] holds.
#[verifier::ext_equal]
pub struct ArgumentFaultView {
    pub code: i32,
    pub message: Seq<char>,
}

impl DeepView for ArgumentFault {
    type V = ArgumentFaultView;

    open spec fn deep_view(&self) -> ArgumentFaultView {
        ArgumentFaultView {
            code: self.code,
            message: self.message@,
        }
    }
}

impl Clone for ArgumentFault {
    fn clone(&self) -> (out: ArgumentFault)
        ensures
            out.deep_view() == self.deep_view(),
    {
        ArgumentFault {
            code: self.code,
            message: self.message.clone(),
        }
    }
}

/// An argument of a call.
pub struct Argument {
    pub name: String,
    /// It is there, and holds text.
    pub is_valid: bool,
    /// What is said of it where it is not.
    pub complaint: String,
}

/// The first argument that is not valid decides: its code is minus its place,
/// counted from 1.
pub open spec fn fault_among(arguments: Seq<Argument>) -> Option<ArgumentFaultView>
    decreases arguments.len(),
{
    if arguments.len() == 0 {
        None
    } else {
        match fault_among(arguments.drop_last()) {
            Some(fault) => Some(fault),
            None => if arguments.last().is_valid {
                None
            } else {
                Some(
                    ArgumentFaultView {
                        code: -arguments.len() as i32,
                        message: arguments.last().name@ + " is "@ + arguments.last().complaint@,
                    },
                )
            },
        }
    }
}

proof fn lemma_fault_stays(arguments: Seq<Argument>, n: int)
    requires
        0 <= n <= arguments.len(),
        fault_among(arguments.take(n)) is Some,
    ensures
        fault_among(arguments) == fault_among(arguments.take(n)),
    decreases arguments.len() - n,
{
    if n == arguments.len() {
        assert(arguments.take(n) =~= arguments);
    } else {
        assert(arguments.take(n + 1).drop_last() =~= arguments.take(n));
        lemma_fault_stays(arguments, n + 1);
    }
}

/// Why a call with these arguments is refused, where it is.
pub fn check_arguments(arguments: &Vec<Argument>) -> (fault: Option<ArgumentFault>)
    requires
        arguments.len() <= 0x7fff_ffff,
    ensures
        fault.deep_view() == fault_among(arguments@),
{
    for i in 0..arguments.len()
        invariant
            arguments.len() <= 0x7fff_ffff,
            fault_among(arguments@.take(i as int)) is None,
    {
        assert(arguments@.take(i + 1).drop_last() =~= arguments@.take(i as int));
        if !arguments[i].is_valid {
            let mut message = join(arguments[i].name.as_str(), " is ");
            message.append(arguments[i].complaint.as_str());
            proof {
                lemma_fault_stays(arguments@, i + 1);
            }
            return Some(ArgumentFault { code: -(i as i32) - 1, message });
        }
    }
    assert(arguments@.take(arguments.len() as int) =~= arguments@);
    None
}

/// The pool of an engine: the one that is asked for, or the main one.
pub open spec fn pool_or_main(asked: Option<Seq<char>>) -> Seq<char> {
    match asked {
        Some(pool) if pool.len() != 0 => pool,
        _ => MAIN_POOL_ID@,
    }
}

/// The pool of an engine.
pub fn engine_pool(asked: &Option<String>) -> (pool: String)
    ensures
        pool@ == pool_or_main(asked.deep_view()),
{
    match asked {
        Some(pool) => if pool.as_str().is_empty() {
            MAIN_POOL_ID.to_owned()
        } else {
            pool.clone()
        },
        None => MAIN_POOL_ID.to_owned(),
    }
}

/// What a host says of a failed request.
pub open spec fn host_failure_text(given: Option<Seq<char>>) -> Seq<char> {
    match given {
        Some(message) => message,
        None => "host LLM failed"@,
    }
}

/// What a host says of a failed request.
pub fn host_failure(given: Option<String>) -> (message: String)
    ensures
        message@ == host_failure_text(given.deep_view()),
{
    match given {
        Some(message) => message,
        None => "host LLM failed".to_owned(),
    }
}

// ── C strings ───────────────────────────────────────────────────────────

/// The text can be a C string: no NUL stands in it.
pub open spec fn fits_c(content: Seq<char>) -> bool {
    forall|i: int| 0 <= i < content.len() ==> #[trigger] content[i] != '\0'
}

/// Whether a text can be a C string.
pub fn is_c_text(content: &str) -> (fits: bool)
    ensures
        fits == fits_c(content@),
{
    let chars = chars_of(content);
    for i in 0..chars.len()
        invariant
            chars@ == content@,
            forall|j: int| 0 <= j < i ==> #[trigger] content@[j] != '\0',
    {
        if chars[i] == '\0' {
            return false;
        }
    }
    true
}

/// The text without its NULs.
pub open spec fn without_nul(content: Seq<char>) -> Seq<char>
    decreases content.len(),
{
    if content.len() == 0 {
        Seq::empty()
    } else {
        let before = without_nul(content.drop_last());
        if content.last() == '\0' {
            before
        } else {
            before.push(content.last())
        }
    }
}

/// The text without its NULs.
pub fn strip_nul(content: &str) -> (stripped: String)
    ensures
        stripped@ == without_nul(content@),
{
    let n = content.unicode_len();
    let mut stripped = String::new();
    for i in 0..n
        invariant
            n == content@.len(),
            stripped@ == without_nul(content@.take(i as int)),
    {
        assert(content@.take(i + 1).drop_last() =~= content@.take(i as int));
        if content.get_char(i) != '\0' {
            stripped.append(content.substring_char(i, i + 1));
        }
    }
    assert(content@.take(n as int) =~= content@);
    stripped
}

/// Without its NULs, any text can be a C string.
pub proof fn law_stripped_text_fits(content: Seq<char>)
    ensures
        fits_c(without_nul(content)),
    decreases content.len(),
{
    if content.len() > 0 {
        law_stripped_text_fits(content.drop_last());
    }
}

/// A text that can be a C string is left as it is.
pub proof fn law_fitting_text_is_kept(content: Seq<char>)
    requires
        fits_c(content),
    ensures
        without_nul(content) == content,
    decreases content.len(),
{
    if content.len() > 0 {
        assert(fits_c(content.drop_last()));
        law_fitting_text_is_kept(content.drop_last());
    }
}

// ── Envelopes ───────────────────────────────────────────────────────────

/// The number 1.
pub open spec fn version_one() -> JsonView {
    JsonView::Number(text::decimal_text(1), Some(1u64))
}

/// The envelope of an operation that succeeded.
pub open spec fn ok_envelope(operation_id: Seq<char>, result: JsonView) -> JsonView {
    JsonView::Object(
        seq![
            ("version"@, version_one()),
            ("ok"@, JsonView::Bool(true)),
            ("operation_id"@, JsonView::Text(operation_id)),
            ("result"@, result),
        ],
    )
}

/// The envelope of an operation that succeeded.
pub fn make_ok_envelope(operation_id: &str, result: Json) -> (envelope: Json)
    ensures
        envelope.deep_view() == ok_envelope(operation_id@, result.deep_view()),
{
    let fields = Fields::new().with("version", Json::unsigned(1)).with("ok", Json::Bool(true)).with(
        "operation_id",
        Json::text(operation_id),
    ).with("result", result);
    assert(fields.deep_view() =~= ok_envelope(operation_id@, result.deep_view())->Object_0);
    fields.object()
}

/// The envelope of an operation that succeeded, as text.
pub fn generate_ok_envelope(operation_id: &str, result: Json) -> (envelope: String)
    ensures
        envelope@ == json::text_of(ok_envelope(operation_id@, result.deep_view())),
{
    write_json(&make_ok_envelope(operation_id, result))
}

/// The entries of one object with all of another's, each in the place of one under
/// the same key.
pub open spec fn with_entries(
    entries: Seq<(Seq<char>, JsonView)>,
    more: Seq<(Seq<char>, JsonView)>,
) -> Seq<(Seq<char>, JsonView)>
    decreases more.len(),
{
    if more.len() == 0 {
        entries
    } else {
        json::with_entry(
            with_entries(entries, more.drop_last()),
            more.last().0,
            more.last().1,
        )
    }
}

/// An error in an envelope: its kind and message, and the fields of its own, which
/// take precedence.
pub open spec fn error_entry(kind: Seq<char>, message: Seq<char>, extra: JsonView) -> JsonView {
    let entries = seq![("kind"@, JsonView::Text(kind)), ("message"@, JsonView::Text(message))];
    JsonView::Object(
        match extra {
            JsonView::Object(more) => with_entries(entries, more),
            _ => entries,
        },
    )
}

/// The envelope of an operation that failed.
pub open spec fn err_envelope(operation_id: Seq<char>, error: JsonView) -> JsonView {
    JsonView::Object(
        seq![
            ("version"@, version_one()),
            ("ok"@, JsonView::Bool(false)),
            ("operation_id"@, JsonView::Text(operation_id)),
            ("error"@, error),
        ],
    )
}

fn make_error_entry(kind: &str, message: &str, extra: &Json) -> (entry: Json)
    ensures
        entry.deep_view() == error_entry(kind@, message@, extra.deep_view()),
{
    broadcast use json::lemma_object_view;

    let mut fields = Fields::new().with("kind", Json::text(kind)).with(
        "message",
        Json::text(message),
    );
    let ghost start = seq![
        ("kind"@, JsonView::Text(kind@)),
        ("message"@, JsonView::Text(message@)),
    ];
    assert(fields.deep_view() =~= start);
    if let Json::Object(more) = extra {
        let ghost view = more.deep_view();
        for i in 0..more.len()
            invariant
                view == more.deep_view(),
                fields.deep_view() == with_entries(start, view.take(i as int)),
        {
            assert(view.take(i + 1).drop_last() =~= view.take(i as int));
            set_entry(&mut fields.entries, more[i].0.clone(), more[i].1.clone());
        }
        assert(view.take(view.len() as int) =~= view);
    }
    fields.object()
}

/// The envelope of an operation that failed. `extra` holds the fields of the
/// error's own.
pub fn make_err_envelope(
    operation_id: &str,
    kind: &str,
    message: &str,
    extra: &Json,
) -> (envelope: Json)
    ensures
        envelope.deep_view() == err_envelope(
            operation_id@,
            error_entry(kind@, message@, extra.deep_view()),
        ),
{
    let error = make_error_entry(kind, message, extra);
    let fields = Fields::new().with("version", Json::unsigned(1)).with(
        "ok",
        Json::Bool(false),
    ).with("operation_id", Json::text(operation_id)).with("error", error);
    assert(fields.deep_view() =~= err_envelope(operation_id@, error.deep_view())->Object_0);
    fields.object()
}

/// The envelope of an operation that failed, as text.
pub fn generate_err_envelope(
    operation_id: &str,
    kind: &str,
    message: &str,
    extra: &Json,
) -> (envelope: String)
    ensures
        envelope@ == json::text_of(
            err_envelope(operation_id@, error_entry(kind@, message@, extra.deep_view())),
        ),
{
    write_json(&make_err_envelope(operation_id, kind, message, extra))
}

/// The outcome of a chat turn.
pub open spec fn chat_outcome(
    final_text: Seq<char>,
    turns_used: u32,
    usage: JsonView,
    plan: JsonView,
) -> JsonView {
    JsonView::Object(
        seq![
            ("final_text"@, JsonView::Text(final_text)),
            (
                "turns_used"@,
                JsonView::Number(text::decimal_text(turns_used as nat), Some(turns_used as u64)),
            ),
            ("usage"@, usage),
            ("plan"@, plan),
        ],
    )
}

/// The outcome of a chat turn.
pub fn make_chat_outcome(
    final_text: &str,
    turns_used: u32,
    usage: Json,
    plan: Json,
) -> (outcome: Json)
    ensures
        outcome.deep_view() == chat_outcome(
            final_text@,
            turns_used,
            usage.deep_view(),
            plan.deep_view(),
        ),
{
    let fields = Fields::new().with("final_text", Json::text(final_text)).with(
        "turns_used",
        Json::unsigned(turns_used as u64),
    ).with("usage", usage).with("plan", plan);
    assert(fields.deep_view() =~= chat_outcome(
        final_text@,
        turns_used,
        usage.deep_view(),
        plan.deep_view(),
    )->Object_0);
    fields.object()
}

/// A plan from its JSON; an empty list where that cannot be read.
pub open spec fn plan_of(plan_items_json: Seq<char>) -> JsonView {
    match json::parsed_text(plan_items_json) {
        Ok(plan) => plan,
        Err(_) => JsonView::Array(Seq::empty()),
    }
}

/// The outcome of a chat turn, as text.
pub fn outcome_json(
    final_text: &str,
    turns_used: u32,
    usage: Json,
    plan_items_json: &str,
) -> (outcome: String)
    ensures
        outcome@ == json::text_of(
            chat_outcome(final_text@, turns_used, usage.deep_view(), plan_of(plan_items_json@)),
        ),
{
    let plan = match parse_json(plan_items_json) {
        Ok(plan) => plan,
        Err(_) => {
            let none: Vec<Json> = Vec::new();
            assert(none.deep_view() =~= Seq::empty());
            Json::array(none)
        },
    };
    write_json(&make_chat_outcome(final_text, turns_used, usage, plan))
}

// ── The log ─────────────────────────────────────────────────────────────

/// How grave a line of the log is.
#[derive(Debug, Clone, Copy, PartialEq, Eq, Structural)]
pub enum LogLevel {
    Error,
    Warn,
    Info,
    Debug,
    Trace,
}

impl LogLevel {
    /// The number of the level, from 1 for errors to 5 for traces.
    pub open spec fn code(self) -> i32 {
        match self {
            LogLevel::Error => 1,
            LogLevel::Warn => 2,
            LogLevel::Info => 3,
            LogLevel::Debug => 4,
            LogLevel::Trace => 5,
        }
    }

    /// The number of the level.
    pub fn number(self) -> (code: i32)
        ensures
            code == self.code(),
    {
        match self {
            LogLevel::Error => 1,
            LogLevel::Warn => 2,
            LogLevel::Info => 3,
            LogLevel::Debug => 4,
            LogLevel::Trace => 5,
        }
    }
}

/// The gravest level that still passes a minimum: none up to 0, and all from 5 on.
pub open spec fn passing_level(min_level: i32) -> Option<LogLevel> {
    if min_level <= 0 {
        None
    } else if min_level == 1 {
        Some(LogLevel::Error)
    } else if min_level == 2 {
        Some(LogLevel::Warn)
    } else if min_level == 3 {
        Some(LogLevel::Info)
    } else if min_level == 4 {
        Some(LogLevel::Debug)
    } else {
        Some(LogLevel::Trace)
    }
}

/// The level that a minimum lets pass.
pub fn level_filter(min_level: i32) -> (level: Option<LogLevel>)
    ensures
        level == passing_level(min_level),
{
    if min_level <= 0 {
        None
    } else if min_level == 1 {
        Some(LogLevel::Error)
    } else if min_level == 2 {
        Some(LogLevel::Warn)
    } else if min_level == 3 {
        Some(LogLevel::Info)
    } else if min_level == 4 {
        Some(LogLevel::Debug)
    } else {
        Some(LogLevel::Trace)
    }
}

/// Whether diagnostics go to the host: it has a callback, and logging is on.
pub fn has_diagnostic_sink(has_callback: bool, min_level: i32) -> (yes: bool)
    ensures
        yes == (has_callback && passing_level(min_level) is Some),
{
    has_callback && min_level > 0
}

/// The log of a target is passed on: it is none of the parsers that log every
/// character.
pub open spec fn is_logged(target: Seq<char>) -> bool {
    !text::occurs_at(target, "html5ever"@, 0) && !text::occurs_at(target, "selectors"@, 0)
}

/// Whether the log of a target is passed on.
pub fn log_enabled(target: &str) -> (yes: bool)
    ensures
        yes == is_logged(target@),
{
    !starts_with(target, "html5ever") && !starts_with(target, "selectors")
}

/// A line with one more field: the message as it is, any other with its name.
pub open spec fn with_field(line: Seq<char>, name: Seq<char>, value: Seq<char>) -> Seq<char> {
    if name == "message"@ {
        line + value
    } else {
        (if line.len() == 0 {
            line
        } else {
            line + " "@
        }) + name + "="@ + value
    }
}

/// Adds a field to a line.
pub fn record_field(line: &mut String, name: &str, value: &str)
    ensures
        final(line)@ == with_field(old(line)@, name@, value@),
{
    if str_eq(name, "message") {
        line.append(value);
    } else {
        if !line.as_str().is_empty() {
            line.append(" ");
        }
        line.append(name);
        line.append("=");
        line.append(value);
    }
}

/// A field of a log event, with its value as it is shown.
pub struct LogField {
    pub name: String,
    pub value: String,
}

/// The line of some fields.
pub open spec fn line_of(fields: Seq<LogField>) -> Seq<char>
    decreases fields.len(),
{
    if fields.len() == 0 {
        Seq::empty()
    } else {
        with_field(line_of(fields.drop_last()), fields.last().name@, fields.last().value@)
    }
}

/// What the host's log callback is given.
#[derive(Debug, PartialEq, Eq)]
pub struct HostLog {
    pub level: i32,
    pub target: String,
    pub message: String,
}

/// What a [`HostLog`] holds.
#[verifier::ext_equal]
pub struct HostLogView {
    pub level: i32,
    pub target: Seq<char>,
    pub message: Seq<char>,
}

impl DeepView for HostLog {
    type V = HostLogView;

    open spec fn deep_view(&self) -> HostLogView {
        HostLogView {
            level: self.level,
            target: self.target@,
            message: self.message@,
        }
    }
}

impl Clone for HostLog {
    fn clone(&self) -> (out: HostLog)
        ensures
            out.deep_view() == self.deep_view(),
    {
        HostLog {
            level: self.level,
            target: self.target.clone(),
            message: self.message.clone(),
        }
    }
}

/// What the host is told of a log event: nothing where the target is not logged, or
/// where target or line cannot be a C string.
pub open spec fn host_log(level: LogLevel, target: Seq<char>, fields: Seq<LogField>) -> Option<
    HostLogView,
> {
    if is_logged(target) && fits_c(target) && fits_c(line_of(fields)) {
        Some(HostLogView { level: level.code(), target, message: line_of(fields) })
    } else {
        None
    }
}

/// What the host is told of a log event.
pub fn host_log_event(level: LogLevel, target: &str, fields: &Vec<LogField>) -> (log: Option<
    HostLog,
>)
    ensures
        log.deep_view() == host_log(level, target@, fields@),
{
    if !log_enabled(target) {
        return None;
    }
    let mut line = String::new();
    for i in 0..fields.len()
        invariant
            line@ == line_of(fields@.take(i as int)),
    {
        assert(fields@.take(i + 1).drop_last() =~= fields@.take(i as int));
        record_field(&mut line, fields[i].name.as_str(), fields[i].value.as_str());
    }
    assert(fields@.take(fields.len() as int) =~= fields@);
    if !is_c_text(target) || !is_c_text(line.as_str()) {
        return None;
    }
    Some(HostLog { level: level.number(), target: target.to_owned(), message: line })
}

/// What the host is told of a diagnostic, whose message loses its NULs.
pub open spec fn host_diagnostic(level: i32, target: Seq<char>, message: Seq<char>) -> Option<
    HostLogView,
> {
    if fits_c(target) {
        Some(HostLogView { level, target, message: without_nul(message) })
    } else {
        None
    }
}

/// What the host is told of a diagnostic.
pub fn forward_host_diag(level: i32, target: &str, message: &str) -> (log: Option<HostLog>)
    ensures
        log.deep_view() == host_diagnostic(level, target@, message@),
{
    if !is_c_text(target) {
        return None;
    }
    Some(HostLog { level, target: target.to_owned(), message: strip_nul(message) })
}

// ── What the host is told ───────────────────────────────────────────────

/// A call is refused for the first argument that is not valid, with minus its place,
/// counted from 1, as the code and with its name and what is wrong with it. A call whose
/// arguments are all valid is not refused.
pub proof fn law_first_bad_argument_is_told(arguments: Seq<Argument>)
    requires
        arguments.len() <= 0x7fff_ffff,
    ensures
        match fault_among(arguments) {
            Some(fault) => exists|i: int|
                {
                    &&& 0 <= i < arguments.len()
                    &&& !(#[trigger] arguments[i]).is_valid
                    &&& forall|j: int| 0 <= j < i ==> (#[trigger] arguments[j]).is_valid
                    &&& fault.code == -1 - i
                    &&& fault.message == arguments[i].name@ + " is "@ + arguments[i].complaint@
                },
            None => forall|j: int|
                0 <= j < arguments.len() ==> (#[trigger] arguments[j]).is_valid,
        },
    decreases arguments.len(),
{
    if arguments.len() > 0 {
        let front = arguments.drop_last();
        let n = arguments.len() - 1;
        law_first_bad_argument_is_told(front);
        match fault_among(front) {
            Some(fault) => {
                let i = choose|i: int|
                    {
                        &&& 0 <= i < front.len()
                        &&& !(#[trigger] front[i]).is_valid
                        &&& forall|j: int| 0 <= j < i ==> (#[trigger] front[j]).is_valid
                        &&& fault.code == -1 - i
                        &&& fault.message == front[i].name@ + " is "@ + front[i].complaint@
                    };
                assert(arguments[i] == front[i]);
                assert forall|j: int| 0 <= j < i implies (#[trigger] arguments[j]).is_valid by {
                    assert(front[j] == arguments[j]);
                }
            },
            None => {
                assert forall|j: int| 0 <= j < n implies (#[trigger] arguments[j]).is_valid by {
                    assert(front[j] == arguments[j]);
                }
                assert(arguments[n] == arguments.last());
            },
        }
    }
}

/// An engine works on the pool that is asked for, and on the main one where none is.
/// A host's failure is told in its own words, where it has any.
pub proof fn law_hosts_are_taken_at_their_word(given: Option<Seq<char>>)
    ensures
        given matches Some(word) ==> host_failure_text(given) == word && (word.len() > 0
            ==> pool_or_main(given) == word) && (word.len() == 0 ==> pool_or_main(given)
            == "main"@),
        given is None ==> host_failure_text(given) == "host LLM failed"@ && pool_or_main(given)
            == "main"@,
{
}

/// Stripping drops the NULs and nothing else: what is left is the other characters, in
/// their order.
pub proof fn law_only_nuls_are_stripped(content: Seq<char>)
    ensures
        without_nul(content) == content.filter(|c: char| c != '\0'),
    decreases content.len(),
{
    reveal(Seq::filter);
    if content.len() > 0 {
        law_only_nuls_are_stripped(content.drop_last());
    }
}

/// A text can be a C string if and only if it has no NUL.
pub proof fn law_c_text_has_no_nul(content: Seq<char>)
    ensures
        fits_c(content) <==> !content.contains('\0'),
{
    if content.contains('\0') {
        let i = choose|i: int| 0 <= i < content.len() && content[i] == '\0';
        assert(content[i] == '\0');
    }
    if !fits_c(content) {
        let i = choose|i: int| 0 <= i < content.len() && #[trigger] content[i] == '\0';
        assert(content.contains(content[i]));
    }
}

proof fn lemma_envelope_keys()
    ensures
        "version"@.len() == 7,
        "ok"@.len() == 2,
        "operation_id"@.len() == 12,
        "result"@.len() == 6,
        "error"@.len() == 5,
        "kind"@.len() == 4,
        "message"@.len() == 7,
        "final_text"@.len() == 10 && "final_text"@[0] == 'f',
        "turns_used"@.len() == 10 && "turns_used"@[0] == 't',
        "usage"@.len() == 5,
        "plan"@.len() == 4,
{
    reveal_strlit("version");
    reveal_strlit("ok");
    reveal_strlit("operation_id");
    reveal_strlit("result");
    reveal_strlit("error");
    reveal_strlit("kind");
    reveal_strlit("message");
    reveal_strlit("final_text");
    reveal_strlit("turns_used");
    reveal_strlit("usage");
    reveal_strlit("plan");
}

/// The envelope of a success holds that it is one, the id of its operation and the
/// result, and the envelope of a failure the same with the error; both are of the first
/// version.
pub proof fn law_envelopes_hold_what_came_of_it(operation_id: Seq<char>, content: JsonView)
    ensures
        holds_exactly(
            ok_envelope(operation_id, content),
            seq![
                ("version"@, JsonView::Number(seq!['1'], Some(1u64))),
                ("ok"@, JsonView::Bool(true)),
                ("operation_id"@, JsonView::Text(operation_id)),
                ("result"@, content),
            ],
        ),
        holds_exactly(
            err_envelope(operation_id, content),
            seq![
                ("version"@, JsonView::Number(seq!['1'], Some(1u64))),
                ("ok"@, JsonView::Bool(false)),
                ("operation_id"@, JsonView::Text(operation_id)),
                ("error"@, content),
            ],
        ),
{
    lemma_envelope_keys();
    text::law_decimal_is_made_of_digits(1);
    assert(text::decimal_text(1) =~= seq!['1']);
    lemma_holds_exactly(ok_envelope(operation_id, content)->Object_0);
    lemma_holds_exactly(err_envelope(operation_id, content)->Object_0);
}

/// An error in an envelope holds its kind and its message, and the fields of its own,
/// which come before these under the same key; of its own fields under one key the last
/// counts.
pub proof fn law_errors_hold_kind_and_message(
    kind: Seq<char>,
    message: Seq<char>,
    extra: Seq<(Seq<char>, JsonView)>,
    key: Seq<char>,
    value: JsonView,
)
    ensures
        ({
            let plain = error_entry(kind, message, JsonView::Object(Seq::empty()));
            let before = error_entry(kind, message, JsonView::Object(extra));
            let after = error_entry(kind, message, JsonView::Object(extra.push((key, value))));
            &&& holds_exactly(
                plain,
                seq![("kind"@, JsonView::Text(kind)), ("message"@, JsonView::Text(message))],
            )
            &&& after.get(key) == Some(value)
            &&& forall|other: Seq<char>|
                other != key ==> #[trigger] after.get(other) == before.get(other)
            &&& error_entry(kind, message, JsonView::Null) == plain
        }),
{
    lemma_envelope_keys();
    let plain = error_entry(kind, message, JsonView::Object(Seq::empty()));
    lemma_holds_exactly(plain->Object_0);
    let entries = seq![("kind"@, JsonView::Text(kind)), ("message"@, JsonView::Text(message))];
    let more = extra.push((key, value));
    assert(more.drop_last() =~= extra);
    let before = with_entries(entries, extra);
    json::law_one_entry_is_set(before, key, value);
    let after = error_entry(kind, message, JsonView::Object(more));
    assert(after->Object_0 == json::with_entry(before, key, value));
    assert forall|other: Seq<char>| other != key implies #[trigger] after.get(other)
        == error_entry(kind, message, JsonView::Object(extra)).get(other) by {
        assert(json::lookup(json::with_entry(before, key, value), other) == json::lookup(
            before,
            other,
        ));
    }
}

/// The outcome of a chat turn holds its text, the number of its turns, its usage and its
/// plan; the plan is what its JSON says, and empty where that cannot be read.
pub proof fn law_outcomes_hold_the_turn(
    final_text: Seq<char>,
    turns_used: u32,
    usage: JsonView,
    plan_items_json: Seq<char>,
)
    ensures
        holds_exactly(
            chat_outcome(final_text, turns_used, usage, plan_of(plan_items_json)),
            seq![
                ("final_text"@, JsonView::Text(final_text)),
                (
                    "turns_used"@,
                    JsonView::Number(
                        text::decimal_text(turns_used as nat),
                        Some(turns_used as u64),
                    ),
                ),
                ("usage"@, usage),
                (
                    "plan"@,
                    if json::parsed_text(plan_items_json) is Ok {
                        json::parsed_text(plan_items_json)->Ok_0
                    } else {
                        JsonView::Array(Seq::empty())
                    },
                ),
            ],
        ),
{
    lemma_envelope_keys();
    lemma_holds_exactly(
        chat_outcome(final_text, turns_used, usage, plan_of(plan_items_json))->Object_0,
    );
}

/// A minimum of 1 to 5 lets the level of that number pass and all that are graver; one
/// above 5 lets everything pass, and one of 0 or less nothing.
pub proof fn law_levels_are_numbered(min_level: i32)
    ensures
        min_level <= 0 ==> passing_level(min_level) is None,
        1 <= min_level <= 5 ==> (passing_level(min_level) matches Some(level) && level.code()
            == min_level),
        min_level > 5 ==> passing_level(min_level) == Some(LogLevel::Trace),
        LogLevel::Error.code() == 1,
        LogLevel::Warn.code() == 2,
        LogLevel::Info.code() == 3,
        LogLevel::Debug.code() == 4,
        LogLevel::Trace.code() == 5,
{
}

/// The log of the parsers is not passed on, whatever follows their names, and that of
/// every other target is.
pub proof fn law_parsers_are_not_logged(target: Seq<char>, rest: Seq<char>)
    ensures
        !is_logged("html5ever"@ + rest),
        !is_logged("selectors"@ + rest),
        (forall|more: Seq<char>| target != #[trigger] ("html5ever"@ + more)) && (forall|
            more: Seq<char>,
        | target != #[trigger] ("selectors"@ + more)) ==> is_logged(target),
{
    text::law_parts_are_found(Seq::empty(), "html5ever"@, rest);
    text::law_parts_are_found(Seq::empty(), "selectors"@, rest);
    assert(Seq::<char>::empty() + "html5ever"@ + rest =~= "html5ever"@ + rest);
    assert(Seq::<char>::empty() + "selectors"@ + rest =~= "selectors"@ + rest);
    if text::occurs_at(target, "html5ever"@, 0) {
        text::law_found_parts_stand_there(target, "html5ever"@, 0);
        let more = target.skip("html5ever"@.len() as int);
        assert(target =~= "html5ever"@ + more);
    }
    if text::occurs_at(target, "selectors"@, 0) {
        text::law_found_parts_stand_there(target, "selectors"@, 0);
        let more = target.skip("selectors"@.len() as int);
        assert(target =~= "selectors"@ + more);
    }
}

/// A line of the log is its fields in order: the message as it is, and every other
/// field as its name, an equals sign and its value, behind a space where it is not the
/// first.
pub proof fn law_lines_are_their_fields(fields: Seq<LogField>, field: LogField)
    ensures
        line_of(Seq::empty()).len() == 0,
        ({
            let before = line_of(fields);
            let after = line_of(fields.push(field));
            &&& field.name@ == "message"@ ==> after == before + field.value@
            &&& field.name@ != "message"@ && before.len() > 0 ==> after == before + seq![' ']
                + field.name@ + seq!['='] + field.value@
            &&& field.name@ != "message"@ && before.len() == 0 ==> after == field.name@ + seq!['=']
                + field.value@
        }),
{
    assert(fields.push(field).drop_last() =~= fields);
    reveal_strlit(" ");
    reveal_strlit("=");
    assert(" "@ =~= seq![' ']);
    assert("="@ =~= seq!['=']);
    let before = line_of(fields);
    if before.len() == 0 {
        assert(before + field.name@ =~= field.name@);
    }
}

/// The host is told of every event of a target that is logged, with the number of its
/// level, its target and its line, as long as both can be C strings.
pub proof fn law_hosts_are_told_of_events(
    level: LogLevel,
    target: Seq<char>,
    fields: Seq<LogField>,
)
    ensures
        host_log(level, target, fields) is Some <==> is_logged(target) && !target.contains('\0')
            && !line_of(fields).contains('\0'),
        host_log(level, target, fields) matches Some(log) ==> log.level == level.code()
            && log.target == target && log.message == line_of(fields),
{
    law_c_text_has_no_nul(target);
    law_c_text_has_no_nul(line_of(fields));
}

/// The host is told of every diagnostic whose target can be a C string, with its level
/// and its target as they are and its message without NULs.
pub proof fn law_hosts_are_told_of_diagnostics(
    level: i32,
    target: Seq<char>,
    message: Seq<char>,
)
    ensures
        host_diagnostic(level, target, message) is Some <==> !target.contains('\0'),
        host_diagnostic(level, target, message) matches Some(log) ==> log.level == level
            && log.target == target && log.message == message.filter(|c: char| c != '\0'),
{
    law_c_text_has_no_nul(target);
    law_only_nuls_are_stripped(message);
}

/// What the views of these values show is what the values hold, field by field.
pub proof fn law_views_leave_nothing_out(
    argument_fault: ArgumentFault,
    host_log: HostLog,
)
    ensures
        ({
            let held = argument_fault.deep_view();
            &&& held.code == argument_fault.code
            &&& held.message == argument_fault.message@
        }),
        ({
            let held = host_log.deep_view();
            &&& held.level == host_log.level
            &&& held.target == host_log.target@
            &&& held.message == host_log.message@
        }),
{
}

} // verus!
