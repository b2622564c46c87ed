//! The herdr socket protocol.
//!
//! One JSON value to a line, in two shapes. A request is one line in and one
//! line out. A subscription begins with an acknowledgement and then streams
//! events. Subscription requests name events with dots (`pane.updated`); the
//! events that come back name themselves with underscores (`pane_updated`).
use crate::git::pairs;
use crate::herdr::json::{
    json_list, json_member, json_object, json_quoted, json_value, list, member, object, parse,
    quoted, text_at, text_member,
};
use crate::strings::{head_of, opt_text, owned, same, texts, trim, trim_str, within};
use vstd::prelude::*;
use vstd::string::*;

verus! {

/// How long a single request may take, in nanoseconds.
pub const REQUEST_TIMEOUT: u128 = 10_000_000_000;

/// An error the server itself reported.
#[derive(Debug)]
pub struct ApiError {
    pub code: String,
    pub message: String,
}

impl ApiError {
    pub open spec fn shown(&self) -> Seq<char> {
        "herdr api "@ + self.code@ + ": "@ + self.message@
    }

    pub fn text(&self) -> (r: String)
        ensures
            r@ == self.shown(),
    {
        let mut s: String = owned("herdr api ");
        s.append(self.code.as_str());
        s.append(": ");
        s.append(self.message.as_str());
        s
    }
}

/// Why there is no answer: the server said so, or there was none to read.
#[derive(Debug)]
pub enum Fault {
    Api(ApiError),
    Other(String),
}

impl Fault {
    pub open spec fn shown(&self) -> Seq<char> {
        match *self {
            Fault::Api(e) => e.shown(),
            Fault::Other(s) => s@,
        }
    }

    pub fn text(&self) -> (r: String)
        ensures
            r@ == self.shown(),
    {
        match self {
            Fault::Api(e) => e.text(),
            Fault::Other(s) => s.clone(),
        }
    }
}

// -------------------------------------------------------------- environment

/// The running session's socket, from `HERDR_SOCKET_PATH`.
pub fn socket_path(var: Option<String>) -> (r: Option<String>)
    ensures
        r == match var {
            Some(path) if path@.len() > 0 => Some(path),
            _ => None,
        },
{
    match var {
        Some(path) => {
            if path.as_str().is_empty() {
                None
            } else {
                Some(path)
            }
        },
        None => None,
    }
}

/// Whether this process runs inside a herdr pane, from `HERDR_ENV` and
/// `HERDR_SOCKET_PATH`.
pub fn inside_herdr(env: &Option<String>, socket: &Option<String>) -> (r: bool)
    ensures
        r == ((env matches Some(e) && e@ == "1"@) && (socket matches Some(s) && s@.len() > 0)),
{
    let marked: bool = match env {
        Some(e) => same(e.as_str(), "1"),
        None => false,
    };
    let reachable: bool = match socket {
        Some(s) => !s.as_str().is_empty(),
        None => false,
    };
    marked && reachable
}

/// The herdr binary to call, from `HERDR_BIN_PATH`.
pub fn herdr_bin(var: Option<String>) -> (r: String)
    ensures
        r@ == match var {
            Some(path) if path@.len() > 0 => path@,
            _ => "herdr"@,
        },
{
    match var {
        Some(path) => {
            if path.as_str().is_empty() {
                owned("herdr")
            } else {
                path
            }
        },
        None => owned("herdr"),
    }
}

// ------------------------------------------------------------------ a line

/// What one line from the server holds: nothing, or a value.
pub open spec fn line_value(line: Seq<char>) -> Result<Option<Seq<char>>, Seq<char>> {
    if trim(line).len() == 0 {
        Ok(None)
    } else {
        match json_value(trim(line)) {
            Ok(json) => Ok(Some(json)),
            Err(e) => Err(not_json(trim(line), e)),
        }
    }
}

/// What is said of a line that is no JSON.
pub open spec fn not_json(line: Seq<char>, cause: Seq<char>) -> Seq<char> {
    "herdr sent something that is not JSON: "@ + within(line, 200) + ": "@ + cause
}

/// Read one line as JSON: nothing, where the line is empty.
pub fn read_json(line: &str) -> (r: Result<Option<String>, String>)
    ensures
        match r {
            Ok(o) => line_value(line@) == Ok::<Option<Seq<char>>, Seq<char>>(opt_text(o)),
            Err(e) => line_value(line@) == Err::<Option<Seq<char>>, Seq<char>>(e@),
        },
{
    let text: String = trim_str(line);
    let parsed: Result<String, String> = parse(text.as_str());
    read_parsed(text.as_str(), parsed)
}

/// What a line that is trimmed holds, when parsing it gave `parsed`.
pub fn read_parsed(text: &str, parsed: Result<String, String>) -> (r: Result<Option<String>, String>)
    ensures
        match r {
            Ok(None) => text@.len() == 0,
            Ok(Some(json)) => text@.len() > 0 && parsed == Ok::<String, String>(json),
            Err(e) => text@.len() > 0 && (parsed matches Err(cause) && e@ == not_json(
                text@,
                cause@,
            )),
        },
{
    if text.is_empty() {
        return Ok(None);
    }
    match parsed {
        Ok(json) => Ok(Some(json)),
        Err(cause) => {
            let mut e: String = owned("herdr sent something that is not JSON: ");
            e.append(head_of(text, 200).as_str());
            e.append(": ");
            e.append(cause.as_str());
            Err(e)
        },
    }
}

// ------------------------------------------------------------------- replies

/// The error an envelope carries, from what its `error` says.
pub open spec fn error_from(code: Option<Seq<char>>, message: Option<Seq<char>>) -> (
    Seq<char>,
    Seq<char>,
) {
    (
        match code {
            Some(c) => c,
            None => "unknown"@,
        },
        match message {
            Some(m) => m,
            None => "(no message)"@,
        },
    )
}

/// The error with these parts.
pub fn api_error(code: Option<String>, message: Option<String>) -> (r: ApiError)
    ensures
        (r.code@, r.message@) == error_from(opt_text(code), opt_text(message)),
{
    ApiError {
        code: match code {
            Some(c) => c,
            None => owned("unknown"),
        },
        message: match message {
            Some(m) => m,
            None => owned("(no message)"),
        },
    }
}

/// Whether a result is what an envelope holds.
pub open spec fn unwraps(envelope: Seq<char>, r: Result<String, Fault>) -> bool {
    match json_member(envelope, "error"@) {
        Some(error) => match r {
            Err(Fault::Api(e)) => (e.code@, e.message@) == error_from(
                text_member(error, "code"@),
                text_member(error, "message"@),
            ),
            _ => false,
        },
        None => match json_member(envelope, "result"@) {
            Some(result) => match r {
                Ok(json) => json@ == result,
                _ => false,
            },
            None => match r {
                Err(Fault::Other(s)) => s@ == "herdr replied without a result: "@ + envelope,
                _ => false,
            },
        },
    }
}

/// Turn an envelope into its `result`, or into the error it carries.
pub fn unwrap_envelope(envelope: &str) -> (r: Result<String, Fault>)
    ensures
        unwraps(envelope@, r),
{
    if let Some(error) = member(envelope, "error") {
        let code: Option<String> = text_at(error.as_str(), "code");
        let message: Option<String> = text_at(error.as_str(), "message");
        return Err(Fault::Api(api_error(code, message)));
    }
    let result: Option<String> = member(envelope, "result");
    unwrap_result(envelope, result)
}

/// The result of an envelope that carries no error.
pub fn unwrap_result(envelope: &str, result: Option<String>) -> (r: Result<String, Fault>)
    ensures
        match result {
            Some(json) => r == Ok::<String, Fault>(json),
            None => r matches Err(Fault::Other(s)) && s@ == "herdr replied without a result: "@
                + envelope@,
        },
{
    match result {
        Some(json) => Ok(json),
        None => {
            let mut e: String = owned("herdr replied without a result: ");
            e.append(envelope);
            Err(Fault::Other(e))
        },
    }
}

/// The line that asks for a method.
pub open spec fn request_text(method: Seq<char>, params: Seq<char>) -> Seq<char> {
    json_object(
        seq![
            ("id"@, json_quoted("sheep:"@ + method)),
            ("method"@, json_quoted(method)),
            ("params"@, params),
        ],
    ) + "\n"@
}

/// The line that asks for a method, with its parameters as JSON.
pub fn request(method: &str, params: &str) -> (r: String)
    ensures
        r@ == request_text(method@, params@),
{
    let mut id: String = owned("sheep:");
    id.append(method);
    let mut fields: Vec<(String, String)> = Vec::new();
    fields.push((owned("id"), quoted(id.as_str())));
    fields.push((owned("method"), quoted(method)));
    fields.push((owned("params"), owned(params)));
    proof {
        assert(pairs(fields@) =~= seq![
            ("id"@, json_quoted("sheep:"@ + method@)),
            ("method"@, json_quoted(method@)),
            ("params"@, params@),
        ]);
    }
    let mut line: String = object(&fields);
    line.append("\n");
    line
}

/// Whether a result is what came back for a method: `line` is the line the
/// server sent, if it sent one.
pub open spec fn answers(method: Seq<char>, line: Option<Seq<char>>, r: Result<String, Fault>) -> bool {
    match line {
        None => match r {
            Err(Fault::Other(s)) => s@ == "herdr closed the connection without replying to `"@ + method
                + "`"@,
            _ => false,
        },
        Some(line) => match line_value(line) {
            Err(e) => match r {
                Err(Fault::Other(s)) => s@ == e,
                _ => false,
            },
            Ok(None) => unwraps("null"@, r),
            Ok(Some(json)) => unwraps(json, r),
        },
    }
}

/// What came back for a method.
pub fn reply(method: &str, line: &Option<String>) -> (r: Result<String, Fault>)
    ensures
        answers(method@, opt_text(*line), r),
{
    match line {
        None => {
            let mut e: String = owned("herdr closed the connection without replying to `");
            e.append(method);
            e.append("`");
            Err(Fault::Other(e))
        },
        Some(line) => match read_json(line.as_str()) {
            Err(e) => Err(Fault::Other(e)),
            Ok(None) => unwrap_envelope("null"),
            Ok(Some(json)) => unwrap_envelope(json.as_str()),
        },
    }
}

// ------------------------------------------------------------- subscriptions

/// A topic that carries no parameters.
pub open spec fn topic_text(kind: Seq<char>) -> Seq<char> {
    json_object(seq![("type"@, json_quoted(kind))])
}

/// A topic that carries no parameters.
pub fn topic(kind: &str) -> (r: String)
    ensures
        r@ == topic_text(kind@),
{
    let mut fields: Vec<(String, String)> = Vec::new();
    fields.push((owned("type"), quoted(kind)));
    proof {
        assert(pairs(fields@) =~= seq![("type"@, json_quoted(kind@))]);
    }
    object(&fields)
}

/// The topic of one pane's agent status.
pub fn topic_agent_status(pane_id: &str) -> (r: String)
    ensures
        r@ == json_object(
            seq![
                ("type"@, json_quoted("pane.agent_status_changed"@)),
                ("pane_id"@, json_quoted(pane_id@)),
            ],
        ),
{
    let mut fields: Vec<(String, String)> = Vec::new();
    fields.push((owned("type"), quoted("pane.agent_status_changed")));
    fields.push((owned("pane_id"), quoted(pane_id)));
    proof {
        assert(pairs(fields@) =~= seq![
            ("type"@, json_quoted("pane.agent_status_changed"@)),
            ("pane_id"@, json_quoted(pane_id@)),
        ]);
    }
    object(&fields)
}

/// The line that subscribes to topics.
pub fn subscribe(topics: &Vec<String>) -> (r: String)
    ensures
        r@ == request_text(
            "events.subscribe"@,
            json_object(seq![("subscriptions"@, json_list(texts(topics@)))]),
        ),
{
    let mut fields: Vec<(String, String)> = Vec::new();
    fields.push((owned("subscriptions"), list(topics)));
    proof {
        assert(pairs(fields@) =~= seq![("subscriptions"@, json_list(texts(topics@)))]);
    }
    let params: String = object(&fields);
    request("events.subscribe", params.as_str())
}

/// Whether the first line of a subscription acknowledges it.
pub fn acknowledged(line: &Option<String>) -> (r: Result<(), Fault>)
    ensures
        match opt_text(*line) {
            None => r matches Err(Fault::Other(s)) && s@
                == "herdr closed the connection instead of acknowledging"@,
            Some(text) => exists|result: Result<String, Fault>| #[trigger]
                answers("events.subscribe"@, Some(text), result) && acknowledges(result, r),
        },
{
    if line.is_none() {
        return Err(Fault::Other(owned("herdr closed the connection instead of acknowledging")));
    }
    let result: Result<String, Fault> = reply("events.subscribe", line);
    match result {
        Err(f) => {
            proof {
                assert(answers("events.subscribe"@, opt_text(*line), Err(f)));
            }
            Err(f)
        },
        Ok(json) => {
            let kind: Option<String> = text_at(json.as_str(), "type");
            let r = acknowledged_by(kind);
            proof {
                assert(answers("events.subscribe"@, opt_text(*line), Ok(json)));
            }
            r
        },
    }
}

/// Whether an answer to a subscription is an acknowledgement.
pub open spec fn acknowledges(result: Result<String, Fault>, r: Result<(), Fault>) -> bool {
    match result {
        Err(f) => r == Err::<(), Fault>(f),
        Ok(json) => is_acknowledgement(text_member(json@, "type"@), r),
    }
}

/// Whether an answer with this `type` is an acknowledgement.
pub open spec fn is_acknowledgement(kind: Option<Seq<char>>, r: Result<(), Fault>) -> bool {
    if kind == Some("subscription_started"@) {
        r is Ok
    } else {
        match r {
            Err(Fault::Other(s)) => s@ == "herdr answered a subscription with `"@ + (match kind {
                Some(k) => k,
                None => Seq::empty(),
            }) + "` instead of subscription_started"@,
            _ => false,
        }
    }
}

/// Whether an answer with this `type` is an acknowledgement.
pub fn acknowledged_by(kind: Option<String>) -> (r: Result<(), Fault>)
    ensures
        is_acknowledgement(opt_text(kind), r),
{
    let named: String = match kind {
        Some(k) => k,
        None => String::new(),
    };
    if same(named.as_str(), "subscription_started") {
        proof {
            if kind is None {
                reveal_strlit("subscription_started");
                assert(named@.len() == 0);
            }
        }
        return Ok(());
    }
    proof {
        if kind is None {
            assert(named@ =~= Seq::<char>::empty());
        }
    }
    let mut e: String = owned("herdr answered a subscription with `");
    e.append(named.as_str());
    e.append("` instead of subscription_started");
    Err(Fault::Other(e))
}

/// One event pushed by a subscription.
#[derive(Debug)]
pub struct Event {
    /// Underscore-separated event name, e.g. `pane_updated`.
    pub kind: String,
    /// The event's data, as JSON.
    pub data: String,
}

impl Event {
    pub fn pane_id(&self) -> (r: Option<String>)
        ensures
            opt_text(r) == text_member(self.data@, "pane_id"@),
    {
        text_at(self.data.as_str(), "pane_id")
    }

    pub fn workspace_id(&self) -> (r: Option<String>)
        ensures
            opt_text(r) == text_member(self.data@, "workspace_id"@),
    {
        text_at(self.data.as_str(), "workspace_id")
    }

    pub fn str_field(&self, key: &str) -> (r: Option<String>)
        ensures
            opt_text(r) == text_member(self.data@, key@),
    {
        text_at(self.data.as_str(), key)
    }
}

/// What one line of a subscription amounts to.
#[derive(Debug)]
pub enum Heard {
    /// Nothing to report: wait for the next line.
    Nothing,
    Event(Event),
    Failed(String),
}

/// What a value from a subscription amounts to, from what it holds.
pub open spec fn hears(
    error: Option<Seq<char>>,
    kind: Option<Seq<char>>,
    data: Option<Seq<char>>,
    r: Heard,
) -> bool {
    match error {
        Some(e) => match r {
            Heard::Failed(s) => s@ == "herdr ended the subscription: "@ + e,
            _ => false,
        },
        None => match kind {
            None => r is Nothing,
            Some(k) => match r {
                Heard::Event(event) => event.kind@ == k && event.data@ == (match data {
                    Some(d) => d,
                    None => "null"@,
                }),
                _ => false,
            },
        },
    }
}

/// What a value from a subscription amounts to, from what it holds.
pub fn heard(error: Option<String>, kind: Option<String>, data: Option<String>) -> (r: Heard)
    ensures
        hears(opt_text(error), opt_text(kind), opt_text(data), r),
{
    if let Some(e) = error {
        let mut s: String = owned("herdr ended the subscription: ");
        s.append(e.as_str());
        return Heard::Failed(s);
    }
    match kind {
        None => Heard::Nothing,
        Some(kind) => Heard::Event(
            Event {
                kind,
                data: match data {
                    Some(d) => d,
                    None => owned("null"),
                },
            },
        ),
    }
}

/// What one line of a subscription amounts to.
pub fn next_event(line: &str) -> (r: Heard)
    ensures
        match line_value(line@) {
            Err(e) => r matches Heard::Failed(s) && s@ == e,
            Ok(None) => r is Nothing,
            Ok(Some(json)) => hears(
                json_member(json, "error"@),
                text_member(json, "event"@),
                json_member(json, "data"@),
                r,
            ),
        },
{
    match read_json(line) {
        Err(e) => Heard::Failed(e),
        Ok(None) => Heard::Nothing,
        Ok(Some(json)) => {
            let error: Option<String> = member(json.as_str(), "error");
            let kind: Option<String> = text_at(json.as_str(), "event");
            let data: Option<String> = member(json.as_str(), "data");
            heard(error, kind, data)
        },
    }
}

} // verus!
