//! The Qwen3 speech recognition engine: its state (the model it serves and
//! whether its server process runs), the rules of its server's start-up
//! handshake, and the reading of the server's replies.
use vstd::prelude::*;
use crate::text::{trim, trimmed};

verus! {

/// Parameters of one transcription.
#[derive(Debug, Clone)]
pub struct Qwen3InferenceParams {
    pub language: Option<String>,
}

impl Default for Qwen3InferenceParams {
    fn default() -> (params: Self)
        ensures
            params.language is None,
    {
        Qwen3InferenceParams { language: None }
    }
}

/// Result of one transcription.
#[derive(Debug, Clone)]
pub struct Qwen3TranscriptionResult {
    pub text: String,
    pub language: Option<String>,
}

/// Why an operation of the engine failed.
#[derive(Debug)]
pub enum Qwen3Error {
    /// No model is loaded.
    ModelNotLoaded,
    /// No candidate interpreter can run the server; the full message.
    NoCompatiblePython(String),
    /// The server did not report that it is ready in time.
    StartupTimeout,
    /// The server ended before it was ready; what it wrote to its error stream.
    ServerExited(String),
    /// The server's reply is not JSON; the parser's message.
    InvalidReply(String),
    /// The server reported an error; the JSON text of its `error` field.
    Server(String),
    /// Talking to the server process failed; the description of the failure.
    Io(String),
}

/// Start of the message of [`Qwen3Error::ServerExited`].
pub const SERVER_EXITED_PREFIX: &'static str = "Qwen3 server process ended unexpectedly: ";

/// Start of the message of [`Qwen3Error::Server`].
pub const SERVER_ERROR_PREFIX: &'static str = "Qwen3 error: ";

/// Message of [`Qwen3Error::ModelNotLoaded`].
pub const MODEL_NOT_LOADED: &'static str = "Model not loaded";

/// Message of [`Qwen3Error::StartupTimeout`].
pub const STARTUP_TIMEOUT_MESSAGE: &'static str = "Timeout waiting for Qwen3 server to be ready";

/// The message of each error.
pub open spec fn error_message(e: Qwen3Error) -> Seq<char> {
    match e {
        Qwen3Error::ModelNotLoaded => MODEL_NOT_LOADED@,
        Qwen3Error::NoCompatiblePython(m) => m@,
        Qwen3Error::StartupTimeout => STARTUP_TIMEOUT_MESSAGE@,
        Qwen3Error::ServerExited(stderr) => SERVER_EXITED_PREFIX@ + stderr@,
        Qwen3Error::InvalidReply(m) => m@,
        Qwen3Error::Server(rendered) => SERVER_ERROR_PREFIX@ + rendered@,
        Qwen3Error::Io(m) => m@,
    }
}

impl Qwen3Error {
    /// The text that describes the error.
    pub fn message(&self) -> (text: String)
        ensures
            text@ == error_message(*self),
    {
        match self {
            Qwen3Error::ModelNotLoaded => MODEL_NOT_LOADED.to_owned(),
            Qwen3Error::NoCompatiblePython(m) => m.clone(),
            Qwen3Error::StartupTimeout => STARTUP_TIMEOUT_MESSAGE.to_owned(),
            Qwen3Error::ServerExited(stderr) => {
                let mut text = SERVER_EXITED_PREFIX.to_owned();
                text.append(stderr.as_str());
                text
            },
            Qwen3Error::InvalidReply(m) => m.clone(),
            Qwen3Error::Server(rendered) => {
                let mut text = SERVER_ERROR_PREFIX.to_owned();
                text.append(rendered.as_str());
                text
            },
            Qwen3Error::Io(m) => m.clone(),
        }
    }
}

/// The engine seen from outside: the model it serves, and whether its server
/// process runs.
pub struct EngineState {
    pub model: Option<Seq<char>>,
    pub server_running: bool,
}

/// The Qwen3 engine. The server process itself is held by the caller; the
/// engine records which model it serves and whether the process runs.
pub struct Qwen3Engine {
    model_path: Option<String>,
    server_running: bool,
}

impl View for Qwen3Engine {
    type V = EngineState;

    closed spec fn view(&self) -> EngineState {
        EngineState {
            model: match self.model_path {
                Some(m) => Some(m@),
                None => None,
            },
            server_running: self.server_running,
        }
    }
}

/// What a transcription needs before the request can be sent.
pub enum TranscriptionPlan {
    /// No model is loaded: the transcription fails.
    NotLoaded,
    /// The server must be started for this model first.
    StartServer(Seq<char>),
    /// The server runs: send the request.
    Ready,
}

/// The plan of a transcription in state `s`.
pub open spec fn transcription_plan(s: EngineState) -> TranscriptionPlan {
    match s.model {
        None => TranscriptionPlan::NotLoaded,
        Some(m) => if s.server_running {
            TranscriptionPlan::Ready
        } else {
            TranscriptionPlan::StartServer(m)
        },
    }
}

/// The state after loading `name`, the server having started or not.
pub open spec fn after_load(s: EngineState, name: Seq<char>, started: bool) -> EngineState {
    if started {
        EngineState { model: Some(name), server_running: true }
    } else {
        s
    }
}

/// The state after unloading.
pub open spec fn after_unload(s: EngineState) -> EngineState {
    EngineState { model: None, server_running: false }
}

/// The state of a copy: the same model, without a server of its own.
pub open spec fn copy_state(s: EngineState) -> EngineState {
    EngineState { model: s.model, server_running: false }
}

/// The state after a server start, successful or not.
pub open spec fn after_server_start(s: EngineState, started: bool) -> EngineState {
    if started {
        EngineState { model: s.model, server_running: true }
    } else {
        s
    }
}

impl Qwen3Engine {
    /// An engine with no model and no server.
    pub fn new() -> (engine: Self)
        ensures
            engine@ == (EngineState { model: None, server_running: false }),
    {
        Qwen3Engine { model_path: None, server_running: false }
    }

    /// The name of the model served, if one is loaded.
    pub fn model_path(&self) -> (model: Option<String>)
        ensures
            match model {
                Some(m) => self@.model == Some(m@),
                None => self@.model is None,
            },
    {
        match &self.model_path {
            Some(m) => Some(m.clone()),
            None => None,
        }
    }

    /// Whether the server process runs.
    pub fn is_server_running(&self) -> (running: bool)
        ensures
            running == self@.server_running,
    {
        self.server_running
    }

    /// Loads the model `mlx_model_name`: `server_start` is the outcome of
    /// checking the interpreter and starting a server for that model. On
    /// success the engine serves the model from the new server; on failure
    /// the error is returned and the engine is unchanged.
    pub fn load_model(&mut self, mlx_model_name: &str, server_start: Result<(), Qwen3Error>) -> (r:
        Result<(), Qwen3Error>)
        ensures
            final(self)@ == after_load(old(self)@, mlx_model_name@, server_start is Ok),
            r == server_start,
    {
        if server_start.is_ok() {
            self.server_running = true;
            self.model_path = Some(mlx_model_name.to_owned());
        }
        server_start
    }

    /// Unloads the model. Returns whether a server was running, which the
    /// caller then stops.
    pub fn unload_model(&mut self) -> (stop_server: bool)
        ensures
            final(self)@ == after_unload(old(self)@),
            stop_server == old(self)@.server_running,
    {
        let stop_server = self.server_running;
        self.model_path = None;
        self.server_running = false;
        stop_server
    }

    /// What a transcription needs first: it fails when no model is loaded;
    /// it names the model whose server must be started when none runs;
    /// otherwise it is ready.
    pub fn prepare_transcription(&self) -> (r: Result<Option<String>, Qwen3Error>)
        ensures
            match transcription_plan(self@) {
                TranscriptionPlan::NotLoaded => r == Err::<Option<String>, Qwen3Error>(
                    Qwen3Error::ModelNotLoaded,
                ),
                TranscriptionPlan::StartServer(m) => r matches Ok(Some(name)) && name@ == m,
                TranscriptionPlan::Ready => r == Ok::<Option<String>, Qwen3Error>(None),
            },
    {
        match &self.model_path {
            None => Err(Qwen3Error::ModelNotLoaded),
            Some(m) => if self.server_running {
                Ok(None)
            } else {
                Ok(Some(m.clone()))
            },
        }
    }

    /// Records the outcome of starting the server for the loaded model: on
    /// success the server runs; on failure the error is returned and the
    /// engine is unchanged.
    pub fn record_server_start(&mut self, started: Result<(), Qwen3Error>) -> (r: Result<
        (),
        Qwen3Error,
    >)
        ensures
            final(self)@ == after_server_start(old(self)@, started is Ok),
            r == started,
    {
        if started.is_ok() {
            self.server_running = true;
        }
        started
    }
}

impl Default for Qwen3Engine {
    fn default() -> (engine: Self)
        ensures
            engine@ == (EngineState { model: None, server_running: false }),
    {
        Qwen3Engine::new()
    }
}

impl Clone for Qwen3Engine {
    /// A copy serves the same model but has no server process of its own;
    /// it starts one when it first transcribes.
    fn clone(&self) -> (copy: Self)
        ensures
            copy@ == copy_state(self@),
    {
        Qwen3Engine {
            model_path: match &self.model_path {
                Some(m) => Some(m.clone()),
                None => None,
            },
            server_running: false,
        }
    }
}

/// A successful load leaves the engine ready to send a transcription at once,
/// serving the model just loaded; a failed load leaves it as it was.
pub proof fn law_load_then_transcribe(s: EngineState, name: Seq<char>)
    ensures
        transcription_plan(after_load(s, name, true)) == TranscriptionPlan::Ready,
        after_load(s, name, true).model == Some(name),
        after_load(s, name, false) == s,
{
}

/// Whatever the state, after unloading a transcription fails for want of a
/// model, and a running server was reported for stopping.
pub proof fn law_unload_then_transcribe(s: EngineState)
    ensures
        transcription_plan(after_unload(s)) == TranscriptionPlan::NotLoaded,
        !after_unload(s).server_running,
{
}

/// A copy of an engine serves the same model but must first start a server
/// of its own for it; once that start succeeds the copy is ready, and a
/// failed start leaves it waiting for a server still.
pub proof fn law_copy_starts_own_server(s: EngineState)
    requires
        s.model is Some,
    ensures
        transcription_plan(copy_state(s)) == TranscriptionPlan::StartServer(s.model->0),
        transcription_plan(after_server_start(copy_state(s), true)) == TranscriptionPlan::Ready,
        after_server_start(copy_state(s), false) == copy_state(s),
{
}

/// The line the server prints once its model is loaded.
pub const READY_SIGNAL: &'static str = "READY";

/// How long the server may take to report that it is ready, in seconds.
pub const STARTUP_TIMEOUT_SECS: u64 = 30;

/// Whether a line printed by the server during start-up, once stripped of
/// surrounding white space, is the ready signal.
pub fn is_ready_line(line: &str) -> (ready: bool)
    ensures
        ready == (trimmed(line@) == READY_SIGNAL@),
{
    let content = trim(line).to_owned();
    let signal = READY_SIGNAL.to_owned();
    content == signal
}

/// Whether a start-up that has lasted `elapsed_nanos` nanoseconds has
/// outlasted the time the server is given.
pub fn startup_timed_out(elapsed_nanos: u128) -> (expired: bool)
    ensures
        expired == (elapsed_nanos > STARTUP_TIMEOUT_SECS * 1_000_000_000),
{
    elapsed_nanos > (STARTUP_TIMEOUT_SECS as u128) * 1_000_000_000
}

/// What reading one line of the server's output during start-up gave.
pub enum StartupRead {
    /// A line (with its line ending).
    Line(String),
    /// The end of the output: the server has ended.
    Eof,
    /// Reading failed; the description of the failure.
    Failed(String),
}

/// What to do after reading one line during start-up.
pub enum StartupDecision {
    /// The server is ready: keep its streams.
    Ready,
    /// Log the line and read the next one.
    KeepWaiting,
    /// The server ended: collect its error output and fail with
    /// [`Qwen3Error::ServerExited`].
    ServerEnded,
    /// Stop the server and fail with this error.
    Abort(Qwen3Error),
}

/// Decides what a start-up read means: the ready signal ends the wait, any
/// other line is waited past, the end of the output means the server died,
/// and a failed read aborts the start.
pub fn startup_decision(read: StartupRead) -> (decision: StartupDecision)
    ensures
        match read {
            StartupRead::Line(line) => if trimmed(line@) == READY_SIGNAL@ {
                decision is Ready
            } else {
                decision is KeepWaiting
            },
            StartupRead::Eof => decision is ServerEnded,
            StartupRead::Failed(e) => decision == StartupDecision::Abort(Qwen3Error::Io(e)),
        },
{
    match read {
        StartupRead::Line(line) => if is_ready_line(line.as_str()) {
            StartupDecision::Ready
        } else {
            StartupDecision::KeepWaiting
        },
        StartupRead::Eof => StartupDecision::ServerEnded,
        StartupRead::Failed(e) => StartupDecision::Abort(Qwen3Error::Io(e)),
    }
}

/// The fields of a server reply that the engine reads: the JSON text of its
/// `error` field, and its `text` and `language` fields when they are strings.
pub struct ReplyFields {
    pub error: Option<String>,
    pub text: Option<String>,
    pub language: Option<String>,
}

/// The text of an optional string.
pub open spec fn opt_text(o: Option<String>) -> Option<Seq<char>> {
    match o {
        Some(s) => Some(s@),
        None => None,
    }
}

impl ReplyFields {
    /// The three fields as texts.
    pub open spec fn texts(&self) -> (Option<Seq<char>>, Option<Seq<char>>, Option<Seq<char>>) {
        (opt_text(self.error), opt_text(self.text), opt_text(self.language))
    }
}

/// Key of the reply field that reports a failure.
pub const ERROR_KEY: &'static str = "error";

/// Key of the reply field that holds the transcribed text.
pub const TEXT_KEY: &'static str = "text";

/// Key of the reply field that names the detected language.
pub const LANGUAGE_KEY: &'static str = "language";

/// What `serde_json` gives for field `key` of the JSON value in `line`:
/// `None` when the line is not JSON; otherwise the compact JSON text of the
/// field, or `None` inside when the value has no such field.
pub uninterp spec fn json_field_text(line: Seq<char>, key: Seq<char>) -> Option<Option<Seq<char>>>;

/// What `serde_json` gives for field `key` of the JSON value in `line`:
/// `None` when the line is not JSON; otherwise the field's content when it is
/// a JSON string, or `None` inside when it is absent or not a string.
pub uninterp spec fn json_field_str(line: Seq<char>, key: Seq<char>) -> Option<Option<Seq<char>>>;

#[verifier::external_type_specification]
#[verifier::external_body]
pub struct ExJsonError(serde_json::Error);

/// Parses `line` with `serde_json::from_str` into a `serde_json::Value`,
/// takes its field `key` with `Value::get` and renders it with the `Display`
/// of `Value` (compact JSON). The contract claims that the outcome is a
/// function of the line and the key alone, named `json_field_text`.
#[verifier::external_body]
fn field_json_text(line: &str, key: &str) -> (field: Result<Option<String>, serde_json::Error>)
    ensures
        match field {
            Ok(f) => json_field_text(line@, key@) == Some(opt_text(f)),
            Err(_) => json_field_text(line@, key@) is None,
        },
{
    let value: serde_json::Value = serde_json::from_str(line)?;
    Ok(value.get(key).map(serde_json::Value::to_string))
}

/// Parses `line` with `serde_json::from_str` into a `serde_json::Value`,
/// takes its field `key` with `Value::get` and reads it with `Value::as_str`.
/// The contract claims that the outcome is a function of the line and the
/// key alone, named `json_field_str`.
#[verifier::external_body]
fn field_str(line: &str, key: &str) -> (field: Result<Option<String>, serde_json::Error>)
    ensures
        match field {
            Ok(f) => json_field_str(line@, key@) == Some(opt_text(f)),
            Err(_) => json_field_str(line@, key@) is None,
        },
{
    let value: serde_json::Value = serde_json::from_str(line)?;
    Ok(value.get(key).and_then(serde_json::Value::as_str).map(str::to_owned))
}

/// Calls the `Display` of `serde_json::Error`: the parser's message. Nothing
/// is claimed of the text.
#[verifier::external_body]
fn json_error_text(e: &serde_json::Error) -> (text: String) {
    e.to_string()
}

/// The result of a reply whose fields are `fields`.
pub open spec fn reply_outcome(
    fields: (Option<Seq<char>>, Option<Seq<char>>, Option<Seq<char>>),
) -> Result<(Seq<char>, Option<Seq<char>>), Seq<char>> {
    match fields.0 {
        Some(rendered) => Err(rendered),
        None => Ok(
            (
                match fields.1 {
                    Some(t) => t,
                    None => Seq::<char>::empty(),
                },
                fields.2,
            ),
        ),
    }
}

/// Reads the fields of a server reply: an `error` field makes the
/// transcription fail with its JSON text; otherwise the text is the `text`
/// field (empty when it is absent or not a string) and the language is the
/// `language` field when it is a string.
pub fn interpret_reply(fields: ReplyFields) -> (r: Result<Qwen3TranscriptionResult, Qwen3Error>)
    ensures
        match reply_outcome(fields.texts()) {
            Err(rendered) => r matches Err(Qwen3Error::Server(e)) && e@ == rendered,
            Ok((text, language)) => r matches Ok(res) && res.text@ == text && opt_text(
                res.language,
            ) == language,
        },
{
    match fields.error {
        Some(rendered) => Err(Qwen3Error::Server(rendered)),
        None => {
            let text = match fields.text {
                Some(t) => t,
                None => String::new(),
            };
            Ok(Qwen3TranscriptionResult { text, language: fields.language })
        },
    }
}

/// The outcome of a reply line: `None` when it is not JSON; otherwise the
/// JSON text of its `error` field when it has one, or else its text (empty
/// when the `text` field is absent or not a string) and its language.
pub open spec fn reply_result(line: Seq<char>) -> Option<
    Result<(Seq<char>, Option<Seq<char>>), Seq<char>>,
> {
    match json_field_text(line, ERROR_KEY@) {
        None => None,
        Some(Some(rendered)) => Some(Err(rendered)),
        Some(None) => match json_field_str(line, TEXT_KEY@) {
            None => None,
            Some(text) => match json_field_str(line, LANGUAGE_KEY@) {
                None => None,
                Some(language) => Some(
                    Ok(
                        (
                            match text {
                                Some(t) => t,
                                None => Seq::<char>::empty(),
                            },
                            language,
                        ),
                    ),
                ),
            },
        },
    }
}

/// Without an `error` field, the transcription's text is the `text` field
/// whenever that is a string, whatever the `language` field holds, and it
/// is empty when there is no such string; the language is the `language`
/// field as read. With an `error` field the reply fails with that field's
/// text, whatever the other fields hold.
pub proof fn law_reply_fields(
    error: Seq<char>,
    text: Option<Seq<char>>,
    language: Option<Seq<char>>,
    t: Seq<char>,
)
    ensures
        reply_outcome((None, Some(t), language)) == Ok::<
            (Seq<char>, Option<Seq<char>>),
            Seq<char>,
        >((t, language)),
        reply_outcome((None, None, language)) == Ok::<(Seq<char>, Option<Seq<char>>), Seq<char>>(
            (Seq::<char>::empty(), language),
        ),
        reply_outcome((Some(error), text, language)) == Err::<
            (Seq<char>, Option<Seq<char>>),
            Seq<char>,
        >(error),
{
}

/// A reply line reads as its fields say: a line that is not JSON is
/// invalid; an `error` field makes it fail with that field's JSON text;
/// otherwise the text is the `text` string field, whatever the `language`
/// field holds (empty when there is no such string), and the language is the
/// `language` string field.
pub proof fn law_reply_line(
    line: Seq<char>,
    error: Seq<char>,
    text: Option<Seq<char>>,
    language: Option<Seq<char>>,
)
    ensures
        json_field_text(line, ERROR_KEY@) is None ==> reply_result(line) is None,
        json_field_text(line, ERROR_KEY@) == Some(Some(error)) ==> reply_result(line) == Some(
            Err::<(Seq<char>, Option<Seq<char>>), Seq<char>>(error),
        ),
        json_field_text(line, ERROR_KEY@) == Some(None::<Seq<char>>) && json_field_str(
            line,
            TEXT_KEY@,
        ) == Some(text) && json_field_str(line, LANGUAGE_KEY@) == Some(language) ==> reply_result(
            line,
        ) == Some(
            Ok::<(Seq<char>, Option<Seq<char>>), Seq<char>>(
                (
                    match text {
                        Some(t) => t,
                        None => Seq::<char>::empty(),
                    },
                    language,
                ),
            ),
        ),
{
}

/// Reads one reply line of the server: a line that is not JSON fails with
/// the parser's message; a reply with an `error` field fails with that
/// field's JSON text; otherwise the result holds the `text` field (empty when
/// it is absent or not a string) and the `language` field when it is a string.
pub fn parse_transcription_reply(line: &str) -> (r: Result<Qwen3TranscriptionResult, Qwen3Error>)
    ensures
        match reply_result(line@) {
            None => r matches Err(Qwen3Error::InvalidReply(_)),
            Some(Err(rendered)) => r matches Err(Qwen3Error::Server(e)) && e@ == rendered,
            Some(Ok((text, language))) => r matches Ok(res) && res.text@ == text && opt_text(
                res.language,
            ) == language,
        },
{
    let error = match field_json_text(line, ERROR_KEY) {
        Ok(error) => error,
        Err(e) => {
            return Err(Qwen3Error::InvalidReply(json_error_text(&e)));
        },
    };
    if let Some(rendered) = error {
        return Err(Qwen3Error::Server(rendered));
    }
    let text = match field_str(line, TEXT_KEY) {
        Ok(text) => text,
        Err(e) => {
            return Err(Qwen3Error::InvalidReply(json_error_text(&e)));
        },
    };
    let language = match field_str(line, LANGUAGE_KEY) {
        Ok(language) => language,
        Err(e) => {
            return Err(Qwen3Error::InvalidReply(json_error_text(&e)));
        },
    };
    interpret_reply(ReplyFields { error: None, text, language })
}

} // verus!
