//! Client of the external ASR (speech recognition) HTTP service: its fixed
//! address and model, and the reading of the service's answer.
use vstd::prelude::*;

verus! {

#[verifier::external_type_specification]
#[verifier::external_body]
pub struct ExHttpClient(reqwest::blocking::Client);

/// Address of the ASR service.
pub const ASR_BASE_URL: &'static str = "http://127.0.0.1:8001";

/// Model the ASR service is asked to use.
pub const ASR_MODEL: &'static str = "qwen3-asr-0.6b";

/// Address of the transcription endpoint.
pub const ASR_TRANSCRIPTIONS_URL: &'static str = "http://127.0.0.1:8001/v1/audio/transcriptions";

/// Time allowed for one request, in seconds.
pub const REQUEST_TIMEOUT_SECS: u64 = 60;

/// Name of the multipart field that carries the audio.
pub const AUDIO_FIELD: &'static str = "file";

/// File name given to the audio part.
pub const AUDIO_FILE_NAME: &'static str = "audio.wav";

/// MIME type of the audio part.
pub const AUDIO_MIME: &'static str = "audio/wav";

/// Name of the multipart field that names the model.
pub const MODEL_FIELD: &'static str = "model";

/// Message of [`AsrError::ClientBuild`].
pub const CLIENT_BUILD_MESSAGE: &'static str = "Failed to create HTTP client";

/// Start of the message of [`AsrError::Status`].
pub const STATUS_ERROR_PREFIX: &'static str = "ASR API error: ";

/// Between the status and the body in the message of [`AsrError::Status`].
pub const STATUS_BODY_SEPARATOR: &'static str = " - ";

/// Why a transcription by the ASR service failed.
#[derive(Debug)]
pub enum AsrError {
    /// The HTTP client could not be built; the cause.
    ClientBuild(String),
    /// The service answered with a status outside 200..=299: the status as
    /// text (code and reason phrase) and the body of the answer.
    Status { status: String, body: String },
}

/// The message of each error.
pub open spec fn asr_error_message(e: AsrError) -> Seq<char> {
    match e {
        AsrError::ClientBuild(_) => CLIENT_BUILD_MESSAGE@,
        AsrError::Status { status, body } => STATUS_ERROR_PREFIX@ + status@ + STATUS_BODY_SEPARATOR@
            + body@,
    }
}

impl AsrError {
    /// The text that describes the error.
    pub fn message(&self) -> (text: String)
        ensures
            text@ == asr_error_message(*self),
    {
        match self {
            AsrError::ClientBuild(_) => CLIENT_BUILD_MESSAGE.to_owned(),
            AsrError::Status { status, body } => {
                let mut text = STATUS_ERROR_PREFIX.to_owned();
                text.append(status.as_str());
                text.append(STATUS_BODY_SEPARATOR);
                text.append(body.as_str());
                text
            },
        }
    }
}

/// Whether an HTTP status code means success (200 to 299).
pub open spec fn is_success_status(code: u16) -> bool {
    200 <= code && code < 300
}

/// Whether the service's answer has a success status (200 to 299), so that
/// its body is the transcription; any other status is an [`AsrError::Status`].
pub fn status_is_success(code: u16) -> (success: bool)
    ensures
        success == is_success_status(code),
{
    200 <= code && code < 300
}

/// A status is a success exactly when it is one of 200 to 299: informational
/// and redirection statuses, every client error (400 to 499) and every
/// server error (500 to 599) are failures.
pub proof fn law_success_is_2xx(code: u16)
    ensures
        is_success_status(code) <==> (200 <= code && code <= 299),
        400 <= code <= 599 ==> !is_success_status(code),
        code < 200 ==> !is_success_status(code),
{
}

/// A transcription request, as plain values: where it goes, and the two
/// fields of its multipart form.
pub struct TranscriptionRequest {
    /// Address of the endpoint.
    pub url: String,
    /// Name of the field that carries the audio.
    pub audio_field: String,
    /// File name given to the audio.
    pub file_name: String,
    /// MIME type of the audio.
    pub mime: String,
    /// The WAV bytes sent.
    pub audio: Vec<u8>,
    /// Name of the field that names the model.
    pub model_field: String,
    /// The model asked for.
    pub model: String,
}

/// The request that sends `wav_data` to the transcription endpoint: the
/// audio as the `file` field (`audio.wav`, `audio/wav`) and the model's name
/// as the `model` field.
pub fn transcription_request(wav_data: &[u8]) -> (request: TranscriptionRequest)
    ensures
        request.url@ == ASR_TRANSCRIPTIONS_URL@,
        request.audio_field@ == AUDIO_FIELD@,
        request.file_name@ == AUDIO_FILE_NAME@,
        request.mime@ == AUDIO_MIME@,
        request.audio@ == wav_data@,
        request.model_field@ == MODEL_FIELD@,
        request.model@ == ASR_MODEL@,
{
    let mut audio: Vec<u8> = Vec::with_capacity(wav_data.len());
    let n = wav_data.len();
    let mut i: usize = 0;
    while i < n
        invariant
            i <= n,
            n == wav_data@.len(),
            audio@ == wav_data@.take(i as int),
        decreases n - i,
    {
        audio.push(wav_data[i]);
        assert(wav_data@.take(i + 1) =~= wav_data@.take(i as int).push(wav_data@[i as int]));
        i = i + 1;
    }
    assert(wav_data@.take(n as int) =~= wav_data@);
    TranscriptionRequest {
        url: ASR_TRANSCRIPTIONS_URL.to_owned(),
        audio_field: AUDIO_FIELD.to_owned(),
        file_name: AUDIO_FILE_NAME.to_owned(),
        mime: AUDIO_MIME.to_owned(),
        audio,
        model_field: MODEL_FIELD.to_owned(),
        model: ASR_MODEL.to_owned(),
    }
}

/// Client of the external ASR service.
pub struct ExternalASRClient {
    base_url: String,
    model: String,
    client: reqwest::blocking::Client,
}

impl ExternalASRClient {
    /// The address of the service, as text.
    pub closed spec fn url_text(&self) -> Seq<char> {
        self.base_url@
    }

    /// The model's name, as text.
    pub closed spec fn model_text(&self) -> Seq<char> {
        self.model@
    }

    /// The HTTP client the service is reached with.
    pub closed spec fn held_client(&self) -> reqwest::blocking::Client {
        self.client
    }

    /// A client of the service at its fixed address, for its fixed model,
    /// from the outcome of building the HTTP client (built by the caller,
    /// with a timeout of `REQUEST_TIMEOUT_SECS` seconds): a built client is
    /// the one held; a failure to build is a [`AsrError::ClientBuild`] with
    /// the text of the failure.
    pub fn new(built: Result<reqwest::blocking::Client, String>) -> (r: Result<
        ExternalASRClient,
        AsrError,
    >)
        ensures
            match built {
                Ok(client) => r matches Ok(c) && c.url_text() == ASR_BASE_URL@ && c.model_text()
                    == ASR_MODEL@ && c.held_client() == client,
                Err(cause) => r == Err::<ExternalASRClient, AsrError>(AsrError::ClientBuild(cause)),
            },
    {
        match built {
            Ok(client) => Ok(
                ExternalASRClient {
                    base_url: ASR_BASE_URL.to_owned(),
                    model: ASR_MODEL.to_owned(),
                    client,
                },
            ),
            Err(cause) => Err(AsrError::ClientBuild(cause)),
        }
    }

    /// The address of the service.
    pub fn base_url(&self) -> (url: &String)
        ensures
            url@ == self.url_text(),
    {
        &self.base_url
    }

    /// The model the service is asked to use.
    pub fn model(&self) -> (model: &String)
        ensures
            model@ == self.model_text(),
    {
        &self.model
    }

    /// The HTTP client.
    pub fn http_client(&self) -> (client: &reqwest::blocking::Client)
        ensures
            *client == self.held_client(),
    {
        &self.client
    }
}

} // verus!
