use handy::external_asr::{
    status_is_success, transcription_request, AsrError, ExternalASRClient, ASR_BASE_URL, ASR_MODEL,
    ASR_TRANSCRIPTIONS_URL, REQUEST_TIMEOUT_SECS,
};

fn built_client() -> Result<reqwest::blocking::Client, String> {
    reqwest::blocking::Client::builder()
        .timeout(std::time::Duration::from_secs(REQUEST_TIMEOUT_SECS))
        .build()
        .map_err(|e| e.to_string())
}

#[test]
fn test_client_creation() {
    let client = ExternalASRClient::new(built_client()).unwrap();
    assert_eq!(client.base_url(), "http://127.0.0.1:8001");
    assert_eq!(client.model(), "qwen3-asr-0.6b");
}

#[test]
fn endpoint_is_under_base_url() {
    assert_eq!(ASR_TRANSCRIPTIONS_URL, format!("{}/v1/audio/transcriptions", ASR_BASE_URL));
    assert_eq!(ASR_MODEL, "qwen3-asr-0.6b");
}

#[test]
fn success_statuses() {
    assert!(status_is_success(200));
    assert!(status_is_success(204));
    assert!(status_is_success(299));
    assert!(!status_is_success(199));
    assert!(!status_is_success(300));
    assert!(!status_is_success(500));
}

#[test]
fn status_error_message() {
    let err = AsrError::Status { status: "500 Internal Server Error".to_string(), body: "boom".to_string() };
    assert_eq!(err.message(), "ASR API error: 500 Internal Server Error - boom");
    let err = AsrError::Status { status: "404 Not Found".to_string(), body: String::new() };
    assert_eq!(err.message(), "ASR API error: 404 Not Found - ");
}

#[test]
fn client_build_error_message() {
    let err = AsrError::ClientBuild("no runtime".to_string());
    assert_eq!(err.message(), "Failed to create HTTP client");
}

#[test]
fn failed_build_is_a_client_build_error() {
    match ExternalASRClient::new(Err("no runtime".to_string())) {
        Err(AsrError::ClientBuild(cause)) => assert_eq!(cause, "no runtime"),
        _ => panic!("expected a build error"),
    }
}

#[test]
fn request_carries_the_audio() {
    let request = transcription_request(&[b'R', b'I', b'F', b'F', 0, 1, 2]);
    assert_eq!(request.url, "http://127.0.0.1:8001/v1/audio/transcriptions");
    assert_eq!(request.audio_field, "file");
    assert_eq!(request.file_name, "audio.wav");
    assert_eq!(request.mime, "audio/wav");
    assert_eq!(request.audio, vec![b'R', b'I', b'F', b'F', 0, 1, 2]);
    assert_eq!(request.model_field, "model");
    assert_eq!(request.model, "qwen3-asr-0.6b");
    assert!(transcription_request(&[]).audio.is_empty());
}
