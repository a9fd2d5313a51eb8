//! Verified core of the Handy speech-to-text back end: WAV encoding of PCM
//! audio, the client-side rules of the external ASR service, the choice of a
//! Python interpreter for the Qwen3 engine, and the Qwen3 engine's state.
pub mod audio_utils;
pub mod external_asr;
pub mod python_command;
pub mod qwen3_engine;
pub mod text;
