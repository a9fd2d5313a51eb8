# handy

Verified core of the Handy speech-to-text back end, written in Verus.

- `src/audio_utils.rs`: mono 16-bit PCM to WAV encoding, with the proof that
  every header field and every sample reads back from its offset.
- `src/external_asr.rs`: the fixed address, model and form fields of the
  external ASR service, the request that carries the audio, the client that
  holds the HTTP client built by the caller, and the error messages.
- `src/python_command.rs`: the priority-ordered, duplicate-free list of
  Python interpreters, the probing of them one after the other, the reasons
  an interpreter is refused, and the per-process cache of the choice.
- `src/qwen3_engine.rs`: the engine's state (model loaded, server running),
  the server's start-up handshake, and the reading of its JSON replies.
- `src/text.rs`: joining, decimal rendering and whitespace trimming.

`app/` holds the input/output around the library: float-to-integer sample
scaling, building the HTTP client and the HTTP exchange, process spawning
and pipe handling.
