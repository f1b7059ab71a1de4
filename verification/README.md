# codex_cli_voice_bridge_rust

A push-to-talk voice bridge: hold a key, speak, and the recognized text is
pasted into the window that was in front when the key went down. Recognition
runs on the Doubao streaming ASR WebSocket service or on the MAI transcription
REST service of Azure Speech.

The library under `src/` holds the bridge's logic with Verus contracts:

- `protocol`: the binary frames of the streaming service (header nibbles,
  sequence and error fields, gzip and JSON payloads), the first request's
  JSON payload with its corpus hints, and the logged form of a frame.
- `asr`: session option checks, handshake headers, audio chunking, and what
  each server frame does to a session.
- `audio`: capture format and device selection, chunk sizes, and the buffer
  that turns 16-bit samples into upload chunks.
- `mai`: MAI options, the request definition, the WAV container, content
  types, the request URL, retries and the transcript of a response.
- `config`: credential resolution (command line, environment, file) for both
  services.
- `bridge_core`: the dialog context carried across utterances, what happens to
  each utterance, result file names and the start-up banner.
- `preview`: the live preview line, cut to the terminal width.
- `platform`: the push-to-talk key state machine, key names and events of
  Windows and macOS, paste-target rules and macOS permission messages.
- `json`, `text`: the JSON value model and the string helpers the rest uses.

`app/` is the runtime around it: WebSocket and HTTP sessions, microphone
capture, files, the terminal and the command lines. `tests/` exercises the
library on concrete values.
