# aiva

The decision logic of a local voice assistant, verified with Verus. A
desktop window (egui) talks to a combined ML engine process (language model,
speech recognition, speech synthesis) over newline-delimited JSON on the
process's standard streams.

`src/` is the verified library:

- `text`, `json`: character-level helpers, JSON string literals (through
  `serde_json`) and the single-line property of protocol requests.
- `engine`: finding and launching the engine, cutting its output into lines,
  following start-up and service loading.
- `ai`, `stt`, `tts`: the three service clients — requests, how each reply
  line is read, the conversation kept for the language model, and the text
  cleaning done before speech (through `regex`).
- `codec`: Base64 (through `base64`), with decode proved to invert encode.
- `audio`: choosing the microphone configuration and capture rate, the
  recorder's state, and WAV encoding (through `hound`), with the file proved
  to read back as the samples it was given.
- `chat`, `ui`: the bounded chat history and the window's state machine.

`app/` is the program around it: the egui window, audio capture and playback
(cpal, rodio), the engine process and its pipes, the serde reading of reply
lines, and the floating-point sample conversions.
