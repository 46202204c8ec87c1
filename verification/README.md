# gimme-a-chance

The logic of a real-time interview copilot, verified with Verus, and the Windows
program around it.

The program listens to the microphone and to what the computer plays, transcribes
both, keeps a rolling transcript with a short state of the interview, describes
screenshots, takes in copied text, and answers through a language model when a
hotkey is pressed. Every session is recorded in a local database and can be
exported as Markdown.

## Layout

- `src/` is the library. Every function states in its contract what it returns or
  changes, and Verus proves it, but for the few calls into other crates listed
  below.
  - `text`, `lang`, `samples`, `json`, `prompts`: strings, audio buffers, JSON
    lookups and the wording of the prompts.
  - `vad`, `audio`, `streaming`, `aec`, `dtln`, `cloud_stt`, `stt`, `transcriber`,
    `tts`: from captured audio to lines of text, and back to speech.
  - `sse`, `backend`, `wire`, `context_meter`, `agent` and the module of the assistant
    process: requests to the models, their streamed answers, and what the agent
    remembers.
  - `capture`, `clipboard`, `windows`: screenshots, copies, and windows that are
    parked out of sight.
  - `storage`, `export`, `secrets`: the session log, its Markdown form, and where
    keys come from.
  - `alloc_counter`, `latency`, `metrics`, `crashlog`: counters, histograms, the
    debug panel and the memory of the log.
  - `error`, `state`, `commands`: what the windows can ask for.
- `tests/` runs the library on concrete values.
- `app/` is the desktop program: devices, windows, models, network and disk.

## What is trusted

Calls into other crates stand in small functions whose contracts are believed:
JSON lookups (`serde_json`), tokens (`tiktoken-rs`), WAV files (`hound`), pictures
(`image`, `base64`), the latency histogram (`hdrhistogram`), the voice detector
(`webrtc-vad`), timestamps (`chrono`) and a few string functions of std. Each says
in its comment what it claims. Arithmetic on audio samples is floating point and
stays in `app/`.
