# Live transcriber

A desktop application that records speech from an audio device, sends it to the
Soniox speech service, and shows the transcript as it comes in, with a
translation beside it if one is asked for.

## Layout

- `src/` is the library: the rules that the application follows, each function
  with its contract, proved by Verus.
  - `text`, `words`: text as characters; the rolling window of words.
  - `transcript`: what the service reports, and the transcript kept of it.
  - `devices`: the devices to offer, and the one to record from.
  - `shortcut`: keyboard shortcuts and their names.
  - `json`: JSON values, as `serde_json` holds them.
  - `service`, `key_test`: the messages of a recording and of the test of an
    API key, when they are sent, and what happens when that fails.
  - `sound`: recorded sound in pieces, as bytes, and when its level is reported.
  - `settings`, `state`: what is stored, and what the application is doing.
- `app/` is the program around it: the window, the store, the audio device and
  the connection to the service, the reading of the service's messages, and the
  arithmetic on floating-point samples.
- `tests/` run the library on concrete values.

## What is taken on trust

`src/json.rs` states what the functions of `serde_json` do, and the beginning of
`src/text.rs` what a few functions of the standard library do. Each says so in
its comment. Everything else is proved.
