# handy_core

The logic of a dictation app, verified with Verus: which keys fire which shortcut, what
a dictation does from its first key to the text that is inserted, and what a language
model is asked on the way.

- `src/text.rs`, `src/table.rs`, `src/settings.rs`: characters and numbers, tables with
  string keys, and the settings that the rest reads.
- `src/shortcut/`: how shortcuts are written (`windows_hook`, `grammar`), which of them
  fire and end (`tracker`), the state behind a keyboard hook (`manager`, `lifecycle`,
  `interception_hook`), and what holds over whole runs (`laws`).
- `src/actions/`: prompts and replies (`prompt`, `post_process`), the output of a
  transcription (`output`), file names (`recording`), the way of a recording
  (`pipeline`), recordings in chunks (`flush`), and the start and stop of a dictation
  (`transcribe`).
- `tests/`: the library on concrete values.
- `app/`: threads, channels, the system's keyboard hooks and the order in which all of
  it is called. It needs a program that offers what `app/host.rs` asks for.

What is believed without proof stands beside the calls: the conversion between Chinese
scripts in `output`, the reading of JSON in `post_process`, the clock in `recording`,
and `String::push` in `text`.
