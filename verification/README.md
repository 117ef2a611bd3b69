# dictate

Personal push-to-talk dictation for Windows. Hold a key, speak, release: the text appears wherever
you were typing.

`src/` is the library: everything the program decides, verified with Verus.

| Module | What it decides |
|---|---|
| `session` | when to record, what the bubble shows, what counts as too short or silent |
| `finish` | what happens between releasing the key and the text appearing |
| `process`, `words` | trimming silence off a recording, replacing whole words in a transcript |
| `audio` | peak level, and the blocks that go to the resampler |
| `ui`, `draw` | window messages, the tray menu, the bars of the bubble, the icon |
| `config`, `hotkey` | defaults, errors, the hold-to-talk binding |
| `model`, `autostart` | when the model is loaded, what the Run entry has to be |
| `text` | UTF-16, decimal numbers, trimming |

Samples are kept by the bits of their numbers, since nothing in the library computes with them.

`app/` is the program around it: the microphone, the resampler, the model, the keyboard hook, the
registry and the Win32 window. `tests/` runs the library on concrete values.

What the proofs rest on besides Verus itself: `str::to_lowercase` and `char::is_alphanumeric` (in
`words`) and the hotkey parser of `handy-keys` (in `hotkey`).
