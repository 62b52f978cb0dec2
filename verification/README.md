# dictatord

A push-to-talk speech-to-text daemon for Linux (X11): press the hotkey,
speak, and the transcription is typed at the cursor.

The crate is split in two:

- `src/` is the verified library (Verus). It holds the logic of the
  daemon with its contracts and proofs:
  - `ring_buffer` — the pre-roll window of recent samples;
  - `capture` — the samples shared by the audio callback and the
    dictation loop (pre-roll plus recording);
  - `vad` — the frame-counting voice activity state machine;
  - `dictation` — the dictation lifecycle for the toggle, push-to-talk and
    both hotkey modes;
  - `hotkey` — hotkey parsing ("Super+D") and press/release tracking;
  - `config` — the settings and their live updates by dotted key;
  - `ipc` — the control-socket protocol;
  - `asr`, `output`, `visual`, `settings` — model paths and download
    steps, transcription text, typed text, the overlay's status line, and
    the settings menus with what each answer sends;
  - `text`, `number` — character and integer parsing helpers.
- `app/` is the program around it: audio capture, Whisper, X11, libxdo,
  GTK, the socket server, the terminal menus, and the floating-point
  signal processing (levels, noise floor, noise suppression, drawing).
