# gigatype

Local voice typing for Unix desktops: press a shortcut, speak, press it again
and the transcript is typed into the focused application.

The crate is split in two:

- `src/` is the library, written in Verus and verified: transcript
  formatting, speech detection on recorded WAV data, the bookkeeping of audio
  capture, the dictation daemon's state machine, platform and keyboard
  routing, the clipboard exchange, the records written to the virtual
  keyboard, the transcript history format and the greedy RNN-T decoding
  steps. Each public function states its result in its contract, and the
  `law_*` proof functions state properties that hold across calls.
- `app/` is the program around it: the command line, the daemon's socket,
  audio devices, the ONNX model, the desktop portal, clipboard and keyboard
  back ends, and the floating-point signal processing.

`tests/` exercises the library on concrete inputs.
