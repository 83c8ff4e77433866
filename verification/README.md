# dictee

The verified core of a local dictation tool: a global shortcut starts and
stops a recording, the speech is transcribed on the machine, and the text is
shown. The library holds the decisions and the text processing, each with a
contract proved by Verus; the desktop program around it lives in `app/`.

- `src/dictation.rs`: what a key event asks for (push-to-talk or toggle).
- `src/pipeline.rs`: the controller, one transition per event, returning the
  effects to carry out; it keeps recording and processing consistent with the
  microphone.
- `src/settings.rs`: settings, their defaults and the rules they must meet.
- `src/stt.rs`, `src/text.rs`: cleaning and counting of transcripts, the
  encoder window, segment assembly.
- `src/audio/`: device choice, capture limits, resampling ratio and tap ranges,
  speech boundaries.
- `src/startup.rs`: the menu hint and the launch error message.
- `app/`: Tauri windows and tray, cpal capture, whisper.cpp inference, JSON
  settings file, floating-point signal processing.
