# Utterly

Push-to-talk dictation: hold a hotkey, speak, release, and the transcript is
pasted into the focused text field.

`src/` is a Verus library with everything that is decided: the ring of audio
samples, the wire format, the session from press to paste, the capture
watchdog, the pill's frames, the tray menu, hotkey presets, settings, the
instance lock and the command line. Each function states what it returns or
changes, and Verus proves it. The `law_` proof functions state what holds
across several of them.

`app/` is the program around it: microphone, socket, window, tray, hotkey,
clipboard, files and clock. It performs what the library decides and reports
what came of it. Floating point (signal level, resampling, animation curves)
is computed there; the library holds a level as the bits of a non-negative
`f32`, whose order is the order of the values.

What the library takes from outside without proof is marked
`external_body` or `assume_specification`: JSON from `serde_json`, base64 from
`base64`, and a few functions on strings and characters from std.
