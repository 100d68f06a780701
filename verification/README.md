# typemore

The verified core of a push-to-talk dictation tool for the desktop: press right
Alt, speak, press it again, and the transcript is repaired by a language model and
pasted at the cursor (or left on the clipboard).

- `src/` is the library, proved with Verus: the hotkey state machine, the record of
  submitted texts, list detection around the cursor, pinyin hints, the rule that
  lets very short transcripts skip the model, the prompts and their splitting, the
  stages of a dictation run, the steps of a delivery and the paste history, the
  recognizer's command line, the release asset and the planning of the downloaded
  archive from its listing. Settings locations are built by proved functions from
  the data directory that the platform reports; which directory that is, is the
  platform's business.
- `tests/` runs the library on concrete inputs.
- `app/` is the desktop program around it: windows and tray, keyboard hooks,
  audio capture and resampling, the recognizer process, HTTP calls, writing the
  extracted files and the clipboard.
