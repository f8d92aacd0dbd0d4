# handy

The decisions of a dictation program, written in Verus and proved, apart from the
windows, threads and devices around them.

- `src/text` corrects transcribed words towards a list of custom words, and removes
  filler sounds and filler words. Texts are sequences of characters; what regular
  expressions find is named and handed on as spans, which are removed by their byte
  offsets.
- `src/binary64` holds doubles by their bits, so that scores and thresholds can be
  rounded and compared exactly.
- `src/keys`, `src/typing_monitor` and `src/focused_input` tell manual typing from other
  input, and find the text field that is typed into.
- `src/clipboard` brings text into that field: which program types or presses keys, how
  the clipboard is offered and put back, and what may follow on a paste.
- `tests` runs all of it on concrete values.
- `app` is the desktop side: it does what the library decides.

Steps that need the outside (a key event, a window asking for the clipboard, a program
that ends) are state machines in `src`: a phase says what is to be done, and an event
says what came of it. `app` runs them.
