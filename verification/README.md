# helldivers2_cn_helper

The logic of a Chinese chat helper for HELLDIVERS 2, written in Verus and
verified: text cleaning and UTF-16 batching, the input-session state
machine, the checks before a send and the order in which text is
delivered to the game with its report, keyboard-event
construction (Unicode, scan codes, GBK Alt codes), the first-key buffer and
chat-key triggers of the keyboard hook, CapsLock protection policy, OCR
word grouping and chat-line parsing, incremental chat tracking, the
official-glossary prompt builder, translation-reply handling, the update
check against the latest release and the error codes shown to the user.

Layout:

- `src/` — the verified library. Every function carries a contract; the
  laws that relate several calls are public proof functions.
- `tests/` — tests run against the compiled library.
- `app/` — a command-line shell around the library: settings on disk, the
  runtime log, HTTP requests to the translation API and to GitHub, and a
  driver that performs the delivery steps the library decides. The Windows
  input, window and OCR calls are not part of this shell.

Coordinates of OCR results are integers in thousandths of a pixel.

`tokio` is used by the shell alone: it is the runtime that `reqwest`'s
asynchronous client runs on.
