# sipr

A SIP softphone for the command line, with its logic verified by Verus.

- `src/` is the library, and every function in it is verified against its
  contract: `sip` (messages, dialogs, transactions, authentication, session
  descriptions), `rtp` (packets, codecs, the jitter buffer, WAV files, playout)
  and `phone` (the call as a state machine, the line editor, history,
  configuration, tracing, and what is shown to the user).
- `tests/` runs the library on concrete values.
- `app/` is the program around it: sockets, name resolution, audio devices,
  the terminal, files and the clock.

The library decides, and the program acts. A `Call` takes what happened (a
message, a media event, a command) and gives back the actions to carry out.

What spans functions (what is written reads back, what every operation keeps,
what a refused request is answered) stands in the proof functions whose names
begin with `law_`.

What the proofs rest on without proof is the code outside the crate: the
functions of `std`, `rand`, `uuid` and `chrono` that are marked
`#[verifier::external_body]` or given by `assume_specification`, each with a
comment that says what is claimed of it.
