# OmaSend

OmaSend sends files, folders, clipboard media and text to nearby LocalSend
devices. This crate holds its logic as a Verus library that Verus verifies in
full. Contracts state what each function computes; where the outcome rests
on the environment (clocks, the host name, the user's folders), the contract
says what holds whatever came back, and a separate function states what is
made of each value.

- `src/clipboard.rs`: which clipboard type is read, and what its bytes may
  become (file lists, text, media).
- `src/model/`: composer items, session state and the events that change it,
  folder walking rules, and the stored transfer history.
- `src/localsend/`: the protocol session as a state machine (`actor`),
  offer validation and subnet scan plans (`adapter`), discovery snapshots,
  receive and send checks.
- `src/updates.rs`: release evaluation and install plans.
- `src/i18n/`: the English and Simplified Chinese catalog and error wording.
- `src/views.rs`: the decisions behind the interface (theme preference,
  size labels, nearby strip, keyboard back action, status words).
- `src/diagnostics.rs`: the bounded session log.
- `app/`: a small command-line program that does the I/O around the library
  (Wayland clipboard, filesystem, GitHub, history file).

Laws that span several functions are public proof functions, mostly in
`src/model/laws.rs`, `src/localsend/actor.rs` and beside the functions they
speak of.
