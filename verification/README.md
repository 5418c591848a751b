# stream_messages

A verified core for the message stream of an end-to-end encrypted messaging client. A stream
follows a set of groups over one subscription to the backend. It skips messages that it is past,
has the others processed one at a time, hands out what the local database then holds, and takes
in new groups while it runs.

- `src/` is the library, verified with Verus. It makes no requests: each function takes what came
  of the last poll and says what to poll next.
  - `stream` – the stream itself; `step` moves it on by one event
  - `process` – processing one message
  - `group_list`, `position` – the groups with the position reached in each
  - `group_message`, `summary`, `error`, `bytes` – messages, sync outcomes, errors, byte strings
  - `laws` – what holds of every run of a stream
- `app/` runs the stream over a client, as a `futures::Stream`.
- `tests/` runs the library on concrete values.
