# trove

A collection of small developer tools — JSON formatting and validation,
Base64, URL encoding, BLAKE3 hashing, timestamps, UUIDs, text statistics,
case conversion and video concatenation with ffmpeg — behind one registry,
served over a command line, a REST API and a WebSocket.

- `src/` is the library, written in Verus: every tool's logic, the registry
  and its listing order, the execution rules (lookup, input size, time
  limit), the WebSocket protocol's decisions, the ffmpeg command lines and
  run decisions, and what the command line prints. Each public function
  states its result in its contract; the laws that span functions are the
  public `law_*` and `lemma_*` proof functions.
- `app/` is the program around it: argument parsing, the HTTP and WebSocket
  server, JSON (de)serialisation, processes, files, the clock and the
  environment.
- `tests/` runs the library on concrete values.
