# audio_widget

The core of a media streaming service, verified with Verus. The service streams
media files by their base64url encoded path with HTTP byte ranges, takes
uploads, describes and lists files, reads ahead, and counts what it does.

- `src/` decides and computes: ranges, paths and names, header fields, the steps
  of a stream, the pieces in which a file is sent, reading ahead, counters and
  reports. Its functions state what they do in their contracts, and the
  `law_*` proof functions state what holds of them together.
- `app/` is the server around it: sockets, files, clocks and JSON.
- `tests/` runs the library on concrete values.

Paths are Unix paths, taken as bytes.
