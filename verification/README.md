# Gulfstream

A self-hosted video platform: accounts and API keys, browser sessions, direct
uploads and remote imports, HLS transcoding with FFmpeg, playback with signed
tokens, and privacy-preserving playback analytics, served over HTTP from a
single SQLite database and a media directory.

## Layout

- `src/` is the verified core, written in Verus. Every decision the service
  takes lives here with its contract: configuration validation, the scan of
  environment placeholders, authentication checks (API keys, session and
  CSRF hashes, signed playback tokens), cookies, byte ranges, the playback
  and upload rules, the transcoding plan and FFmpeg command lines, job retry
  backoff, and the analytics bookkeeping. Laws that span several functions
  (a signed token verifies, a composed API key splits back, a cookie set is
  read back, an object key leads back to its file, a viewing session counts
  at most one play and one completion, retry delays grow and stay capped, an
  escaped value never closes its TOML string) are stated and proved as
  public proof functions or as postconditions.
- `app/` is the server around it: configuration loading, the HTTP router and
  handlers, SQL, file and network I/O, FFmpeg processes and the background
  workers. It reads and writes the streams, the database and the files, and
  hands every chunk and reply to the core, which decides what to do with it,
  hashes uploaded bytes and parses and resolves URLs.
- `tests/` runs the core on concrete values.

## Running

The server reads its configuration from `--config PATH` or the
`GULFSTREAM_CONFIG` environment variable. It expects the schema migrations in
`migrations/`, the API description in `openapi.yaml`, and the player and web
templates named in the configuration, relative to its working directory.
