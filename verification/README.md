# lifelog-audio-compression

Opinionated speech-first audio compression for lifelog archives: one input
audio file becomes one `audio-bundle` directory holding the audio as mono
16 kHz Opus (`audio.ogg`), `bundle.json` with the source's intrinsic
metadata, and the source's own metadata reports (`source-ffprobe.json`,
`source-mdls.txt`, `source-xattrs.txt`).  A batch does this for every
supported audio file under a directory and keeps its structure.

## Layout

- `src/` — the verified library (Verus).
  - `text.rs`: characters, ASCII lower case, decimal parsing and printing,
    hexadecimal.
  - `path.rs`: Unix paths as text — components, extension, join, the
    bundle directory of an input, with the text std's path functions write.
  - `order.rs`: the path order and the stable sort by it, with its laws.
  - `types.rs`: requests, results and bundle metadata, with their views.
  - `probe.rs`: reading ffprobe's JSON report (parsed by serde_json).
  - `bundle.rs`: bundle identifiers, `bundle.json` contents, the ffmpeg,
    ffprobe, mdls and xattr command lines.
  - `io.rs`: the outside work the library asks for, and the replies.
  - `compress.rs`, `batch.rs`: a compression and a batch as step functions
    from a reply to the next request, with their laws.
- `app/` — the command line and the outside work: file system, processes,
  the clock, reading a duration, and `bundle.json` through serde.
- `tests/` — tests of the library, the outside work simulated.
