# ffmpreg

A small media toolkit whose container and codec logic is verified with Verus.

- `src/` — the verified library:
  - `io.rs`, `media.rs`, `metadata.rs`, `text.rs`, `error.rs`: byte readers and writers,
    streams, packets, tags, text helpers and errors;
  - `container/`: WAVE, FLAC, raw PCM, raw YUV, AVI, MPEG-TS and MP3 demuxers and muxers and
    a Matroska muxer, each with byte-level specifications and, where a format is both written
    and read, laws on what is read back of what was written (`laws.rs` files), and the
    registry of containers by name and by file extension (`register.rs`);
  - `codecs/`: PCM, raw YUV and H.264 (through `openh264`) decoders and encoders, and the
    registry of codecs by name (`register.rs`) and the codecs known by name, other name and
    file extension (`ids.rs`); both registries keep their entries in
    `rustc-hash` maps;
  - `cli/`: the command-line grammar, the choice of pipeline and the task runner.
- `app/` — the program around the library: file I/O, argument reading, help text, the
  floating-point sample conversion (with `rayon`) and MP3 decoding (with `nanomp3`).
- `tests/` — tests of the library on concrete inputs.
