# exmpeg_native

The native side of a media library for Elixir: probing, stream-copy remuxing,
joining, frame and audio extraction, and re-encoding with FFmpeg.

`src/` holds what the library decides, written and proved in Verus. It makes no
FFmpeg call and touches no file. Each operation is a state machine: it says what
to do next, is told what happened, and goes on from there.

- `errors`, `text`, `path`, `media`: error values, text, paths, time bases.
- `input`, `atomic_output`, `metadata`: where bytes come from, how an output
  appears in one piece, which tags are set.
- `cancel`, `progress`: when a caller is looked for and told how far things are.
- `probe`, `version`: reports.
- `remux`, `concat_layout`, `concat`: stream copies and joins.
- `audio`, `source_clock`, `clock`, `audio_flow`: sample formats, gaps between
  decoded frames, time stamps of samples, and the way from decoded audio to
  encoded packets.
- `video`, `video_flow`: sizes, frame rates, filter chains, and the way from
  decoded pictures to encoded packets.
- `extract_frame`, `extract_audio`, `transcode_plan`, `transcode`: the
  operations that decode and encode.

`app/` is the NIF around it: it takes terms, opens files, performs the actions
through `rsmpeg`, and hands the events back. Seconds in floating point are
turned into ticks there.

`tests/` runs the library on concrete values.
