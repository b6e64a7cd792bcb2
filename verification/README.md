# hypetrigger

Runs callbacks ("triggers") on frames sampled from a video by an external
`ffmpeg` process.

- `src/` is the verified library:
  - `text`: decimal rendering of integers;
  - `command`: the ffmpeg filter graph and argument list;
  - `frames`: frame buffer sizes and the round-robin routing of raw frames
    from ffmpeg's standard output to the triggers;
  - `video_size`: the frame size named in ffmpeg's log;
  - `stdin`: the bytes of commands sent to ffmpeg's standard input;
  - `pipeline`: frames, the trigger interface, the pipeline builder and its
    ffmpeg command.
- `app/` spawns ffmpeg, serves its standard streams on threads, runs the
  pipeline's read loop, runs triggers
  on worker threads, and holds the OCR trigger.
- `tests/` runs the library on concrete inputs.
