# streaming_gif

Serves an animated GIF over HTTP while it is still being written: the
server sends the GIF header, then one chunk per frame, and closes the file
with the trailer byte `0x3B` only when its trailer policy says so
(`after:N` sends N frames, then the trailer; `never` and `ondrop` keep the
file open on the wire).

The library (`src/`) is verified with Verus:

- `frames` — the synthetic 64×64 scene (an 8×8 white block walking right),
  with the exact pixels of every frame.
- `gif_blocks` — the GIF89a byte layout the `gif` crate's encoder writes and
  the trusted items that drive that encoder.
- `gif_stream` — trailer policies, the frame interval, `GifStream` (whole
  file at once) and `GifByteStream` (one chunk per step).
- `stream_laws` — what holds over many steps: finite streams send exactly
  the encoded file, open streams never close it and every prefix of one is
  an open file. The encoder writes into memory and is proved never to fail
  on these inputs (from what the `gif` source shows), so these laws hold of
  every run.
- `config` — the route's settings (`GIF_TRAILER`, `GIF_INTERVAL_MS`) read
  from and written back to text.
- `text` — decimal numbers and string helpers.
- `video` — the decisions behind decoding a video with ffmpeg.

`app/` holds the Axum server, the environment, the timer between frames and
the ffmpeg process handling.
