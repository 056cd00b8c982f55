# xoq

Plumbing for robots: CAN buses, serial ports, cameras and audio, shared over peer-to-peer
connections (iroh) and over MoQ relays.

`src/` is the library. It holds what the programs decide and compute, verified with Verus against
its contracts. Nine small wrappers and one contract on std are trusted instead of proved: `read_url`
(url), `read_json` and `write_json` (serde_json), `random_below` (rand), `write_jpeg` and
`decode_image` (image), `to_upper`, `is_alphanumeric`, `utf8_text` and `String::push` (std). The
modules:

- `can_types`, `can`, `can_server`, `moq_can_server`: CAN frames, their 72-byte wire format, what a
  socket takes and gives, and how frames are put together from pieces of a stream.
- `annex_b`, `cmaf`, `opencv`: H.264 streams, fragmented MP4 writing and reading, and the camera
  client that follows a stream from its first init segment.
- `frame`, `pixels`, `camera`, `camera_macos`, `camera_server`: images, pixel layouts, capture
  formats and the messages of the camera servers.
- `realsense`, `realsense_server`, `realsense_client`, `av1_decoder`, `dav1d_decoder`,
  `nvdec_av1_decoder`, `nvenc_av1`: depth video.
- `audio`, `audio_server`, `audio_macos`: PCM frames, playback and the two sides of an audio link.
- `bridge_server`, `moq`, `iroh`, `address`, `chat`: sessions, retries, tracks and addresses.
- `damiao`: motor commands and answers.
- `recorder`: what is recorded of which source, and when.
- `serial`, `cli`, `text`, `endian`: settings, command lines, numbers and bytes.

The laws that span several functions, such as that a decoder gives back what an encoder was given,
stand beside them as public proof functions.

`app/` is the program around the library: sockets, devices, sessions, and the arithmetic that is
floating point. The recorder and the depth camera server have no program there: one needs a writer
of multi-track MP4 files, the other a muxer for AV1, and the project has neither. `tests/` runs the
library from outside.

`Cargo.toml` names `jpeg-decoder`, which `image` brings in anyway, to have it decode with the same
code on every machine: what a JPEG file decodes to must not depend on the processor.
