# realtime_dsp

A real-time multichannel audio DSP engine for ALSA on Linux, with remote
control over HTTP and ZeroMQ.

- `src/` is the verified library: 24-bit sample handling, channel
  (de)interleaving, the parameter model of the processing slots (trim, the
  six-band equaliser, meters and the older LPF/HPF/band filters), the
  start-up slot list, the per-block schedule of slots, and the control
  commands of both remote channels, with the text handling they rely on.
  Gains and Q factors are a type parameter `F` of the parameter model.
- `app/` is the engine around it: ALSA capture and playback, the
  floating-point sample processing of each slot, the ZeroMQ sockets and the
  HTTP server.
- `tests/` exercises the library.
