# trackhelm

The control, bookkeeping and text logic of the TrackHelm audio player,
specified and proved with Verus.

- `src/` is the verified library: the decoded-track cache, the transport
  and background voices of the audio engine, the per-block gathering of
  parameter updates, loop and cut regions, the
  choice of equaliser filters, block and waveform frame arithmetic, the
  export range and splice plan, MIDI, OSC and WebSocket remote control,
  M3U playlists, the file browser's naming, filtering and ordering rules,
  output device selection, Dropbox account discovery and the bookkeeping
  of stem separation runs.
  Each public function states its result exactly in its `ensures`; the
  laws that relate several functions are public proof functions named
  `law_*`.
- `tests/` runs the library on concrete values.
- `app/` is the desktop application around it: Tauri commands, file and
  network I/O, audio devices, decoding, resampling and the floating-point
  signal processing.
