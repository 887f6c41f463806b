# adalight-cosmic

Ambient backlight (Adalight protocol) driven by Wayland screen capture on
COSMIC: one monitor is captured through `ext-image-copy-capture-v1`, its edges
are averaged, and the colors drive an LED strip behind an Arduino running an
Adalight sketch over USB serial.

## Layout

- `src/` — the verified library:
  - `config.rs`: LED chain configuration, color orders, validation;
  - `geometry.rs`: one sampling zone per LED in chain order, and the clamping
    of scaled zones into a frame;
  - `color.rs`: which pixel bytes of a captured frame are sampled for a zone;
  - `adalight.rs`: Adalight frame encoding (header, checksum, reordered colors);
  - `pacing.rs`: decisions of the capture loop (retry, reconnect, frame-rate
    reports, frame pacing);
  - `capture.rs`: decisions of the capture session (globals to bind, output
    lookup, negotiation and frame progress, shared-memory buffer layout).
- `app/` — the program around it: command line, TOML loading, Wayland and
  serial I/O, the loop that measures time and sleeps, and the floating-point
  color pipeline (linear light, white balance, smoothing, gamma, saturation).
- `tests/` — tests of the library on concrete values.
