# waterui_barcode

QR code and Code128 module matrices for WaterUI, verified with Verus.

- `src/` is the verified library: encoding through `fast_qr` and `barcoders`
  (behind trusted wrappers in `src/encoders.rs`), the one-bit-per-module
  packing (`src/bits.rs`), the barcode source with its quiet zones and output
  size (`src/qr.rs`), the maximal runs of dark modules a renderer fills
  (`src/geometry.rs`), and the slot for a re-encoded source awaiting a frame
  (`src/pending.rs`).
- `app/` records that geometry into WaterUI scenes: floating-point
  placement, the scene contents (which read their signals on each scene
  build and ask for a new frame when a signal changes), the offscreen image
  generator, and the error type with its `std::error::Error` impl.
