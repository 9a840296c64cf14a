//! Barcode and QR code module matrices, verified.
//!
//! Encoders produce a module matrix, packed one bit per module; the layout
//! rules (quiet zone, output size, the runs of adjacent dark modules that a
//! renderer draws as single rectangles) are computed from it.
pub mod bits;
pub mod encoders;
pub mod geometry;
pub mod pending;
pub mod qr;

pub use bits::pack_bits;
pub use geometry::DarkRun;
pub use pending::PendingSource;
pub use qr::{
    code128_payload, BarcodeError, BarcodeMatrix, BarcodeSource, BarcodeSymbology, Code128Error,
    QrError, DEFAULT_SIZE, MAX_CODE128_CHARS,
};
pub use encoders::{MAX_CODE128_UNITS, QR_BYTE_CAPACITY, QR_MAX_SIDE};
