//! Identification of Apple devices in DFU / Recovery mode: a typed parse
//! of the iBoot USB serial string, classification of the USB mode from
//! `(vendor_id, product_id)`, and an error taxonomy mirroring
//! the `irecv_error_t` codes. No I/O: every function here computes
//! on plain values, and each states what it computes in its contract.

pub mod error;
pub mod info;
pub mod mode;
pub mod text;

pub use error::IrecvError;
pub use info::DeviceInfo;
pub use mode::IrecvMode;
