//! Verified core of the `bluetooth` BoxLang module: UUID normalization, the
//! per-connection GATT cache, the characteristic selector, option parsing and
//! the small decisions that the Bluetooth backends make around their I/O.
//!
//! Every value that the BoxLang VM hands out (strings, structs, native objects)
//! is carried through this crate as an opaque, copyable handle of a generic
//! type `O`; every platform handle (btleplug, Web Bluetooth, NimBLE) as a
//! generic payload. The crate never performs Bluetooth or VM I/O itself.

pub mod text;
pub mod uuids;
pub mod backend;
pub mod connection;
pub mod selector;
pub mod options;
pub mod objects;
pub mod harness;
