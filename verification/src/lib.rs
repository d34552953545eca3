//! A flash-backed USB mass-storage block device.
//!
//! The crate exposes raw on-chip flash as a virtual FAT16 volume: logical
//! 512-byte blocks below a fixed threshold are synthesized on the fly
//! (boot sector, file-allocation tables, root directory), while the
//! remaining blocks map onto a window of physical flash.  Writes are
//! staged page by page in a single-page cache so that sub-page writes do
//! not force repeated erase cycles, and a periodic tick flushes pending
//! writes after an inactivity window.
//!
//! The physical erase/program/read primitives are abstracted behind the
//! [`flash::FlashDevice`] trait; [`flash::MemFlash`] is a verified
//! in-memory implementation that also records the order of erase and
//! program operations, so the staging logic can be exercised without
//! hardware.

pub mod arith;
pub mod cache;
pub mod device;
pub mod errors;
pub mod fat;
pub mod flash;
pub mod geometry;
