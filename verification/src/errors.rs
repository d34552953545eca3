use vstd::prelude::*;

verus! {

/// Errors reported by the physical flash primitives.
#[derive(Clone, Copy, Debug, PartialEq, Eq, Structural)]
pub enum FlashError {
    /// A page erase cycle reported a hardware fault.
    EraseFailed,
    /// A page program cycle reported a hardware fault.
    ProgramFailed,
}

/// Errors surfaced through the block-device interface.
#[derive(Clone, Copy, Debug, PartialEq, Eq, Structural)]
pub enum DeviceError {
    /// A block index at or beyond `block_count()`.
    OutOfRange,
    /// A physical erase or program cycle failed; the affected cache page
    /// has been invalidated.
    FlashOperationFailed,
    /// A write address outside the writable flash window, or geometry
    /// parameters that do not describe a usable device.
    ConfigurationError,
}

} // verus!
