//! A minimal compute-GPU execution substrate: device selection and compute
//! context construction, buffer/memory management with host transfer, a
//! kernel-launch descriptor compiler, and a dispatch planner.

use vstd::prelude::*;

pub mod device;
pub mod dispatcher;
pub mod kernel;
pub mod memory;

verus! {

/// The errors the substrate can report at runtime.
#[derive(Clone, Copy, Debug, PartialEq, Eq, Structural)]
pub enum GpuError {
    /// Device enumeration returned no physical device.
    NoDeviceFound,
    /// No queue family of the selected device supports compute work.
    NoComputeQueueFamily,
    /// The underlying API rejected logical-device creation.
    DeviceCreationFailed,
    /// No memory type satisfies both the compatibility mask and the
    /// required property flags.
    NoSuitableMemoryType,
    /// The underlying API rejected buffer creation.
    BufferCreationFailed,
    /// Mapping a host-visible memory range failed.
    MemoryMapFailed,
    /// A launch was requested with an invalid configuration
    /// (for example zero threads).
    InvalidLaunchConfiguration,
    /// Submission to the compute queue failed; carries the underlying
    /// API error code.
    DispatchFailure(i32),
}

} // verus!
