//! Device selection and compute-context construction.
//!
//! A [`PhysicalDeviceInfo`] is the host-side report of one physical GPU:
//! its opaque handle, its name, and the capability tables the rest of the
//! substrate reads (queue-family flags, memory-type flags, the maximum
//! workgroup size). [`select_device`] picks the first enumerated device;
//! [`build_context`] scans its queue families in index order and binds a
//! compute context to the first family that supports compute work.

use vstd::prelude::*;

use crate::GpuError;

verus! {

/// Queue-capability bit for compute work.
pub const QUEUE_COMPUTE: u32 = 0x2;

/// True when a queue family whose capability flags are `flags` supports
/// compute work.
pub open spec fn supports_compute(flags: u32) -> bool {
    flags & QUEUE_COMPUTE != 0
}

/// The host-side report of one physical GPU, immutable once enumerated.
pub struct PhysicalDeviceInfo {
    /// Opaque handle of the physical device.
    pub device_id: u64,
    /// Device name, for diagnostics only.
    pub name: Vec<u8>,
    /// Capability flags of each queue family, in family-index order.
    pub queue_family_flags: Vec<u32>,
    /// Property flags of each memory type, in type-index order.
    pub memory_type_flags: Vec<u32>,
    /// Largest workgroup size the device accepts in one dimension.
    pub max_workgroup_size: u32,
}

/// A compute context: the opened connection to one physical device, with
/// a single compute queue. The invariant [`ComputeContext::wf`] records
/// that the queue belongs to a family that supports compute work.
pub struct ComputeContext {
    /// Opaque handle of the API instance.
    pub instance_id: u64,
    /// Opaque handle of the logical device.
    pub device_id: u64,
    /// Opaque handle of the compute queue.
    pub queue_id: u64,
    /// Opaque handle of the originating physical device.
    pub physical_device_id: u64,
    /// Index of the queue family the queue was created from.
    pub queue_family_index: u32,
    /// Capability flags of that queue family.
    pub queue_family_flags: u32,
}

impl ComputeContext {
    /// The queue belongs to a family whose capability flags include
    /// compute.
    pub open spec fn wf(self) -> bool {
        supports_compute(self.queue_family_flags)
    }
}

/// Selects a device from an enumeration: the first enumerated one.
///
/// Fails with `NoDeviceFound` exactly when the enumeration is empty.
pub fn select_device(devices: &Vec<PhysicalDeviceInfo>) -> (r: Result<
    &PhysicalDeviceInfo,
    GpuError,
>)
    ensures
        match r {
            Ok(d) => devices@.len() > 0 && *d == devices@[0],
            Err(e) => devices@.len() == 0 && e == GpuError::NoDeviceFound,
        },
{
    if devices.len() == 0 {
        Err(GpuError::NoDeviceFound)
    } else {
        Ok(&devices[0])
    }
}

/// True when `i` is the smallest queue-family index of `families` whose
/// flags include compute.
pub open spec fn is_first_compute_family(families: Seq<u32>, i: int) -> bool {
    &&& 0 <= i < families.len()
    &&& supports_compute(families[i])
    &&& forall|j: int| 0 <= j < i ==> !supports_compute(#[trigger] families[j])
}

/// Scans the queue families of `info` in index order and returns the
/// first one that supports compute work.
///
/// Fails with `NoComputeQueueFamily` exactly when no family qualifies.
pub fn find_compute_queue_family(info: &PhysicalDeviceInfo) -> (r: Result<u32, GpuError>)
    requires
        info.queue_family_flags@.len() <= u32::MAX,
    ensures
        match r {
            Ok(i) => is_first_compute_family(info.queue_family_flags@, i as int),
            Err(e) => {
                &&& e == GpuError::NoComputeQueueFamily
                &&& forall|j: int|
                    0 <= j < info.queue_family_flags@.len() ==> !supports_compute(
                        #[trigger] info.queue_family_flags@[j],
                    )
            },
        },
{
    let n = info.queue_family_flags.len();
    let mut i: usize = 0;
    while i < n
        invariant
            i <= n,
            n == info.queue_family_flags@.len(),
            n <= u32::MAX,
            forall|j: int|
                0 <= j < i ==> !supports_compute(#[trigger] info.queue_family_flags@[j]),
        decreases n - i,
    {
        if info.queue_family_flags[i] & QUEUE_COMPUTE != 0 {
            return Ok(i as u32);
        }
        i += 1;
    }
    Err(GpuError::NoComputeQueueFamily)
}

/// Builds a compute context for `info`: scans its queue families in index
/// order, binds the context to the first family that supports compute
/// work, and records the handles the caller obtained from the API for the
/// instance, the logical device and the queue.
///
/// Fails with `NoComputeQueueFamily` exactly when no family of `info`
/// supports compute work.
pub fn build_context(
    info: &PhysicalDeviceInfo,
    instance_id: u64,
    device_id: u64,
    queue_id: u64,
) -> (r: Result<ComputeContext, GpuError>)
    requires
        info.queue_family_flags@.len() <= u32::MAX,
    ensures
        match r {
            Ok(ctx) => {
                &&& ctx.wf()
                &&& is_first_compute_family(
                    info.queue_family_flags@,
                    ctx.queue_family_index as int,
                )
                &&& ctx.queue_family_flags == info.queue_family_flags@[
                    ctx.queue_family_index as int]
                &&& ctx.instance_id == instance_id
                &&& ctx.device_id == device_id
                &&& ctx.queue_id == queue_id
                &&& ctx.physical_device_id == info.device_id
            },
            Err(e) => {
                &&& e == GpuError::NoComputeQueueFamily
                &&& forall|j: int|
                    0 <= j < info.queue_family_flags@.len() ==> !supports_compute(
                        #[trigger] info.queue_family_flags@[j],
                    )
            },
        },
{
    let queue_family_index = match find_compute_queue_family(info) {
        Ok(i) => i,
        Err(e) => {
            return Err(e);
        },
    };
    let queue_family_flags = info.queue_family_flags[queue_family_index as usize];
    Ok(
        ComputeContext {
            instance_id,
            device_id,
            queue_id,
            physical_device_id: info.device_id,
            queue_family_index,
            queue_family_flags,
        },
    )
}

} // verus!
