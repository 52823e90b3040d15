//! Buffer and memory management.
//!
//! [`find_memory_type`] is the memory-type selection algorithm: the
//! smallest memory-type index admitted by the compatibility mask whose
//! property flags are a superset of the required ones. A [`GpuBuffer`]
//! pairs a buffer handle with its backing memory allocation in one owned
//! value; its backing bytes are modelled by `contents`, so the host
//! transfers [`GpuBuffer::upload`] and [`GpuBuffer::download`] have exact
//! byte-level contracts.

use vstd::prelude::*;

use crate::GpuError;

verus! {

/// Memory-property bit: the memory lives on the device.
pub const MEMORY_DEVICE_LOCAL: u32 = 0x1;

/// Memory-property bit: the memory can be mapped into host address space.
pub const MEMORY_HOST_VISIBLE: u32 = 0x2;

/// Memory-property bit: host writes and device reads need no explicit
/// flush.
pub const MEMORY_HOST_COHERENT: u32 = 0x4;

/// Buffer-usage bit: the buffer can be a transfer source.
pub const USAGE_TRANSFER_SRC: u32 = 0x1;

/// Buffer-usage bit: the buffer can be a transfer destination.
pub const USAGE_TRANSFER_DST: u32 = 0x2;

/// Buffer-usage bit: the buffer can back a storage binding.
pub const USAGE_STORAGE: u32 = 0x20;

/// True when the property flags `flags` include every bit of `required`.
pub open spec fn has_all_properties(flags: u32, required: u32) -> bool {
    flags & required == required
}

/// True when memory type `i` of the table `memory_types` is usable for an
/// allocation whose compatibility mask is `type_filter` and whose
/// required property flags are `required`: bit `i` of the mask is set and
/// the type's property flags are a superset of `required`.
pub open spec fn memory_type_suitable(
    memory_types: Seq<u32>,
    type_filter: u32,
    required: u32,
    i: int,
) -> bool
    recommends
        0 <= i < 32,
{
    &&& type_filter & (1u32 << (i as u32)) != 0
    &&& has_all_properties(memory_types[i], required)
}

/// True when `i` is the smallest suitable index of the table.
pub open spec fn is_first_suitable_memory_type(
    memory_types: Seq<u32>,
    type_filter: u32,
    required: u32,
    i: int,
) -> bool {
    &&& 0 <= i < memory_types.len()
    &&& memory_type_suitable(memory_types, type_filter, required, i)
    &&& forall|j: int|
        0 <= j < i ==> !#[trigger] memory_type_suitable(memory_types, type_filter, required, j)
}

/// Scans the device's memory types in ascending index order and returns
/// the first index admitted by `type_filter` whose property flags include
/// all of `required`.
///
/// Fails with `NoSuitableMemoryType` exactly when no index qualifies.
/// The table holds at most 32 entries, one per bit of the mask.
pub fn find_memory_type(memory_types: &Vec<u32>, type_filter: u32, required: u32) -> (r: Result<
    u32,
    GpuError,
>)
    requires
        memory_types@.len() <= 32,
    ensures
        match r {
            Ok(i) => is_first_suitable_memory_type(memory_types@, type_filter, required, i as int),
            Err(e) => {
                &&& e == GpuError::NoSuitableMemoryType
                &&& forall|j: int|
                    0 <= j < memory_types@.len() ==> !#[trigger] memory_type_suitable(
                        memory_types@,
                        type_filter,
                        required,
                        j,
                    )
            },
        },
{
    let n = memory_types.len();
    let mut i: usize = 0;
    while i < n
        invariant
            i <= n,
            n == memory_types@.len(),
            n <= 32,
            forall|j: int|
                0 <= j < i ==> !#[trigger] memory_type_suitable(
                    memory_types@,
                    type_filter,
                    required,
                    j,
                ),
        decreases n - i,
    {
        if type_filter & (1u32 << (i as u32)) != 0 && memory_types[i] & required == required {
            return Ok(i as u32);
        }
        i += 1;
    }
    Err(GpuError::NoSuitableMemoryType)
}

/// The backing bytes after `data` is uploaded into memory holding `mem`:
/// `data` followed by the untouched residual bytes of `mem`.
pub open spec fn uploaded(mem: Seq<u8>, data: Seq<u8>) -> Seq<u8>
    recommends
        data.len() <= mem.len(),
{
    data + mem.skip(data.len() as int)
}

/// The first `n` backing bytes of memory holding `mem`.
pub open spec fn downloaded(mem: Seq<u8>, n: int) -> Seq<u8>
    recommends
        0 <= n <= mem.len(),
{
    mem.subrange(0, n)
}

/// A device memory allocation paired with its buffer handle. The memory
/// is bound to the buffer at offset 0 for its entire size, and both are
/// owned together: neither handle is exposed on its own, so they cannot
/// be released independently.
pub struct GpuBuffer {
    /// Opaque handle of the buffer.
    pub buffer_id: u64,
    /// Opaque handle of the backing memory allocation.
    pub memory_id: u64,
    /// Size of the allocation in bytes.
    pub size: usize,
    /// Index of the memory type backing the allocation.
    pub memory_type_index: u32,
    /// Property flags of that memory type.
    pub property_flags: u32,
    /// Usage flags the buffer was created with.
    pub usage_flags: u32,
    /// The backing bytes of the allocation.
    pub contents: Vec<u8>,
}

impl GpuBuffer {
    /// The backing bytes span exactly the allocated size.
    pub open spec fn wf(self) -> bool {
        self.contents@.len() == self.size
    }

    /// The backing memory type is host-visible, so it can be mapped for
    /// [`GpuBuffer::upload`] and [`GpuBuffer::download`].
    pub open spec fn host_visible(self) -> bool {
        self.property_flags & MEMORY_HOST_VISIBLE != 0
    }

    /// Allocates a buffer of `size` bytes with the given usage flags,
    /// backed by the first memory type of the table that the
    /// compatibility mask `type_filter` admits and whose property flags
    /// include all of `required_properties`. `buffer_id` and `memory_id`
    /// are the opaque handles the caller obtained from the API. Fresh
    /// backing memory is modelled as zero-filled.
    ///
    /// Fails with `NoSuitableMemoryType` exactly when no memory type
    /// qualifies.
    pub fn new(
        memory_types: &Vec<u32>,
        type_filter: u32,
        size: usize,
        usage: u32,
        required_properties: u32,
        buffer_id: u64,
        memory_id: u64,
    ) -> (r: Result<GpuBuffer, GpuError>)
        requires
            memory_types@.len() <= 32,
            size > 0,
        ensures
            match r {
                Ok(b) => {
                    &&& b.wf()
                    &&& b.size == size
                    &&& b.usage_flags == usage
                    &&& b.buffer_id == buffer_id
                    &&& b.memory_id == memory_id
                    &&& is_first_suitable_memory_type(
                        memory_types@,
                        type_filter,
                        required_properties,
                        b.memory_type_index as int,
                    )
                    &&& b.property_flags == memory_types@[b.memory_type_index as int]
                    &&& has_all_properties(b.property_flags, required_properties)
                    &&& (required_properties & MEMORY_HOST_VISIBLE != 0 ==> b.host_visible())
                    &&& b.contents@ == Seq::new(size as nat, |i: int| 0u8)
                },
                Err(e) => {
                    &&& e == GpuError::NoSuitableMemoryType
                    &&& forall|j: int|
                        0 <= j < memory_types@.len() ==> !#[trigger] memory_type_suitable(
                            memory_types@,
                            type_filter,
                            required_properties,
                            j,
                        )
                },
            },
    {
        let memory_type_index = match find_memory_type(
            memory_types,
            type_filter,
            required_properties,
        ) {
            Ok(i) => i,
            Err(e) => {
                return Err(e);
            },
        };
        let property_flags = memory_types[memory_type_index as usize];
        proof {
            assert(property_flags & required_properties == required_properties
                && required_properties & MEMORY_HOST_VISIBLE != 0 ==> property_flags
                & MEMORY_HOST_VISIBLE != 0) by (bit_vector);
        }
        let mut contents: Vec<u8> = Vec::new();
        let mut i: usize = 0;
        while i < size
            invariant
                i <= size,
                contents@.len() == i,
                forall|k: int| 0 <= k < i ==> contents@[k] == 0u8,
            decreases size - i,
        {
            contents.push(0u8);
            i += 1;
        }
        assert(contents@ =~= Seq::new(size as nat, |k: int| 0u8));
        Ok(
            GpuBuffer {
                buffer_id,
                memory_id,
                size,
                memory_type_index,
                property_flags,
                usage_flags: usage,
                contents,
            },
        )
    }

    /// Maps the backing memory, copies `data` into its head, and unmaps:
    /// afterwards the backing bytes are `data` followed by the untouched
    /// residual bytes. The buffer must be host-visible and `data` must
    /// fit in the allocation.
    pub fn upload(&mut self, data: &Vec<u8>)
        requires
            old(self).wf(),
            old(self).host_visible(),
            data@.len() <= old(self).size,
        ensures
            final(self).wf(),
            final(self).contents@ == uploaded(old(self).contents@, data@),
            final(self).buffer_id == old(self).buffer_id,
            final(self).memory_id == old(self).memory_id,
            final(self).size == old(self).size,
            final(self).memory_type_index == old(self).memory_type_index,
            final(self).property_flags == old(self).property_flags,
            final(self).usage_flags == old(self).usage_flags,
    {
        let ghost orig = *self;
        let n = data.len();
        let mut i: usize = 0;
        while i < n
            invariant
                i <= n,
                n == data@.len(),
                n <= self.contents@.len(),
                self.contents@.len() == orig.contents@.len(),
                self.buffer_id == orig.buffer_id,
                self.memory_id == orig.memory_id,
                self.size == orig.size,
                self.memory_type_index == orig.memory_type_index,
                self.property_flags == orig.property_flags,
                self.usage_flags == orig.usage_flags,
                forall|k: int| 0 <= k < i ==> self.contents@[k] == data@[k],
                forall|k: int|
                    i <= k < self.contents@.len() ==> self.contents@[k] == orig.contents@[k],
            decreases n - i,
        {
            let b = data[i];
            self.contents.set(i, b);
            i += 1;
        }
        assert(self.contents@ =~= uploaded(orig.contents@, data@));
    }

    /// Maps the backing memory, copies its head into `output`, and
    /// unmaps: afterwards `output` holds the first `output.len()` backing
    /// bytes. The buffer must be host-visible and `output` must not be
    /// longer than the allocation; its length is unchanged.
    pub fn download(&self, output: &mut Vec<u8>)
        requires
            self.wf(),
            self.host_visible(),
            old(output)@.len() <= self.size,
        ensures
            final(output)@ == downloaded(self.contents@, old(output)@.len() as int),
    {
        let n = output.len();
        let mut i: usize = 0;
        while i < n
            invariant
                i <= n,
                n == output@.len(),
                n <= self.contents@.len(),
                self.wf(),
                forall|k: int| 0 <= k < i ==> output@[k] == self.contents@[k],
            decreases n - i,
        {
            let b = self.contents[i];
            output.set(i, b);
            i += 1;
        }
        assert(output@ =~= downloaded(self.contents@, n as int));
    }
}

/// Host-transfer round trip: after uploading `data` into host-visible
/// memory holding `mem`, downloading `data.len()` bytes yields exactly
/// `data`, the allocation keeps its size, and the residual bytes beyond
/// `data` are untouched.
pub proof fn lemma_upload_download_roundtrip(mem: Seq<u8>, data: Seq<u8>)
    requires
        data.len() <= mem.len(),
    ensures
        downloaded(uploaded(mem, data), data.len() as int) == data,
        uploaded(mem, data).len() == mem.len(),
        uploaded(mem, data).skip(data.len() as int) == mem.skip(data.len() as int),
{
    assert(downloaded(uploaded(mem, data), data.len() as int) =~= data);
    assert(uploaded(mem, data).skip(data.len() as int) =~= mem.skip(data.len() as int));
}

} // verus!
