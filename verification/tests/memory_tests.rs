use pulsegpu::GpuError;
use pulsegpu::memory::find_memory_type;
use pulsegpu::memory::GpuBuffer;
use pulsegpu::memory::MEMORY_DEVICE_LOCAL;
use pulsegpu::memory::MEMORY_HOST_COHERENT;
use pulsegpu::memory::MEMORY_HOST_VISIBLE;
use pulsegpu::memory::USAGE_STORAGE;
use pulsegpu::memory::USAGE_TRANSFER_SRC;

const HOST: u32 = MEMORY_HOST_VISIBLE | MEMORY_HOST_COHERENT;

#[test]
fn find_memory_type_single_match() {
    let types = vec![MEMORY_DEVICE_LOCAL, HOST];
    assert_eq!(find_memory_type(&types, 0b11, MEMORY_HOST_VISIBLE), Ok(1));
}

#[test]
fn find_memory_type_picks_smallest_index() {
    let types = vec![HOST, MEMORY_HOST_VISIBLE, HOST | MEMORY_DEVICE_LOCAL];
    assert_eq!(find_memory_type(&types, 0b111, MEMORY_HOST_VISIBLE), Ok(0));
}

#[test]
fn find_memory_type_honors_filter_mask() {
    let types = vec![HOST, MEMORY_HOST_VISIBLE, HOST | MEMORY_DEVICE_LOCAL];
    assert_eq!(find_memory_type(&types, 0b110, MEMORY_HOST_VISIBLE), Ok(1));
    assert_eq!(find_memory_type(&types, 0b100, MEMORY_HOST_VISIBLE), Ok(2));
}

#[test]
fn find_memory_type_requires_property_superset() {
    let types = vec![MEMORY_HOST_VISIBLE, HOST];
    assert_eq!(find_memory_type(&types, 0b11, HOST), Ok(1));
}

#[test]
fn find_memory_type_no_match_fails() {
    let types = vec![MEMORY_DEVICE_LOCAL, MEMORY_DEVICE_LOCAL];
    let r = find_memory_type(&types, 0b11, MEMORY_HOST_VISIBLE);
    assert!(matches!(r, Err(GpuError::NoSuitableMemoryType)));
}

#[test]
fn find_memory_type_empty_mask_fails() {
    let types = vec![HOST];
    let r = find_memory_type(&types, 0, MEMORY_HOST_VISIBLE);
    assert!(matches!(r, Err(GpuError::NoSuitableMemoryType)));
}

#[test]
fn buffer_new_selects_type_and_zeroes_contents() {
    let types = vec![MEMORY_DEVICE_LOCAL, HOST];
    let b = GpuBuffer::new(&types, 0b11, 16, USAGE_STORAGE, MEMORY_HOST_VISIBLE, 5, 6).unwrap();
    assert_eq!(b.size, 16);
    assert_eq!(b.memory_type_index, 1);
    assert_eq!(b.property_flags, HOST);
    assert_eq!(b.usage_flags, USAGE_STORAGE);
    assert_eq!(b.buffer_id, 5);
    assert_eq!(b.memory_id, 6);
    assert_eq!(b.contents, vec![0u8; 16]);
}

#[test]
fn buffer_new_without_suitable_type_fails() {
    let types = vec![MEMORY_DEVICE_LOCAL];
    let r = GpuBuffer::new(&types, 0b1, 16, USAGE_STORAGE, MEMORY_HOST_VISIBLE, 1, 2);
    assert!(matches!(r, Err(GpuError::NoSuitableMemoryType)));
}

#[test]
fn upload_download_round_trip() {
    let types = vec![HOST];
    let mut b = GpuBuffer::new(&types, 0b1, 8, USAGE_TRANSFER_SRC, HOST, 1, 2).unwrap();
    let data = vec![1u8, 2, 3, 4, 5];
    b.upload(&data);
    let mut out = vec![0u8; 5];
    b.download(&mut out);
    assert_eq!(out, data);
}

#[test]
fn upload_leaves_residual_bytes_untouched() {
    let types = vec![HOST];
    let mut b = GpuBuffer::new(&types, 0b1, 6, USAGE_TRANSFER_SRC, HOST, 1, 2).unwrap();
    b.upload(&vec![9u8, 9, 9, 9, 9, 9]);
    b.upload(&vec![1u8, 2]);
    let mut out = vec![0u8; 6];
    b.download(&mut out);
    assert_eq!(out, vec![1u8, 2, 9, 9, 9, 9]);
}

#[test]
fn upload_may_fill_the_whole_buffer() {
    let types = vec![HOST];
    let mut b = GpuBuffer::new(&types, 0b1, 3, USAGE_TRANSFER_SRC, HOST, 1, 2).unwrap();
    b.upload(&vec![7u8, 8, 9]);
    let mut out = vec![0u8; 3];
    b.download(&mut out);
    assert_eq!(out, vec![7u8, 8, 9]);
}

#[test]
fn download_reads_prefix_only() {
    let types = vec![HOST];
    let mut b = GpuBuffer::new(&types, 0b1, 4, USAGE_TRANSFER_SRC, HOST, 1, 2).unwrap();
    b.upload(&vec![10u8, 20, 30, 40]);
    let mut out = vec![0u8; 2];
    b.download(&mut out);
    assert_eq!(out, vec![10u8, 20]);
}
