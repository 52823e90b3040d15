use pulsegpu::GpuError;
use pulsegpu::device::build_context;
use pulsegpu::device::find_compute_queue_family;
use pulsegpu::device::select_device;
use pulsegpu::device::PhysicalDeviceInfo;
use pulsegpu::device::QUEUE_COMPUTE;

const QUEUE_GRAPHICS: u32 = 0x1;
const QUEUE_TRANSFER: u32 = 0x4;

fn info_with_families(families: Vec<u32>) -> PhysicalDeviceInfo {
    PhysicalDeviceInfo {
        device_id: 7,
        name: b"test-gpu".to_vec(),
        queue_family_flags: families,
        memory_type_flags: Vec::new(),
        max_workgroup_size: 256,
    }
}

#[test]
fn build_context_zero_queue_families_fails() {
    let info = info_with_families(Vec::new());
    let r = build_context(&info, 1, 2, 3);
    assert!(matches!(r, Err(GpuError::NoComputeQueueFamily)));
}

#[test]
fn build_context_without_compute_family_fails() {
    let info = info_with_families(vec![QUEUE_GRAPHICS, QUEUE_TRANSFER]);
    let r = build_context(&info, 1, 2, 3);
    assert!(matches!(r, Err(GpuError::NoComputeQueueFamily)));
}

#[test]
fn build_context_binds_qualifying_family() {
    let info = info_with_families(vec![QUEUE_TRANSFER, QUEUE_COMPUTE | QUEUE_GRAPHICS]);
    let ctx = build_context(&info, 11, 22, 33).unwrap();
    assert_eq!(ctx.queue_family_index, 1);
    assert_eq!(ctx.queue_family_flags, QUEUE_COMPUTE | QUEUE_GRAPHICS);
    assert_eq!(ctx.instance_id, 11);
    assert_eq!(ctx.device_id, 22);
    assert_eq!(ctx.queue_id, 33);
    assert_eq!(ctx.physical_device_id, 7);
}

#[test]
fn build_context_picks_first_compute_family() {
    let info = info_with_families(vec![
        QUEUE_GRAPHICS,
        QUEUE_COMPUTE | QUEUE_GRAPHICS,
        QUEUE_COMPUTE,
    ]);
    let ctx = build_context(&info, 1, 2, 3).unwrap();
    assert_eq!(ctx.queue_family_index, 1);
}

#[test]
fn find_compute_queue_family_scans_in_index_order() {
    let info = info_with_families(vec![QUEUE_TRANSFER, QUEUE_COMPUTE, QUEUE_COMPUTE]);
    assert_eq!(find_compute_queue_family(&info), Ok(1));
}

#[test]
fn select_device_empty_enumeration_fails() {
    let devices: Vec<PhysicalDeviceInfo> = Vec::new();
    let r = select_device(&devices);
    assert!(matches!(r, Err(GpuError::NoDeviceFound)));
}

#[test]
fn select_device_returns_first_enumerated() {
    let mut first = info_with_families(vec![QUEUE_COMPUTE]);
    first.device_id = 100;
    let mut second = info_with_families(vec![QUEUE_COMPUTE]);
    second.device_id = 200;
    let devices = vec![first, second];
    let d = select_device(&devices).unwrap();
    assert_eq!(d.device_id, 100);
}
