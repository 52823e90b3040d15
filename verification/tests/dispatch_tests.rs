use pulsegpu::device::ComputeContext;
use pulsegpu::device::QUEUE_COMPUTE;
use pulsegpu::dispatcher::dispatch;
use pulsegpu::dispatcher::DEFAULT_BLOCK_SIZE;
use pulsegpu::kernel::KernelLaunchIR;
use pulsegpu::GpuError;

fn compute_ctx(queue_family_index: u32) -> ComputeContext {
    ComputeContext {
        instance_id: 1,
        device_id: 2,
        queue_id: 3,
        physical_device_id: 4,
        queue_family_index,
        queue_family_flags: QUEUE_COMPUTE,
    }
}

fn ir(threads: u32, block_size: u32) -> KernelLaunchIR {
    KernelLaunchIR { threads, block_size, body: b"x += 1 ;".to_vec() }
}

#[test]
fn zero_threads_is_rejected() {
    let r = dispatch(&compute_ctx(0), &ir(0, 16), 256);
    assert!(matches!(r, Err(GpuError::InvalidLaunchConfiguration)));
}

#[test]
fn partitions_threads_into_ceil_groups() {
    let p = dispatch(&compute_ctx(0), &ir(100, 16), 256).unwrap();
    assert_eq!(p.block_size, 16);
    assert_eq!(p.group_count, 7);
    assert_eq!(p.threads, 100);
}

#[test]
fn exact_division_needs_no_spare_group() {
    let p = dispatch(&compute_ctx(0), &ir(128, 16), 256).unwrap();
    assert_eq!(p.group_count, 8);
}

#[test]
fn unspecified_block_size_gets_default() {
    let p = dispatch(&compute_ctx(0), &ir(100, 0), 256).unwrap();
    assert_eq!(p.block_size, DEFAULT_BLOCK_SIZE);
    assert_eq!(p.group_count, 2);
}

#[test]
fn default_block_size_honors_device_maximum() {
    let p = dispatch(&compute_ctx(0), &ir(100, 0), 32).unwrap();
    assert_eq!(p.block_size, 32);
    assert_eq!(p.group_count, 4);
}

#[test]
fn single_thread_runs_in_one_group() {
    let p = dispatch(&compute_ctx(0), &ir(1, 0), 256).unwrap();
    assert_eq!(p.group_count, 1);
}

#[test]
fn plan_carries_queue_family_and_body() {
    let p = dispatch(&compute_ctx(5), &ir(8, 4), 256).unwrap();
    assert_eq!(p.queue_family_index, 5);
    assert_eq!(p.body, b"x += 1 ;".to_vec());
}
