//! The dispatcher: turns a compiled [`KernelLaunchIR`] record into a
//! validated launch plan for the compute queue.
//!
//! [`dispatch`] validates the launch configuration and partitions the
//! requested invocations into workgroups: the plan's group count times
//! its block size covers every invocation, with fewer than one spare
//! block. Submitting the plan to the device and awaiting completion is
//! the runtime's side of the contract; the plan carries everything it
//! needs: the queue family, the thread count, the blocking, and the
//! body.

use vstd::prelude::*;

use crate::GpuError;
use crate::device::ComputeContext;
use crate::kernel::KernelLaunchIR;

verus! {

/// The block size chosen when the IR leaves it unspecified, before the
/// device's maximum workgroup size caps it.
pub const DEFAULT_BLOCK_SIZE: u32 = 64;

/// The block size a launch runs with: the requested one, or, when the
/// request is 0 ("unspecified"), the default capped by the device's
/// maximum workgroup size.
pub open spec fn effective_block_size(requested: u32, max_workgroup_size: u32) -> u32 {
    if requested == 0 {
        if max_workgroup_size < DEFAULT_BLOCK_SIZE {
            max_workgroup_size
        } else {
            DEFAULT_BLOCK_SIZE
        }
    } else {
        requested
    }
}

/// A validated launch, ready for submission to the compute queue.
pub struct DispatchPlan {
    /// Queue family the work is submitted to.
    pub queue_family_index: u32,
    /// Total logical invocations.
    pub threads: u32,
    /// Invocations per workgroup; always positive.
    pub block_size: u32,
    /// Number of workgroups; together they cover every invocation.
    pub group_count: u32,
    /// Normalized source text of the kernel body.
    pub body: Vec<u8>,
}

/// Validates a launch and plans its workgroup partition.
///
/// Fails with `InvalidLaunchConfiguration` exactly when the IR requests
/// zero threads. Otherwise the plan runs `ir.threads` invocations on the
/// context's queue family, in `ceil(threads / block_size)` groups of the
/// effective block size: enough groups to cover every invocation, and
/// not one group more.
pub fn dispatch(ctx: &ComputeContext, ir: &KernelLaunchIR, max_workgroup_size: u32) -> (r: Result<
    DispatchPlan,
    GpuError,
>)
    requires
        ctx.wf(),
        max_workgroup_size >= 1,
    ensures
        match r {
            Ok(p) => {
                &&& ir.threads > 0
                &&& p.threads == ir.threads
                &&& p.queue_family_index == ctx.queue_family_index
                &&& p.body@ == ir.body@
                &&& p.block_size == effective_block_size(ir.block_size, max_workgroup_size)
                &&& p.block_size >= 1
                &&& p.group_count == (ir.threads + p.block_size - 1) as int / p.block_size as int
                &&& p.group_count * p.block_size >= ir.threads
                &&& (p.group_count - 1) * p.block_size < ir.threads
            },
            Err(e) => {
                &&& e == GpuError::InvalidLaunchConfiguration
                &&& ir.threads == 0
            },
        },
{
    if ir.threads == 0 {
        return Err(GpuError::InvalidLaunchConfiguration);
    }
    let block_size: u32 = if ir.block_size == 0 {
        if max_workgroup_size < DEFAULT_BLOCK_SIZE {
            max_workgroup_size
        } else {
            DEFAULT_BLOCK_SIZE
        }
    } else {
        ir.block_size
    };
    let group_count: u32 = (ir.threads - 1) / block_size + 1;
    proof {
        let t = ir.threads as int;
        let b = block_size as int;
        let q = (t - 1) / b;
        let m = (t - 1) % b;
        vstd::arithmetic::div_mod::lemma_fundamental_div_mod(t - 1, b);
        vstd::arithmetic::div_mod::lemma_mod_bound(t - 1, b);
        assert(t - 1 == b * q + m);
        assert((q + 1) * b == b * q + b) by (nonlinear_arith);
        assert(b * (q + 1) == b * q + b) by (nonlinear_arith);
        assert(q * b == b * q) by (nonlinear_arith);
        assert(t + b - 1 == b * (q + 1) + m);
        vstd::arithmetic::div_mod::lemma_fundamental_div_mod_converse(t + b - 1, b, q + 1, m);
        assert(group_count as int == q + 1);
        assert(group_count * block_size >= ir.threads);
        assert((group_count - 1) * block_size < ir.threads);
    }
    let mut body: Vec<u8> = Vec::new();
    let mut i: usize = 0;
    while i < ir.body.len()
        invariant
            i <= ir.body@.len(),
            body@ == ir.body@.subrange(0, i as int),
        decreases ir.body@.len() - i,
    {
        let c = ir.body[i];
        body.push(c);
        assert(body@ =~= ir.body@.subrange(0, i + 1));
        i += 1;
    }
    assert(body@ =~= ir.body@);
    Ok(
        DispatchPlan {
            queue_family_index: ctx.queue_family_index,
            threads: ir.threads,
            block_size,
            group_count,
            body,
        },
    )
}

} // verus!
