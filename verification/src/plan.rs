//! What one invocation asks of the device: three buffers, one pipeline wired to
//! two of them, and one dispatch followed by one copy.

use vstd::prelude::*;
use crate::layout::{input_size, output_size};

verus! {

/// Candidates of one invocation from the browser: about a megabyte of input.
pub const BATCH_SIZE: u32 = 50_000;

/// Candidates of one invocation of the standalone host.
pub const HOST_BATCH_SIZE: u32 = 1_000_000;

/// The starting value of the standalone host: two to the hundredth power.
pub const HOST_START: u128 = 0x10_0000_0000_0000_0000_0000_0000;

/// Invocations of the compute program in one workgroup.
pub const WORKGROUP_SIZE: u32 = 64;

/// The binding at which the compute program reads its input records.
pub const INPUT_BINDING: u32 = 0;

/// The binding at which the compute program writes its output records.
pub const OUTPUT_BINDING: u32 = 1;

/// The bind group that holds both bindings.
pub const BIND_GROUP: u32 = 0;

/// The compute program's entry point.
pub const ENTRY_POINT: &'static str = "main";

/// The part that a buffer plays in an invocation.
#[derive(Clone, Copy, Debug, PartialEq, Eq, Structural)]
pub enum BufferRole {
    /// Holds the candidates; the compute stage reads it.
    Input,
    /// Takes the results; the compute stage writes it and a copy reads it.
    Output,
    /// Takes the copy of the results; the host maps it for reading.
    Staging,
}

/// What a buffer may be used for.
#[derive(Clone, Copy, Debug, PartialEq, Eq, Structural)]
pub struct BufferUsage {
    /// Bound to the compute stage as a storage buffer.
    pub storage: bool,
    /// Read by a buffer-to-buffer copy.
    pub copy_src: bool,
    /// Written by a buffer-to-buffer copy.
    pub copy_dst: bool,
    /// Mapped by the host for reading.
    pub map_read: bool,
}

/// A buffer to allocate.
#[derive(Clone, Copy, Debug, PartialEq, Eq, Structural)]
pub struct BufferPlan {
    pub role: BufferRole,
    /// Size in bytes.
    pub size: u64,
    pub usage: BufferUsage,
}

/// The work to record and submit, once.
#[derive(Clone, Copy, Debug, PartialEq, Eq, Structural)]
pub struct DispatchPlan {
    /// Workgroups in the X dimension.
    pub workgroups_x: u32,
    /// Workgroups in the Y dimension.
    pub workgroups_y: u32,
    /// Workgroups in the Z dimension.
    pub workgroups_z: u32,
    /// Bytes to copy from the start of the output buffer to the start of the
    /// staging buffer once the compute pass has ended.
    pub copy_bytes: u64,
}

/// The uses of the buffer that plays `role`.
pub open spec fn usage_for(role: BufferRole) -> BufferUsage {
    match role {
        BufferRole::Input => BufferUsage {
            storage: true,
            copy_src: false,
            copy_dst: false,
            map_read: false,
        },
        BufferRole::Output => BufferUsage {
            storage: true,
            copy_src: true,
            copy_dst: false,
            map_read: false,
        },
        BufferRole::Staging => BufferUsage {
            storage: false,
            copy_src: false,
            copy_dst: true,
            map_read: true,
        },
    }
}

/// The size in bytes of the buffer that plays `role` for `count` candidates:
/// sixteen bytes a candidate going in, thirty-two coming out.
pub open spec fn size_for(role: BufferRole, count: u32) -> int {
    match role {
        BufferRole::Input => 16 * count,
        BufferRole::Output => 32 * count,
        BufferRole::Staging => 32 * count,
    }
}

/// The least number of workgroups that covers `count` candidates.
pub open spec fn workgroups_for(count: u32) -> int {
    (count + 63) / 64
}

/// The buffer that plays `role` for `count` candidates.
pub open spec fn planned_buffer(role: BufferRole, count: u32) -> BufferPlan {
    BufferPlan { role, size: size_for(role, count) as u64, usage: usage_for(role) }
}

/// The dispatch and the copy for `count` candidates.
pub open spec fn planned_dispatch(count: u32) -> DispatchPlan {
    DispatchPlan {
        workgroups_x: workgroups_for(count) as u32,
        workgroups_y: 1,
        workgroups_z: 1,
        copy_bytes: size_for(BufferRole::Output, count) as u64,
    }
}

/// The buffer that plays `role` in an invocation on `count` candidates.
pub fn plan_buffer(role: BufferRole, count: u32) -> (plan: BufferPlan)
    ensures
        plan == planned_buffer(role, count),
        plan.size == size_for(role, count),
{
    match role {
        BufferRole::Input => BufferPlan {
            role,
            size: input_size(count),
            usage: BufferUsage { storage: true, copy_src: false, copy_dst: false, map_read: false },
        },
        BufferRole::Output => BufferPlan {
            role,
            size: output_size(count),
            usage: BufferUsage { storage: true, copy_src: true, copy_dst: false, map_read: false },
        },
        BufferRole::Staging => BufferPlan {
            role,
            size: output_size(count),
            usage: BufferUsage { storage: false, copy_src: false, copy_dst: true, map_read: true },
        },
    }
}

/// The number of workgroups to dispatch for `count` candidates.
pub fn workgroup_count(count: u32) -> (n: u32)
    ensures
        n == workgroups_for(count),
{
    count / WORKGROUP_SIZE + if count % WORKGROUP_SIZE == 0 {
        0
    } else {
        1
    }
}

/// The dispatch and the copy for `count` candidates.
pub fn plan_dispatch(count: u32) -> (plan: DispatchPlan)
    ensures
        plan == planned_dispatch(count),
        plan.workgroups_x == workgroups_for(count),
        plan.copy_bytes == size_for(BufferRole::Output, count),
{
    DispatchPlan {
        workgroups_x: workgroup_count(count),
        workgroups_y: 1,
        workgroups_z: 1,
        copy_bytes: output_size(count),
    }
}

/// The workgroups dispatched cover every candidate, and one fewer would not.
pub proof fn lemma_workgroups_cover(count: u32)
    ensures
        0 <= workgroups_for(count) <= u32::MAX,
        workgroups_for(count) * 64 >= count,
        (workgroups_for(count) - 1) * 64 < count,
{
}

/// Output and staging buffer have the same size, a whole number of records, and
/// the copy covers all of it.
pub proof fn lemma_output_matches_staging(count: u32)
    ensures
        size_for(BufferRole::Output, count) == size_for(BufferRole::Staging, count),
        size_for(BufferRole::Output, count) % 32 == 0,
        size_for(BufferRole::Output, count) / 32 == count,
        0 <= size_for(BufferRole::Input, count) <= u64::MAX,
        0 <= size_for(BufferRole::Output, count) <= u64::MAX,
{
}

} // verus!
