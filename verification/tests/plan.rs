use gpu_collatz::plan::{
    plan_buffer, plan_dispatch, workgroup_count, BufferPlan, BufferRole, BufferUsage, DispatchPlan,
    BATCH_SIZE, BIND_GROUP, ENTRY_POINT, HOST_BATCH_SIZE, HOST_START, INPUT_BINDING,
    OUTPUT_BINDING, WORKGROUP_SIZE,
};

#[test]
fn workgroups_cover_the_candidates() {
    assert_eq!(workgroup_count(0), 0);
    assert_eq!(workgroup_count(1), 1);
    assert_eq!(workgroup_count(63), 1);
    assert_eq!(workgroup_count(64), 1);
    assert_eq!(workgroup_count(65), 2);
    assert_eq!(workgroup_count(128), 2);
    assert_eq!(workgroup_count(50_000), 782);
    assert_eq!(workgroup_count(1_000_000), 15_625);
    assert_eq!(workgroup_count(u32::MAX), 67_108_864);
    assert_eq!(workgroup_count(u32::MAX - 62), 67_108_864);
    assert_eq!(workgroup_count(u32::MAX - 63), 67_108_863);
}

#[test]
fn no_workgroup_is_spare() {
    for count in [1u32, 5, 64, 65, 4096, 4097, 50_000, 999_999] {
        let n = workgroup_count(count) as u64;
        assert!(n * 64 >= count as u64);
        assert!((n - 1) * 64 < count as u64);
    }
}

#[test]
fn the_input_buffer_is_storage_only() {
    assert_eq!(
        plan_buffer(BufferRole::Input, 50_000),
        BufferPlan {
            role: BufferRole::Input,
            size: 800_000,
            usage: BufferUsage { storage: true, copy_src: false, copy_dst: false, map_read: false },
        }
    );
}

#[test]
fn the_output_buffer_is_storage_and_copy_source() {
    assert_eq!(
        plan_buffer(BufferRole::Output, 50_000),
        BufferPlan {
            role: BufferRole::Output,
            size: 1_600_000,
            usage: BufferUsage { storage: true, copy_src: true, copy_dst: false, map_read: false },
        }
    );
}

#[test]
fn the_staging_buffer_is_mappable_copy_destination() {
    assert_eq!(
        plan_buffer(BufferRole::Staging, 50_000),
        BufferPlan {
            role: BufferRole::Staging,
            size: 1_600_000,
            usage: BufferUsage { storage: false, copy_src: false, copy_dst: true, map_read: true },
        }
    );
}

#[test]
fn output_and_staging_are_the_same_whole_number_of_records() {
    for count in [0u32, 1, 5, 50_000, 1_000_000, u32::MAX] {
        let output = plan_buffer(BufferRole::Output, count);
        let staging = plan_buffer(BufferRole::Staging, count);
        assert_eq!(output.size, staging.size);
        assert_eq!(output.size % 32, 0);
        assert_eq!(output.size / 32, count as u64);
        assert_eq!(plan_buffer(BufferRole::Input, count).size, 16 * count as u64);
    }
}

#[test]
fn the_dispatch_is_one_row_of_workgroups_and_a_full_copy() {
    assert_eq!(
        plan_dispatch(50_000),
        DispatchPlan { workgroups_x: 782, workgroups_y: 1, workgroups_z: 1, copy_bytes: 1_600_000 }
    );
    assert_eq!(
        plan_dispatch(5),
        DispatchPlan { workgroups_x: 1, workgroups_y: 1, workgroups_z: 1, copy_bytes: 160 }
    );
    assert_eq!(
        plan_dispatch(0),
        DispatchPlan { workgroups_x: 0, workgroups_y: 1, workgroups_z: 1, copy_bytes: 0 }
    );
}

#[test]
fn the_wiring_is_fixed() {
    assert_eq!(WORKGROUP_SIZE, 64);
    assert_eq!(BIND_GROUP, 0);
    assert_eq!(INPUT_BINDING, 0);
    assert_eq!(OUTPUT_BINDING, 1);
    assert_eq!(ENTRY_POINT, "main");
}

#[test]
fn the_batches_are_fixed() {
    assert_eq!(BATCH_SIZE, 50_000);
    assert_eq!(HOST_BATCH_SIZE, 1_000_000);
    assert_eq!(HOST_START, 1u128 << 100);
    assert_eq!(HOST_START.to_string(), "1267650600228229401496703205376");
}
