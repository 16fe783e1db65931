use drowned_god::probe::{
    announce, announce_dispatch, elapsed, fastest, is_amd, pick_device, pick_memory_type,
    pick_queue_family, push_bytes, spirv_words, workgroups, Kernel, ProbeError, WORKING_SET_BYTES,
};

fn names(v: &[&str]) -> Vec<String> {
    v.iter().map(|s| s.to_string()).collect()
}

#[test]
fn first_amd_device_is_picked() {
    assert_eq!(pick_device(&names(&["llvmpipe", "AMD Radeon 890M", "AMD"])), Ok(1));
    assert_eq!(pick_device(&names(&["RADEON (RADV GFX1150)"])), Ok(0));
    assert_eq!(pick_device(&names(&["NVIDIA", ""])), Err(ProbeError::NoDevice));
    assert_eq!(pick_device(&Vec::new()), Err(ProbeError::NoDevice));
    assert!(is_amd("my amd gpu") && is_amd("radeon") && !is_amd("AMD") && !is_amd("am d"));
}

#[test]
fn first_compute_family_is_picked() {
    assert_eq!(pick_queue_family(&vec![1, 4, 7, 2]), Ok(2));
    assert_eq!(pick_queue_family(&vec![1, 4]), Err(ProbeError::NoComputeQueue));
}

#[test]
fn first_local_memory_is_picked() {
    assert_eq!(pick_memory_type(&vec![6, 0, 3, 1]), Ok(2));
    assert_eq!(pick_memory_type(&vec![6, 14]), Err(ProbeError::NoDeviceMemory));
}

#[test]
fn errors_have_words() {
    assert_eq!(ProbeError::NoDevice.message(), "no AMD/Radeon device found");
    assert_eq!(ProbeError::NoComputeQueue.message(), "no compute queue family");
    assert_eq!(ProbeError::NoDeviceMemory.message(), "no DEVICE_LOCAL memory type");
}

#[test]
fn kernels_have_their_constants() {
    assert_eq!((Kernel::Copy.label(), Kernel::Copy.buffers()), ("COPY", 2));
    assert_eq!((Kernel::Triad.label(), Kernel::Triad.buffers()), ("TRIAD", 3));
    assert_eq!((Kernel::Copy.elements(), Kernel::Triad.elements()), (33554432, 22369621));
    assert_eq!(Kernel::Copy.push_constants(), [33554432, 4]);
    assert_eq!(Kernel::Triad.push_constants(), [22369621, 4, 3]);
}

#[test]
fn buffers_share_the_working_set() {
    assert_eq!(WORKING_SET_BYTES, 1 << 30);
    assert_eq!(Kernel::Copy.buffer_bytes(), 1 << 29);
    assert_eq!(Kernel::Triad.buffer_bytes(), 357913941);
    assert_eq!(Kernel::Copy.bytes_per_pass(), WORKING_SET_BYTES);
    assert_eq!(Kernel::Triad.bytes_per_pass(), WORKING_SET_BYTES - 1);
    assert_eq!(Kernel::Copy.bytes_per_dispatch(), 4 << 30);
    assert_eq!(Kernel::Triad.bytes_per_dispatch(), 4294967292);
}

#[test]
fn kernels_are_announced() {
    assert_eq!(
        announce(&Kernel::Triad),
        [
            "\n=== TRIAD ===",
            "buffers: 3 × 341 MB = 1023 MB working set",
            "bytes per dispatch (incl. 4 loops): 4095 MB",
        ]
    );
    assert_eq!(
        announce(&Kernel::Copy),
        [
            "\n=== COPY ===",
            "buffers: 2 × 512 MB = 1024 MB working set",
            "bytes per dispatch (incl. 4 loops): 4096 MB",
        ]
    );
    assert_eq!(
        announce_dispatch(65535),
        "dispatch: 65535 workgroups × 256 threads = 16776960 invocations"
    );
}

#[test]
fn dispatches_cover_the_elements() {
    assert_eq!(workgroups(0), 0);
    assert_eq!(workgroups(1), 1);
    assert_eq!(workgroups(256), 1);
    assert_eq!(workgroups(257), 2);
    assert_eq!(workgroups(Kernel::Copy.elements()), 65535);
    assert_eq!(workgroups(Kernel::Triad.elements()), 65535);
    assert_eq!(workgroups(u32::MAX - 255), 65535);
}

#[test]
fn words_and_bytes_are_inverse() {
    let words = vec![0x0723_0203, 0xffff_fffe, 1];
    let bytes = push_bytes(&words);
    assert_eq!(bytes, [3, 2, 0x23, 7, 0xfe, 0xff, 0xff, 0xff, 1, 0, 0, 0]);
    assert_eq!(spirv_words(&bytes), words);
    assert_eq!(push_bytes(&spirv_words(&bytes)), bytes);
    assert!(spirv_words(&[]).is_empty());
}

#[test]
fn shortest_trial_wins() {
    assert_eq!(elapsed(5, 9), 4);
    assert_eq!(elapsed(9, 5), 0);
    assert_eq!(fastest(&vec![7, 3, 9, 3]), Some(3));
    assert_eq!(fastest(&Vec::new()), None);
}
