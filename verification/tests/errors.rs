//! One failing input per reachable error variant, plus edge cases around
//! zero sizes and exact timeouts.

use xrt::buffer::{IOMode, SyncDirection, XRTBuffer};
use xrt::device::XRTDevice;
use xrt::error::Error;
use xrt::kernel::{Argument, ArgumentType, XRTKernel};
use xrt::platform::{
    ArgKind, BitstreamImage, KernelBehavior, KernelImage, Platform, XCL_BO_FLAGS_NONE,
};
use xrt::run::{ERTCommandState, XRTRun};
use xrt::utils::xclbin_path_for;

fn plat_with_add() -> Platform {
    let mut plat = Platform::new(1);
    plat.install_image(
        xclbin_path_for("add", "sw_emu"),
        BitstreamImage {
            uuid: 0xad,
            kernels: vec![KernelImage {
                name: String::from("add"),
                args: vec![
                    ArgKind::Scalar,
                    ArgKind::Scalar,
                    ArgKind::MemoryArg { group: 0 },
                ],
                duration_ms: 100,
                behavior: KernelBehavior::ScalarAdd,
            }],
        },
    );
    plat
}

fn ready_device(plat: &mut Platform) -> XRTDevice {
    let mut device = XRTDevice::from_index(0, plat).expect("open");
    let path = xclbin_path_for("add", "sw_emu");
    device.load_xclbin(path.as_str(), plat).expect("load");
    device
}

#[test]
fn unopened_device_errors() {
    let mut plat = plat_with_add();
    let device = XRTDevice::new();
    assert!(matches!(
        XRTBuffer::new(&device, 4, XCL_BO_FLAGS_NONE, 0, &mut plat),
        Err(Error::UnopenedDeviceError)
    ));
    let mut blank = XRTDevice::new();
    assert!(matches!(
        blank.load_xclbin("add_sw_emu.xclbin", &mut plat),
        Err(Error::UnopenedDeviceError)
    ));
}

#[test]
fn dead_connection_errors() {
    let mut plat = plat_with_add();
    let mut device = XRTDevice::from_index(0, &mut plat).expect("open");
    // Release the connection behind the device's back; its handle is now
    // stale, which the platform rejects rather than the device layer.
    let h = device.handle.unwrap();
    let _ = plat.device_close(h);
    let path = xclbin_path_for("add", "sw_emu");
    assert!(matches!(
        device.load_xclbin(path.as_str(), &mut plat),
        Err(Error::XclbinLoadError)
    ));
    assert!(matches!(
        XRTBuffer::new(&device, 4, XCL_BO_FLAGS_NONE, 0, &mut plat),
        Err(Error::BOCreationError)
    ));
}

#[test]
fn kernel_before_bitstream_errors() {
    let mut plat = plat_with_add();
    let mut device = XRTDevice::from_index(0, &mut plat).expect("open");
    let r = device.load_kernel("add", vec![], &mut plat);
    assert!(matches!(r, Err(Error::XclbinNotLoadedError)));
    assert!(matches!(
        device.kernel("add"),
        Err(Error::KernelNotLoadedYetError)
    ));
}

#[test]
fn closed_kernel_cannot_create_runs() {
    let mut plat = plat_with_add();
    let device = ready_device(&mut plat);
    let mut kernel = XRTKernel::new("add", &device, &mut plat).expect("kernel");
    let live = XRTKernel { handle: kernel.handle, argument_mapping: Vec::new() };
    kernel.close(&mut plat);
    // The closed kernel has no handle at all.
    assert!(matches!(
        XRTRun::new(&kernel, &mut plat),
        Err(Error::KernelNotLoadedYetError)
    ));
    // A stale copy of the handle is rejected by the platform.
    assert!(matches!(
        XRTRun::new(&live, &mut plat),
        Err(Error::RunCreationError)
    ));
}

#[test]
fn scalar_slot_has_no_memory_group() {
    let mut plat = plat_with_add();
    let device = ready_device(&mut plat);
    let kernel = XRTKernel::new("add", &device, &mut plat).expect("kernel");
    assert!(matches!(
        kernel.get_memory_group_for_argument(0, &plat),
        Err(Error::KernelArgRtrvError)
    ));
    assert!(matches!(
        kernel.get_memory_group_for_argument(9, &plat),
        Err(Error::KernelArgRtrvError)
    ));
    assert_eq!(kernel.get_memory_group_for_argument(2, &plat).unwrap(), 0);
}

#[test]
fn closed_run_rejects_everything() {
    let mut plat = plat_with_add();
    let device = ready_device(&mut plat);
    let kernel = XRTKernel::new("add", &device, &mut plat).expect("kernel");
    let mut run = XRTRun::new(&kernel, &mut plat).expect("run");
    run.close(&mut plat);
    assert!(matches!(
        run.set_scalar_argument(0, 1u32, &mut plat),
        Err(Error::RunNotCreatedYetError)
    ));
    assert!(matches!(run.get_state(&plat), Err(Error::RunNotCreatedYetError)));
    assert!(matches!(run.wait(&mut plat), Err(Error::RunNotCreatedYetError)));
}

#[test]
fn buffer_capacity_is_enforced() {
    let mut plat = plat_with_add();
    let device = ready_device(&mut plat);
    let buffer = XRTBuffer::new(&device, 8, XCL_BO_FLAGS_NONE, 0, &mut plat).expect("buffer");

    // Three u32 words do not fit eight bytes.
    let too_much: [u32; 3] = [1, 2, 3];
    assert!(matches!(
        buffer.write(&too_much, 0, &mut plat),
        Err(Error::BOWriteError)
    ));
    // Neither do two words starting at offset four.
    let two: [u32; 2] = [1, 2];
    assert!(matches!(
        buffer.write(&two, 4, &mut plat),
        Err(Error::BOWriteError)
    ));
    assert!(matches!(
        buffer.read::<u32>(3, 0, &plat),
        Err(Error::BOReadError)
    ));
    assert!(matches!(
        buffer.sync(SyncDirection::HostToDevice, Some(9), 0, &mut plat),
        Err(Error::BOSyncError)
    ));

    let mut closed = XRTBuffer { handle: None, size: 8 };
    assert!(matches!(closed.write(&two, 0, &mut plat), Err(Error::BONotCreatedYet)));
    assert!(matches!(
        closed.sync(SyncDirection::HostToDevice, None, 0, &mut plat),
        Err(Error::BONotCreatedYet)
    ));
    closed.close(&mut plat);
}

#[test]
fn resolution_rejects_scalar_slots_needing_buffers() {
    let mut plat = plat_with_add();
    let mut device = ready_device(&mut plat);
    // Slot 0 of "add" is scalar, so it has no memory group to allocate in.
    let bad = vec![(0u32, ArgumentType::NotRealizedBuffer(4, IOMode::Output))];
    assert!(matches!(
        device.load_kernel("add", bad, &mut plat),
        Err(Error::InvalidGroupIDError)
    ));
}

#[test]
fn loading_argument_data_maps_each_failure() {
    let mut plat = plat_with_add();
    let mut device = ready_device(&mut plat);
    let arglist = vec![
        (0u32, ArgumentType::Passed),
        (1u32, ArgumentType::Passed),
        (2u32, ArgumentType::NotRealizedBuffer(4, IOMode::Output)),
    ];
    device.load_kernel("add", arglist, &mut plat).expect("kernel");
    let kernel = device.get_kernel("add").expect("held");

    // Wrong length.
    let short = vec![(0u32, Argument::Direct(1))];
    assert!(matches!(
        kernel.create_run(short, &mut plat),
        Err(Error::NonMatchingArgumentLists)
    ));

    // A slot missing from the map.
    let mut run = kernel
        .create_run(
            vec![
                (0u32, Argument::Direct(1)),
                (1u32, Argument::Direct(2)),
                (9u32, Argument::BufferContent(vec![0])),
            ],
            &mut plat,
        )
        .expect("run");
    assert!(matches!(
        run.load_arguments(&kernel.argument_mapping, &mut plat),
        Err(Error::InvalidArgumentIndex)
    ));

    // Buffer content for a slot the map passes directly.
    let mut run = kernel
        .create_run(
            vec![
                (0u32, Argument::BufferContent(vec![0])),
                (1u32, Argument::Direct(2)),
                (2u32, Argument::BufferContent(vec![0, 0, 0, 0])),
            ],
            &mut plat,
        )
        .expect("run");
    assert!(matches!(
        run.load_arguments(&kernel.argument_mapping, &mut plat),
        Err(Error::ExpectedBufferArgumentType)
    ));

    // More content than the resolved buffer holds.
    let mut run = kernel
        .create_run(
            vec![
                (0u32, Argument::Direct(1)),
                (1u32, Argument::Direct(2)),
                (2u32, Argument::BufferContent(vec![0; 64])),
            ],
            &mut plat,
        )
        .expect("run");
    assert!(matches!(
        run.load_arguments(&kernel.argument_mapping, &mut plat),
        Err(Error::FailedBOWrite)
    ));

    // A direct value for a slot the kernel does not declare.
    let mut run = kernel
        .create_run(
            vec![
                (0u32, Argument::Direct(1)),
                (7u32, Argument::Direct(2)),
                (2u32, Argument::BufferContent(vec![0, 0, 0, 0])),
            ],
            &mut plat,
        )
        .expect("run");
    assert!(matches!(
        run.load_arguments(&kernel.argument_mapping, &mut plat),
        Err(Error::RunArgumentSetError(7, 2))
    ));

    // A rejected scalar binding carries the slot and the value's bits.
    let kernel2 = XRTKernel::new("add", &device, &mut plat).expect("kernel");
    let mut run2 = XRTRun::new(&kernel2, &mut plat).expect("run");
    assert!(matches!(
        run2.set_scalar_argument(9, 5u32, &mut plat),
        Err(Error::RunArgumentSetError(9, 5))
    ));
}

#[test]
fn zero_sized_transfers_are_fine() {
    let mut plat = plat_with_add();
    let device = ready_device(&mut plat);
    let buffer = XRTBuffer::new(&device, 0, XCL_BO_FLAGS_NONE, 0, &mut plat).expect("buffer");
    let nothing: [u32; 0] = [];
    assert!(buffer.write(&nothing, 0, &mut plat).is_ok());
    assert!(buffer.sync(SyncDirection::HostToDevice, None, 0, &mut plat).is_ok());
    let back: Vec<u32> = buffer.read(0, 0, &plat).expect("read");
    assert!(back.is_empty());
}

#[test]
fn exact_timeout_completes() {
    let mut plat = plat_with_add();
    let device = ready_device(&mut plat);
    let kernel = XRTKernel::new("add", &device, &mut plat).expect("kernel");
    let mut run = XRTRun::new(&kernel, &mut plat).expect("run");
    let out = XRTBuffer::new(&device, 4, XCL_BO_FLAGS_NONE, 0, &mut plat).expect("out");
    run.set_scalar_argument(0, 1u32, &mut plat).expect("a");
    run.set_scalar_argument(1, 2u32, &mut plat).expect("b");
    run.set_buffer_argument(2, &out, &mut plat).expect("out");
    // The kernel's modeled duration is exactly 100 ms.
    let state = run.start_run(true, 100, &mut plat).expect("start");
    assert_eq!(state, ERTCommandState::Completed);
}
