//! End-to-end scenarios against the modeled platform: vector scaling,
//! scalar addition, the staging round trip, under-bound starts, and
//! waiting with a timeout.

use xrt::buffer::{SyncDirection, XRTBuffer};
use xrt::device::XRTDevice;
use xrt::error::Error;
use xrt::kernel::XRTKernel;
use xrt::platform::{
    ArgKind, BitstreamImage, KernelBehavior, KernelImage, Platform, XCL_BO_FLAGS_NONE,
};
use xrt::run::{ERTCommandState, XRTRun};
use xrt::utils::xclbin_path_for;

fn scenario_platform() -> Platform {
    let mut plat = Platform::new(1);
    plat.install_image(
        xclbin_path_for("./hls/vscale_u32", "sw_emu"),
        BitstreamImage {
            uuid: 0x51,
            kernels: vec![KernelImage {
                name: String::from("vscale_u32"),
                args: vec![
                    ArgKind::Scalar,
                    ArgKind::Scalar,
                    ArgKind::MemoryArg { group: 1 },
                    ArgKind::MemoryArg { group: 2 },
                ],
                duration_ms: 500,
                behavior: KernelBehavior::VectorScale { width: 4 },
            }],
        },
    );
    plat.install_image(
        xclbin_path_for("add", "sw_emu"),
        BitstreamImage {
            uuid: 0xad,
            kernels: vec![
                KernelImage {
                    name: String::from("add"),
                    args: vec![
                        ArgKind::Scalar,
                        ArgKind::Scalar,
                        ArgKind::MemoryArg { group: 0 },
                    ],
                    duration_ms: 100,
                    behavior: KernelBehavior::ScalarAdd,
                },
                KernelImage {
                    name: String::from("slow"),
                    args: vec![ArgKind::Scalar],
                    duration_ms: 5000,
                    behavior: KernelBehavior::Passthrough,
                },
            ],
        },
    );
    plat
}

#[test]
fn simple_vscale_u32_test() -> Result<(), Error> {
    let mut plat = scenario_platform();

    let mut device = XRTDevice::from_index(0, &mut plat)?;
    device.load_xclbin(xclbin_path_for("./hls/vscale_u32", "sw_emu").as_str(), &mut plat)?;
    let add_kernel = XRTKernel::new("vscale_u32", &device, &mut plat)?;
    let mut add_run = XRTRun::new(&add_kernel, &mut plat)?;
    let in_buffer = XRTBuffer::new(
        &device,
        16 * 4,
        XCL_BO_FLAGS_NONE,
        add_kernel.get_memory_group_for_argument(2, &plat)?,
        &mut plat,
    )?;
    let out_buffer = XRTBuffer::new(
        &device,
        16 * 4,
        XCL_BO_FLAGS_NONE,
        add_kernel.get_memory_group_for_argument(3, &plat)?,
        &mut plat,
    )?;

    let input: [u32; 16] = [7; 16];
    in_buffer.write(&input, 0, &mut plat)?;
    in_buffer.sync(SyncDirection::HostToDevice, None, 0, &mut plat)?;

    // Set args
    add_run.set_argument(0, 16u32, &mut plat)?;
    add_run.set_argument(1, 6u32, &mut plat)?;
    add_run.set_argument(2, in_buffer.get_handle().unwrap(), &mut plat)?;
    add_run.set_argument(3, out_buffer.get_handle().unwrap(), &mut plat)?;

    // Run
    let result_state = add_run.start_run(true, 1000, &mut plat)?;
    assert_eq!(result_state, ERTCommandState::Completed);

    // Get back data
    out_buffer.sync(SyncDirection::DeviceToHost, None, 0, &mut plat)?;
    let output: Vec<u32> = out_buffer.read(16, 0, &plat)?;

    // Check result
    for elem in output {
        assert_eq!(elem, 42);
    }
    Ok(())
}

// End-to-end addition: 3 + 5 bound to slots 0 and 1, a 4-byte output
// buffer on slot 2, and 8 read back after completion.
#[test]
fn addition_end_to_end() -> Result<(), Error> {
    let mut plat = scenario_platform();
    let mut device = XRTDevice::from_index(0, &mut plat)?;
    device.load_xclbin(xclbin_path_for("add", "sw_emu").as_str(), &mut plat)?;
    let kernel = XRTKernel::new("add", &device, &mut plat)?;
    let mut run = XRTRun::new(&kernel, &mut plat)?;

    let out_buffer = XRTBuffer::new(
        &device,
        4,
        XCL_BO_FLAGS_NONE,
        kernel.get_memory_group_for_argument(2, &plat)?,
        &mut plat,
    )?;

    run.set_scalar_argument(0, 3u32, &mut plat)?;
    run.set_scalar_argument(1, 5u32, &mut plat)?;
    run.set_buffer_argument(2, &out_buffer, &mut plat)?;

    let state = run.start_run(true, 0, &mut plat)?;
    assert_eq!(state, ERTCommandState::Completed);

    out_buffer.sync(SyncDirection::DeviceToHost, None, 0, &mut plat)?;
    let value: Vec<u32> = out_buffer.read(1, 0, &plat)?;
    assert_eq!(value.len(), 1);
    assert_eq!(value[0], 8);
    Ok(())
}

// Writing N bytes, syncing to the device and back, and reading N elements
// returns exactly what was written when nothing touched the buffer.
#[test]
fn staging_round_trip() -> Result<(), Error> {
    let mut plat = scenario_platform();
    let device = XRTDevice::from_index(0, &mut plat)?;
    let buffer = XRTBuffer::new(&device, 32, XCL_BO_FLAGS_NONE, 0, &mut plat)?;

    let data: [u32; 8] = [1, 2, 3, 4, 5, 6, 7, 0xdead_beef];
    buffer.write(&data, 0, &mut plat)?;
    buffer.sync(SyncDirection::HostToDevice, None, 0, &mut plat)?;
    buffer.sync(SyncDirection::DeviceToHost, None, 0, &mut plat)?;
    let back: Vec<u32> = buffer.read(8, 0, &plat)?;
    assert_eq!(back.len(), 8);
    for i in 0..8 {
        assert_eq!(back[i], data[i]);
    }
    Ok(())
}

// Binding fewer slots than the kernel declares is constructible, and the
// start is rejected: the run reports the failure as the `Error` state.
#[test]
fn underbound_start_reports_error_state() -> Result<(), Error> {
    let mut plat = scenario_platform();
    let mut device = XRTDevice::from_index(0, &mut plat)?;
    device.load_xclbin(xclbin_path_for("add", "sw_emu").as_str(), &mut plat)?;
    let kernel = XRTKernel::new("add", &device, &mut plat)?;
    let mut run = XRTRun::new(&kernel, &mut plat)?;

    // Only one of the three declared slots is bound.
    run.set_scalar_argument(0, 3u32, &mut plat)?;

    let state = run.start_run(true, 0, &mut plat)?;
    assert_eq!(state, ERTCommandState::Error);
    assert_eq!(run.get_state(&plat)?, ERTCommandState::Error);
    Ok(())
}

// Binding a buffer from the wrong memory group is rejected at binding
// time.
#[test]
fn wrong_group_binding_rejected() -> Result<(), Error> {
    let mut plat = scenario_platform();
    let mut device = XRTDevice::from_index(0, &mut plat)?;
    device.load_xclbin(xclbin_path_for("add", "sw_emu").as_str(), &mut plat)?;
    let kernel = XRTKernel::new("add", &device, &mut plat)?;
    let mut run = XRTRun::new(&kernel, &mut plat)?;

    // Slot 2 of "add" lives in group 0; allocate in group 3 instead.
    let wrong = XRTBuffer::new(&device, 4, XCL_BO_FLAGS_NONE, 3, &mut plat)?;
    let r = run.set_buffer_argument(2, &wrong, &mut plat);
    assert!(matches!(r, Err(Error::SetRunArgError)));
    Ok(())
}

// A wait shorter than the kernel's completion time yields `Timeout`, not a
// hard error and not an endless block; the run stays open and a full wait
// still completes it.
#[test]
fn short_timeout_yields_timeout_state() -> Result<(), Error> {
    let mut plat = scenario_platform();
    let mut device = XRTDevice::from_index(0, &mut plat)?;
    device.load_xclbin(xclbin_path_for("add", "sw_emu").as_str(), &mut plat)?;
    let kernel = XRTKernel::new("slow", &device, &mut plat)?;
    let mut run = XRTRun::new(&kernel, &mut plat)?;
    run.set_scalar_argument(0, 1u32, &mut plat)?;

    // The slow kernel needs 5000 ms; wait only 100.
    let state = run.start_run(true, 100, &mut plat)?;
    assert_eq!(state, ERTCommandState::Timeout);
    assert_eq!(run.get_state(&plat)?, ERTCommandState::Running);

    // An unbounded wait finishes it.
    let done = run.wait(&mut plat)?;
    assert_eq!(done, ERTCommandState::Completed);
    Ok(())
}

// Waiting in installments: each timed-out wait debits the modeled time
// left, so enough installments complete the run.
#[test]
fn wait_in_installments_completes() -> Result<(), Error> {
    let mut plat = scenario_platform();
    let mut device = XRTDevice::from_index(0, &mut plat)?;
    device.load_xclbin(xclbin_path_for("add", "sw_emu").as_str(), &mut plat)?;
    let kernel = XRTKernel::new("slow", &device, &mut plat)?;
    let mut run = XRTRun::new(&kernel, &mut plat)?;
    run.set_scalar_argument(0, 1u32, &mut plat)?;

    let state = run.start_run(true, 2000, &mut plat)?;
    assert_eq!(state, ERTCommandState::Timeout);
    let state = run.wait_for(2000, &mut plat)?;
    assert_eq!(state, ERTCommandState::Timeout);
    let state = run.wait_for(2000, &mut plat)?;
    assert_eq!(state, ERTCommandState::Completed);
    Ok(())
}
