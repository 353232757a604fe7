//! Device, kernel and run lifecycle: open, load, partial failure, teardown.

use xrt::buffer::{IOMode, XRTBuffer};
use xrt::device::XRTDevice;
use xrt::error::Error;
use xrt::kernel::{Argument, ArgumentType, XRTKernel};
use xrt::platform::{
    ArgKind, BitstreamImage, KernelBehavior, KernelImage, Platform, XCL_BO_FLAGS_NONE,
};
use xrt::run::ERTCommandState;
use xrt::utils::xclbin_path_for;

fn add_image() -> BitstreamImage {
    BitstreamImage {
        uuid: 0xad,
        kernels: vec![KernelImage {
            name: String::from("add"),
            args: vec![
                ArgKind::Scalar,
                ArgKind::Scalar,
                ArgKind::MemoryArg { group: 0 },
            ],
            duration_ms: 100,
            behavior: KernelBehavior::ScalarAdd,
        }],
    }
}

fn test_platform() -> Platform {
    let mut plat = Platform::new(1);
    plat.install_image(xclbin_path_for("add", "sw_emu"), add_image());
    plat
}

#[test]
fn emu_open_device_test() -> Result<(), Error> {
    let mut plat = test_platform();
    let device = XRTDevice::from_index(0, &mut plat)?;
    assert!(device.handle.is_some());
    Ok(())
}

#[test]
fn emu_open_device_load_xclbin_test() -> Result<(), Error> {
    let mut plat = test_platform();
    let mut device = XRTDevice::from_index(0, &mut plat)?;
    assert!(device.handle.is_some());
    let xclbin_path = xclbin_path_for("add", "sw_emu");
    device.load_xclbin(xclbin_path.as_str(), &mut plat)?;
    assert!(device.xclbin_handle.is_some());
    assert!(device.xclbin_uuid.is_some());
    Ok(())
}

#[test]
fn emu_open_device_load_xclbin_builder_test() -> Result<(), Error> {
    let mut plat = test_platform();
    let xclbin_path = xclbin_path_for("add", "sw_emu");
    let device = XRTDevice::from_index(0, &mut plat)?
        .with_xclbin(xclbin_path.as_str(), &mut plat)?
        .with_kernel("add", &mut plat)?;

    assert!(device.handle.is_some());
    assert!(device.xclbin_handle.is_some());
    assert!(device.xclbin_uuid.is_some());
    Ok(())
}

#[test]
fn test_addition() -> Result<(), Error> {
    let mut plat = test_platform();
    let arglist = vec![
        (0u32, ArgumentType::Passed),
        (1u32, ArgumentType::Passed),
        (2u32, ArgumentType::NotRealizedBuffer(4, IOMode::Output)),
    ];

    let mut device = XRTDevice::from_index(0, &mut plat)?;
    let path = xclbin_path_for("add", "sw_emu");
    device.load_xclbin(path.as_str(), &mut plat)?;
    device.load_kernel("add", arglist, &mut plat)?;

    let kernel = device.get_kernel("add").ok_or(Error::NoSuchKernelError)?;

    let args = vec![
        (0u32, Argument::Direct(2)),
        (1u32, Argument::Direct(3)),
        (2u32, Argument::BufferContent(vec![0, 0, 0, 0])),
    ];

    let mut run = kernel.create_run(args, &mut plat)?;
    run.load_arguments(&kernel.argument_mapping, &mut plat)?;
    let finished_state = run.start_run(true, 0, &mut plat)?;

    assert_eq!(finished_state, ERTCommandState::Completed);
    Ok(())
}

// Opening a device never yields a ready one: no bitstream is loaded yet.
#[test]
fn open_device_is_not_ready() -> Result<(), Error> {
    let mut plat = test_platform();
    let device = XRTDevice::from_index(0, &mut plat)?;
    assert!(!device.is_ready());
    Ok(())
}

#[test]
fn open_invalid_index_fails() {
    let mut plat = test_platform();
    let r = XRTDevice::from_index(7, &mut plat);
    assert!(matches!(r, Err(Error::DeviceOpenError)));
}

// A failed load leaves the device exactly as it was: not ready, with
// bitstream handle and identity still absent.
#[test]
fn load_invalid_path_leaves_device_unready() -> Result<(), Error> {
    let mut plat = test_platform();
    let mut device = XRTDevice::from_index(0, &mut plat)?;
    let r = device.load_xclbin("no_such_image.xclbin", &mut plat);
    assert!(matches!(r, Err(Error::XclbinFileAllocError)));
    assert!(!device.is_ready());
    assert!(device.xclbin_handle.is_none());
    assert!(device.xclbin_uuid.is_none());
    Ok(())
}

#[test]
fn load_path_with_nul_fails() -> Result<(), Error> {
    let mut plat = test_platform();
    let mut device = XRTDevice::from_index(0, &mut plat)?;
    let r = device.load_xclbin("bad\0path", &mut plat);
    assert!(matches!(r, Err(Error::CStringCreationError)));
    assert!(!device.is_ready());
    Ok(())
}

#[test]
fn kernel_on_unready_device_fails() -> Result<(), Error> {
    let mut plat = test_platform();
    let device = XRTDevice::from_index(0, &mut plat)?;
    let r = XRTKernel::new("add", &device, &mut plat);
    assert!(matches!(r, Err(Error::DeviceNotReadyError)));
    Ok(())
}

#[test]
fn unknown_kernel_name_fails() -> Result<(), Error> {
    let mut plat = test_platform();
    let path = xclbin_path_for("add", "sw_emu");
    let mut device = XRTDevice::from_index(0, &mut plat)?;
    device.load_xclbin(path.as_str(), &mut plat)?;
    let r = XRTKernel::new("does_not_exist", &device, &mut plat);
    assert!(matches!(r, Err(Error::KernelCreationError)));
    Ok(())
}

// Releasing a resource twice never reaches the platform a second time.
#[test]
fn close_twice_is_safe() -> Result<(), Error> {
    let mut plat = test_platform();
    let path = xclbin_path_for("add", "sw_emu");
    let mut device = XRTDevice::from_index(0, &mut plat)?;
    device.load_xclbin(path.as_str(), &mut plat)?;
    let mut kernel = XRTKernel::new("add", &device, &mut plat)?;
    let mut run = kernel.run(&mut plat)?;
    let mut buffer = XRTBuffer::new(&device, 16, XCL_BO_FLAGS_NONE, 0, &mut plat)?;

    run.close(&mut plat);
    run.close(&mut plat);
    assert!(run.handle.is_none());

    buffer.close(&mut plat);
    buffer.close(&mut plat);
    assert!(buffer.handle.is_none());

    kernel.close(&mut plat);
    kernel.close(&mut plat);
    assert!(kernel.handle.is_none());

    device.close(&mut plat);
    device.close(&mut plat);
    assert!(device.handle.is_none());
    assert!(!device.is_ready());
    Ok(())
}

// A run created after a failed partial construction can still be released
// without touching anything twice.
#[test]
fn close_after_failed_construction() -> Result<(), Error> {
    let mut plat = test_platform();
    let mut device = XRTDevice::from_index(0, &mut plat)?;
    let r = device.load_xclbin("missing.xclbin", &mut plat);
    assert!(r.is_err());
    device.close(&mut plat);
    device.close(&mut plat);
    assert!(device.handle.is_none());
    Ok(())
}

#[test]
fn error_describe_names_variant() {
    assert_eq!(Error::DeviceOpenError.describe(), "DeviceOpenError");
    assert_eq!(Error::BOSyncError.describe(), "BOSyncError");
}

#[test]
fn state_code_mapping() {
    assert_eq!(ERTCommandState::from(4u32), ERTCommandState::Completed);
    assert_eq!(ERTCommandState::from(5u32), ERTCommandState::Error);
    assert_eq!(ERTCommandState::from(8u32), ERTCommandState::Timeout);
    assert_eq!(ERTCommandState::from(1u32), ERTCommandState::New);
    assert_eq!(ERTCommandState::from(99u32), ERTCommandState::InvalidState(99));
}

#[test]
fn kernel_is_ready_guards_unresolved_maps() {
    let unresolved = vec![(0u32, ArgumentType::NotRealizedBuffer(4, IOMode::Input))];
    assert!(!XRTKernel::is_ready(&unresolved));
    let resolved = vec![(0u32, ArgumentType::Passed), (1u32, ArgumentType::Buffer(3, IOMode::Output))];
    assert!(XRTKernel::is_ready(&resolved));
    assert!(matches!(
        XRTKernel::from_parts(1, unresolved),
        Err(Error::UnrealizedBufferError)
    ));
}

// A builder call for a name already held changes nothing: the held kernel
// stays in effect.
#[test]
fn with_kernel_skips_held_name() -> Result<(), Error> {
    let mut plat = test_platform();
    let xclbin_path = xclbin_path_for("add", "sw_emu");
    let device = XRTDevice::from_index(0, &mut plat)?
        .with_xclbin(xclbin_path.as_str(), &mut plat)?
        .with_kernel("add", &mut plat)?;
    let first = device.get_kernel("add").unwrap().handle;
    let device = device.with_kernel("add", &mut plat)?;
    assert_eq!(device.kernels.len(), 1);
    assert_eq!(device.get_kernel("add").unwrap().handle, first);
    Ok(())
}
