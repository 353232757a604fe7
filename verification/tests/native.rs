//! The vector-scale scenario over every supported element kind, through
//! the plain (unmanaged) API.

use xrt::buffer::{SyncDirection, XRTBuffer};
use xrt::device::XRTDevice;
use xrt::error::Error;
use xrt::kernel::XRTKernel;
use xrt::platform::{
    ArgKind, BitstreamImage, KernelBehavior, KernelImage, Platform, XCL_BO_FLAGS_NONE,
};
use xrt::run::{ERTCommandState, XRTRun};
use xrt::utils::xclbin_path_for;
use xrt::HardwareDatatype;

const SIZE: usize = 32;

fn vscale_image(name: &str, width: u32) -> BitstreamImage {
    BitstreamImage {
        uuid: 0x51,
        kernels: vec![KernelImage {
            name: String::from(name),
            args: vec![
                ArgKind::Scalar,
                ArgKind::Scalar,
                ArgKind::MemoryArg { group: 1 },
                ArgKind::MemoryArg { group: 2 },
            ],
            duration_ms: 500,
            behavior: KernelBehavior::VectorScale { width },
        }],
    }
}

fn vscale_platform(name: &str, width: u32) -> Platform {
    let mut plat = Platform::new(1);
    let base = format!("./hls/{}", name);
    plat.install_image(xclbin_path_for(base.as_str(), "sw_emu"), vscale_image(name, width));
    plat
}

fn run_vscale_native<T: HardwareDatatype + std::fmt::Debug + Copy + std::cmp::PartialEq<T>>(
    name: &str,
    width: u32,
    scale: T,
    input: T,
    output: T,
) -> Result<(), Error> {
    let mut plat = vscale_platform(name, width);

    let mut device = XRTDevice::from_index(0, &mut plat)?;
    let base = format!("./hls/{}", name);
    device.load_xclbin(xclbin_path_for(base.as_str(), "sw_emu").as_str(), &mut plat)?;
    let add_kernel = XRTKernel::new(name, &device, &mut plat)?;
    let mut add_run = XRTRun::new(&add_kernel, &mut plat)?;
    let elem = width as usize;
    let in_buffer = XRTBuffer::new(
        &device,
        SIZE * elem,
        XCL_BO_FLAGS_NONE,
        add_kernel.get_memory_group_for_argument(2, &plat)?,
        &mut plat,
    )?;
    let out_buffer = XRTBuffer::new(
        &device,
        SIZE * elem,
        XCL_BO_FLAGS_NONE,
        add_kernel.get_memory_group_for_argument(3, &plat)?,
        &mut plat,
    )?;

    let input_data: [T; SIZE] = [input; SIZE];
    in_buffer.write(&input_data, 0, &mut plat)?;
    in_buffer.sync(SyncDirection::HostToDevice, None, 0, &mut plat)?;

    // Set args
    add_run.set_scalar_argument(0, SIZE as u32, &mut plat)?;
    add_run.set_scalar_argument(1, scale, &mut plat)?;
    add_run.set_buffer_argument(2, &in_buffer, &mut plat)?;
    add_run.set_buffer_argument(3, &out_buffer, &mut plat)?;

    // Run
    let result_state = add_run.start_run(true, 1000, &mut plat)?;
    assert_eq!(result_state, ERTCommandState::Completed);

    // Get back data
    out_buffer.sync(SyncDirection::DeviceToHost, None, 0, &mut plat)?;
    let output_data: Vec<T> = out_buffer.read(SIZE, 0, &plat)?;

    // Check result
    assert_eq!(output_data.len(), SIZE);
    for elem in output_data {
        assert_eq!(elem, output);
    }
    Ok(())
}

#[test]
fn run_vscale_native_u32() -> Result<(), Error> {
    run_vscale_native::<u32>("vscale_u32", 4, 6, 7, 42)
}

#[test]
fn run_vscale_native_i32() -> Result<(), Error> {
    run_vscale_native::<i32>("vscale_i32", 4, 6, 7, 42)
}

#[test]
fn run_vscale_native_u64() -> Result<(), Error> {
    run_vscale_native::<u64>("vscale_u64", 8, 6, 7, 42)
}

#[test]
fn run_vscale_native_i64() -> Result<(), Error> {
    run_vscale_native::<i64>("vscale_i64", 8, 6, 7, 42)
}
