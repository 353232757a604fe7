//! The vector-scale scenario over every supported element kind, through
//! the managed builder-style facade.

use xrt::device::XRTDevice;
use xrt::error::Error;
use xrt::platform::{
    ArgKind, BitstreamImage, KernelBehavior, KernelImage, Platform,
};
use xrt::utils::xclbin_path_for;
use xrt::HardwareDatatype;

const SIZE: usize = 32;

fn vscale_platform(name: &str, width: u32) -> Platform {
    let mut plat = Platform::new(1);
    let base = format!("./hls/{}", name);
    plat.install_image(
        xclbin_path_for(base.as_str(), "sw_emu"),
        BitstreamImage {
            uuid: 0x51,
            kernels: vec![KernelImage {
                name: String::from(name),
                args: vec![
                    ArgKind::Scalar,
                    ArgKind::Scalar,
                    ArgKind::MemoryArg { group: 1 },
                    ArgKind::MemoryArg { group: 2 },
                ],
                duration_ms: 500,
                behavior: KernelBehavior::VectorScale { width },
            }],
        },
    );
    plat
}

fn run_vscale_managed<T: HardwareDatatype + std::fmt::Debug + Copy + std::cmp::PartialEq<T>>(
    name: &str,
    width: u32,
    scale: T,
    input: T,
    output: T,
) -> Result<(), Error> {
    let mut plat = vscale_platform(name, width);
    let base = format!("./hls/{}", name);
    let xclbin_path = xclbin_path_for(base.as_str(), "sw_emu");

    let input_data: [T; SIZE] = [input; SIZE];

    let device = XRTDevice::from_index(0, &mut plat)?
        .manage()
        .with_xclbin(xclbin_path.as_str(), &mut plat)?
        .with_kernel(name, &mut plat)?;

    let (_, output_data): (_, Vec<T>) = device
        .run(name, &mut plat)?
        .set_scalar_input(0, SIZE as u32, &mut plat)?
        .set_scalar_input(1, scale, &mut plat)?
        .set_buffer_input(2, &input_data, &mut plat)?
        .prepare_output_buffer::<T>(3, SIZE, &mut plat)?
        .start(&mut plat)?
        .wait_for(2000, &mut plat)?
        .read_output::<T>(3, SIZE, &mut plat)?;

    assert_eq!(output_data.len(), SIZE);
    for elem in output_data {
        assert_eq!(elem, output);
    }
    Ok(())
}

#[test]
fn run_vscale_managed_u32() -> Result<(), Error> {
    run_vscale_managed::<u32>("vscale_u32", 4, 6, 7, 42)
}

#[test]
fn run_vscale_managed_i32() -> Result<(), Error> {
    run_vscale_managed::<i32>("vscale_i32", 4, 6, 7, 42)
}

#[test]
fn run_vscale_managed_u64() -> Result<(), Error> {
    run_vscale_managed::<u64>("vscale_u64", 8, 6, 7, 42)
}

#[test]
fn run_vscale_managed_i64() -> Result<(), Error> {
    run_vscale_managed::<i64>("vscale_i64", 8, 6, 7, 42)
}

// The managed facade replaces a kernel held under the same name, so a
// later run uses the fresh kernel.
#[test]
fn managed_with_kernel_replaces() -> Result<(), Error> {
    let mut plat = vscale_platform("vscale_u32", 4);
    let base = format!("./hls/{}", "vscale_u32");
    let xclbin_path = xclbin_path_for(base.as_str(), "sw_emu");
    let device = XRTDevice::from_index(0, &mut plat)?
        .manage()
        .with_xclbin(xclbin_path.as_str(), &mut plat)?
        .with_kernel("vscale_u32", &mut plat)?;
    let first = device.kernels[0].1.handle;
    let device = device.with_kernel("vscale_u32", &mut plat)?;
    assert_eq!(device.kernels.len(), 1);
    assert_ne!(device.kernels[0].1.handle, first);
    // The table still runs the kernel under the name.
    let run = device.run("vscale_u32", &mut plat);
    assert!(run.is_ok());
    Ok(())
}
