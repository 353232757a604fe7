//! A builder-style session facade over devices, kernels and runs: it
//! enforces the ordering invariants (bitstream before kernel, kernel
//! before run) at a higher level, while every operation delegates to the
//! verified lifecycle layer.

use vstd::prelude::*;
use crate::device::{XRTDevice, distinct_kernel_names, kernels_has, kernels_at};
use crate::device::{lemma_kernels_push, lemma_kernels_update};
use crate::error::Error;
use crate::kernel::XRTKernel;
use crate::platform::Platform;
use crate::run::{
    XRTRun,
    ERTCommandState,
    distinct_internal,
    has_internal,
    internal_at,
    group_ok,
    group_at,
};
use crate::utils::has_nul;
use crate::HardwareDatatype;

verus! {

/// A device together with the kernels opened through it, by name.
pub struct ManagedDevice {
    pub device: XRTDevice,
    pub kernels: Vec<(String, XRTKernel)>,
}

impl XRTDevice {
    /// Wraps the device in the managed facade, with no kernels yet.
    pub fn manage(self) -> (r: ManagedDevice)
        ensures
            r.device == self,
            r.kernels@.len() == 0,
            r.wf(),
    {
        ManagedDevice { device: self, kernels: Vec::new() }
    }
}

impl ManagedDevice {
    /// The kernel table is keyed by name.
    pub open spec fn wf(self) -> bool {
        distinct_kernel_names(self.kernels@)
    }

    /// Loads a bitstream onto the wrapped device; the failure conditions
    /// are exactly those of [`XRTDevice::load_xclbin`], and the held
    /// kernels are untouched.
    pub fn with_xclbin(self, xclbin_path: &str, plat: &mut Platform) -> (r: Result<
        ManagedDevice,
        Error,
    >)
        requires
            old(plat).wf(),
            self.device.wf(),
        ensures
            final(plat).wf(),
            self.device.handle is None ==> r == Err::<ManagedDevice, Error>(
                Error::UnopenedDeviceError,
            ) && *final(plat) == *old(plat),
            self.device.handle is Some && has_nul(xclbin_path) ==> r == Err::<
                ManagedDevice,
                Error,
            >(Error::CStringCreationError) && *final(plat) == *old(plat),
            self.device.handle is Some && !has_nul(xclbin_path) ==> {
                &&& (r is Ok <==> (exists|i: int|
                    0 <= i < old(plat).images.len() && (#[trigger] old(plat).images[i]).0@
                        == xclbin_path@) && old(plat).conn_ok(self.device.handle->Some_0))
                &&& (r is Err ==> r == Err::<ManagedDevice, Error>(Error::XclbinFileAllocError)
                    || r == Err::<ManagedDevice, Error>(Error::XclbinLoadError))
            },
            r matches Ok(m) ==> {
                &&& m.device.wf()
                &&& m.device.ready_spec()
                &&& m.device.handle == self.device.handle
                &&& m.kernels@ =~= self.kernels@
                &&& m.device.xclbin_handle matches Some(b)
                &&& final(plat).bitstream_ok(b)
                &&& m.device.xclbin_uuid == Some(final(plat).bitstream_image(b).uuid)
                &&& final(plat).connections@[self.device.handle->Some_0 - 1].loaded == Some(b)
            },
            final(plat).num_devices == old(plat).num_devices,
            final(plat).images@ =~= old(plat).images@,
            final(plat).kernels@ =~= old(plat).kernels@,
            final(plat).buffers@ =~= old(plat).buffers@,
            final(plat).runs@ =~= old(plat).runs@,
            final(plat).connections@.len() == old(plat).connections@.len(),
    {
        let mut m = self;
        match m.device.load_xclbin(xclbin_path, plat) {
            Ok(()) => Ok(m),
            Err(e) => Err(e),
        }
    }

    /// Opens the named kernel against the wrapped device and records it
    /// under the name, replacing a kernel previously held under it; on any
    /// failure the table is unchanged and the construction error is
    /// propagated. The failure conditions are those of [`XRTKernel::new`].
    pub fn with_kernel(self, kernel_name: &str, plat: &mut Platform) -> (r: Result<
        ManagedDevice,
        Error,
    >)
        requires
            old(plat).wf(),
            self.wf(),
        ensures
            final(plat).wf(),
            !self.device.ready_spec() ==> r == Err::<ManagedDevice, Error>(
                Error::DeviceNotReadyError,
            ) && *final(plat) == *old(plat),
            self.device.ready_spec() && has_nul(kernel_name) ==> r == Err::<ManagedDevice, Error>(
                Error::CStringCreationError,
            ) && *final(plat) == *old(plat),
            self.device.ready_spec() && !has_nul(kernel_name) && !old(plat).kernel_openable(
                self.device.handle->Some_0,
                self.device.xclbin_uuid->Some_0,
                kernel_name@,
            ) ==> r == Err::<ManagedDevice, Error>(Error::KernelCreationError) && *final(plat)
                == *old(plat),
            self.device.ready_spec() && !has_nul(kernel_name) && old(plat).kernel_openable(
                self.device.handle->Some_0,
                self.device.xclbin_uuid->Some_0,
                kernel_name@,
            ) ==> (r matches Ok(m) && {
                &&& m.wf()
                &&& m.device == self.device
                &&& kernels_has(m.kernels@, kernel_name@)
                &&& kernels_at(m.kernels@, kernel_name@).handle matches Some(kh)
                &&& final(plat).kernel_ok(kh)
                &&& final(plat).kernel_def(kh).name@ == kernel_name@
                &&& kernels_at(m.kernels@, kernel_name@).argument_mapping@.len() == 0
                &&& (forall|other: Seq<char>|
                    other != kernel_name@ ==> #[trigger] kernels_has(m.kernels@, other)
                        == kernels_has(self.kernels@, other))
                &&& (forall|other: Seq<char>|
                    other != kernel_name@ && kernels_has(self.kernels@, other)
                        ==> #[trigger] kernels_at(m.kernels@, other) == kernels_at(
                        self.kernels@,
                        other,
                    ))
            }),
            r is Err ==> *final(plat) == *old(plat),
            final(plat).num_devices == old(plat).num_devices,
            final(plat).images@ =~= old(plat).images@,
            final(plat).connections@ =~= old(plat).connections@,
            final(plat).bitstreams@ =~= old(plat).bitstreams@,
            final(plat).buffers@ =~= old(plat).buffers@,
            final(plat).runs@ =~= old(plat).runs@,
    {
        let mut m = self;
        let kernel = match XRTKernel::new(kernel_name, &m.device, plat) {
            Ok(k) => k,
            Err(e) => {
                return Err(e);
            },
        };
        let ghost gk = kernel;
        let ghost pre_tbl = m.kernels@;
        let owned = kernel_name.to_owned();
        let pos = find_named(&m.kernels, kernel_name);
        match pos {
            Some(i) => {
                m.kernels.remove(i);
                m.kernels.insert(i, (owned, kernel));
                proof {
                    assert(forall|x: int|
                        0 <= x < pre_tbl.len() && x != i ==> m.kernels@[x] == pre_tbl[x]);
                    lemma_kernels_update(pre_tbl, m.kernels@, i as int, kernel_name@, gk);
                }
            },
            None => {
                m.kernels.push((owned, kernel));
                proof {
                    lemma_kernels_push(pre_tbl, m.kernels@, kernel_name@, gk);
                }
            },
        }
        Ok(m)
    }

    /// A fresh run on the named kernel, carrying the handles it needs to
    /// allocate its own buffers. Fails with `KernelNotLoadedYetError` when
    /// no kernel of that name is held; otherwise as [`ManagedRun::new`].
    pub fn run(&self, kernel_name: &str, plat: &mut Platform) -> (r: Result<ManagedRun, Error>)
        requires
            old(plat).wf(),
            self.wf(),
        ensures
            final(plat).wf(),
            crate::platform::unchanged_but_runs(*old(plat), *final(plat)),
            !kernels_has(self.kernels@, kernel_name@) ==> r == Err::<ManagedRun, Error>(
                Error::KernelNotLoadedYetError,
            ) && *final(plat) == *old(plat),
            kernels_has(self.kernels@, kernel_name@) ==> {
                let knl = kernels_at(self.kernels@, kernel_name@);
                &&& (knl.handle is None ==> r == Err::<ManagedRun, Error>(
                    Error::KernelNotLoadedYetError,
                ) && *final(plat) == *old(plat))
                &&& (knl.handle is Some && !old(plat).kernel_ok(knl.handle->Some_0) ==> r == Err::<
                    ManagedRun,
                    Error,
                >(Error::RunCreationError) && *final(plat) == *old(plat))
                &&& (knl.handle is Some && old(plat).kernel_ok(knl.handle->Some_0) ==> (r
                    matches Ok(m) && {
                    &&& m.run.handle matches Some(h)
                    &&& final(plat).run_ok(h)
                    &&& final(plat).runs@.last().kernel == knl.handle->Some_0
                    &&& final(plat).runs@.last().state == crate::platform::ERT_CMD_STATE_NEW
                    &&& m.run.internal_buffers@.len() == 0
                    &&& distinct_internal(m.run.internal_buffers@)
                    &&& m.device_handle == self.device.handle
                    &&& m.kernel_handle == knl.handle
                }))
            },
    {
        match find_named(&self.kernels, kernel_name) {
            Some(i) => ManagedRun::new(self, &self.kernels[i].1, plat),
            None => Err(Error::KernelNotLoadedYetError),
        }
    }
}

/// The position of the named kernel in a keyed table.
fn find_named(kernels: &Vec<(String, XRTKernel)>, name: &str) -> (r: Option<usize>)
    requires
        distinct_kernel_names(kernels@),
    ensures
        r is Some <==> kernels_has(kernels@, name@),
        r matches Some(i) ==> i < kernels@.len() && (kernels@[i as int]).0@ == name@ && (kernels@[
            i as int]).1 == kernels_at(kernels@, name@),
        r is None ==> forall|i: int|
            0 <= i < kernels@.len() ==> (#[trigger] kernels@[i]).0@ != name@,
{
    let mut i: usize = 0;
    while i < kernels.len()
        invariant
            distinct_kernel_names(kernels@),
            i <= kernels@.len(),
            forall|j: int| 0 <= j < i ==> (#[trigger] kernels@[j]).0@ != name@,
        decreases kernels@.len() - i,
    {
        if crate::platform::str_eq(kernels[i].0.as_str(), name) {
            proof {
                assert((kernels@[i as int]).0@ == name@);
                let w = choose|k: int|
                    0 <= k < kernels@.len() && (#[trigger] kernels@[k]).0@ == name@;
                assert((kernels@[w]).0@ == name@);
                if w != i as int {
                    if w < i as int {
                        assert((kernels@[w]).0@ != (kernels@[i as int]).0@);
                    } else {
                        assert((kernels@[i as int]).0@ != (kernels@[w]).0@);
                    }
                }
            }
            return Some(i);
        }
        i = i + 1;
    }
    None
}

/// A run with the handles it needs to allocate its own buffers: the
/// owning device's connection and the kernel entry point.
pub struct ManagedRun {
    pub run: XRTRun,
    pub device_handle: Option<u64>,
    pub kernel_handle: Option<u64>,
}

impl ManagedRun {
    /// A fresh run on the kernel; see [`XRTRun::new`] for the failure
    /// conditions.
    pub fn new(device: &ManagedDevice, kernel: &XRTKernel, plat: &mut Platform) -> (r: Result<
        ManagedRun,
        Error,
    >)
        requires
            old(plat).wf(),
        ensures
            final(plat).wf(),
            crate::platform::unchanged_but_runs(*old(plat), *final(plat)),
            kernel.handle is None ==> r == Err::<ManagedRun, Error>(
                Error::KernelNotLoadedYetError,
            ) && *final(plat) == *old(plat),
            kernel.handle is Some && !old(plat).kernel_ok(kernel.handle->Some_0) ==> r == Err::<
                ManagedRun,
                Error,
            >(Error::RunCreationError) && *final(plat) == *old(plat),
            kernel.handle is Some && old(plat).kernel_ok(kernel.handle->Some_0) ==> (r matches Ok(
                m,
            ) && {
                &&& m.run.handle matches Some(h)
                &&& final(plat).run_ok(h)
                &&& final(plat).runs@.last().kernel == kernel.handle->Some_0
                &&& final(plat).runs@.last().state == crate::platform::ERT_CMD_STATE_NEW
                &&& m.run.internal_buffers@.len() == 0
                &&& m.run.argument_data@.len() == 0
                &&& distinct_internal(m.run.internal_buffers@)
                &&& m.device_handle == device.device.handle
                &&& m.kernel_handle == kernel.handle
            }),
    {
        let run = match XRTRun::new(kernel, plat) {
            Ok(run) => run,
            Err(e) => {
                return Err(e);
            },
        };
        Ok(ManagedRun { run, device_handle: device.device.handle, kernel_handle: kernel.handle })
    }

    /// Issues the start. As in [`XRTRun::start`], a rejected start is
    /// carried in the run's state, not as an error.
    pub fn start(self, plat: &mut Platform) -> (r: Result<ManagedRun, Error>)
        requires
            old(plat).wf(),
        ensures
            final(plat).wf(),
            crate::platform::unchanged_but_runs(*old(plat), *final(plat)),
            self.run.handle is None ==> r == Err::<ManagedRun, Error>(
                Error::RunNotCreatedYetError,
            ) && *final(plat) == *old(plat),
            self.run.handle is Some ==> r == Ok::<ManagedRun, Error>(self),
            self.run.handle matches Some(h) ==> {
                &&& (old(plat).run_ok(h) && old(plat).run_bindings_ok(h)
                    ==> crate::platform::run_updated(
                    old(plat).runs@,
                    final(plat).runs@,
                    h,
                    crate::platform::ERT_CMD_STATE_RUNNING,
                    old(plat).kernel_def(old(plat).runs[h - 1].kernel).duration_ms,
                ))
                &&& (old(plat).run_ok(h) && !old(plat).run_bindings_ok(h)
                    ==> crate::platform::run_updated(
                    old(plat).runs@,
                    final(plat).runs@,
                    h,
                    crate::platform::ERT_CMD_STATE_ERROR,
                    old(plat).runs[h - 1].remaining_ms,
                ))
                &&& (!old(plat).run_ok(h) ==> *final(plat) == *old(plat))
            },
    {
        match self.run.start(plat) {
            Ok(_) => Ok(self),
            Err(e) => Err(e),
        }
    }

    /// Waits for the run with a timeout; the outcome on the platform is
    /// exactly that of [`XRTRun::wait_for`] with the observed state
    /// discarded: callers poll `get_state` on the wrapped run when they
    /// need it.
    pub fn wait_for(self, timeout_ms: u32, plat: &mut Platform) -> (r: Result<ManagedRun, Error>)
        requires
            old(plat).wf(),
        ensures
            final(plat).wf(),
            crate::platform::unchanged_core(*old(plat), *final(plat)),
            self.run.handle is None ==> r == Err::<ManagedRun, Error>(
                Error::RunNotCreatedYetError,
            ) && *final(plat) == *old(plat),
            self.run.handle is Some ==> r == Ok::<ManagedRun, Error>(self),
            self.run.handle matches Some(h) ==> exists|st: ERTCommandState|
                crate::run::wait_outcome(*old(plat), *final(plat), h, timeout_ms, st),
    {
        match self.run.wait_for(timeout_ms, plat) {
            Ok(st) => {
                proof {
                    if self.run.handle is Some {
                        let h = self.run.handle->Some_0;
                        assert(crate::run::wait_outcome(*old(plat), *plat, h, timeout_ms, st));
                    }
                }
                Ok(self)
            },
            Err(e) => Err(e),
        }
    }

    /// Binds a directly-passed value; see [`XRTRun::set_scalar_argument`].
    pub fn set_scalar_input<T: HardwareDatatype>(
        self,
        index: i32,
        value: T,
        plat: &mut Platform,
    ) -> (r: Result<ManagedRun, Error>)
        requires
            old(plat).wf(),
        ensures
            final(plat).wf(),
            crate::platform::unchanged_but_runs(*old(plat), *final(plat)),
            self.run.handle is None ==> r == Err::<ManagedRun, Error>(
                Error::RunNotCreatedYetError,
            ) && *final(plat) == *old(plat),
            self.run.handle matches Some(h) ==> {
                &&& (r is Ok <==> old(plat).run_ok(h) && 0 <= index < old(plat).runs[h
                    - 1].args.len() && old(plat).arg_compatible(
                    old(plat).kernel_def(old(plat).runs[h - 1].kernel).args[index as int],
                    value.as_bits(),
                ))
                &&& (r is Ok ==> r == Ok::<ManagedRun, Error>(self) && final(plat).runs@[h
                    - 1].args@ =~= old(plat).runs[h - 1].args@.update(
                    index as int,
                    Some(value.as_bits()),
                ) && crate::platform::same_except(old(plat).runs@, final(plat).runs@, h - 1))
                &&& (r is Err ==> r == Err::<ManagedRun, Error>(
                    Error::RunArgumentSetError(index as u32, value.as_bits()),
                ) && final(plat).runs@ =~= old(plat).runs@)
            },
    {
        let mut m = self;
        match m.run.set_scalar_argument(index, value, plat) {
            Ok(()) => Ok(m),
            Err(e) => Err(e),
        }
    }

    /// Fills an input slot: allocates a buffer in the slot's memory group,
    /// writes `values` into it, synchronizes it to the device, binds it to
    /// the slot, and keeps it as the run's own. The failure conditions and
    /// effects are exactly those of [`XRTRun::write_buffer_argument`] over
    /// the handles this run carries.
    pub fn set_buffer_input<T: HardwareDatatype>(
        self,
        index: i32,
        values: &[T],
        plat: &mut Platform,
    ) -> (r: Result<ManagedRun, Error>)
        requires
            old(plat).wf(),
            distinct_internal(self.run.internal_buffers@),
            values@.len() * T::spec_width() <= usize::MAX,
        ensures
            final(plat).wf(),
            crate::platform::unchanged_core(*old(plat), *final(plat)),
            !group_ok(*old(plat), self.kernel_handle, index) ==> {
                &&& *final(plat) == *old(plat)
                &&& (self.kernel_handle is None ==> r == Err::<ManagedRun, Error>(
                    Error::KernelNotLoadedYetError,
                ))
                &&& (self.kernel_handle is Some ==> r == Err::<ManagedRun, Error>(
                    Error::KernelArgRtrvError,
                ))
            },
            group_ok(*old(plat), self.kernel_handle, index) && self.device_handle is None ==> r
                == Err::<ManagedRun, Error>(Error::UnopenedDeviceError) && *final(plat) == *old(
                plat,
            ),
            group_ok(*old(plat), self.kernel_handle, index) && self.device_handle is Some && !old(
                plat,
            ).conn_ok(self.device_handle->Some_0) ==> r == Err::<ManagedRun, Error>(
                Error::BOCreationError,
            ) && *final(plat) == *old(plat),
            group_ok(*old(plat), self.kernel_handle, index) && self.device_handle is Some && old(
                plat,
            ).conn_ok(self.device_handle->Some_0) ==> {
                let bh = (old(plat).buffers@.len() + 1) as u64;
                let grp = group_at(*old(plat), self.kernel_handle, index);
                &&& final(plat).buffers@.len() == old(plat).buffers@.len() + 1
                &&& final(plat).buffers@.subrange(0, old(plat).buffers@.len() as int) =~= old(
                    plat,
                ).buffers@
                &&& final(plat).buffer_ok(bh)
                &&& final(plat).buffers@[bh - 1].group == grp
                &&& final(plat).buffers@[bh - 1].host@ =~= crate::encode_elems(values@)
                &&& final(plat).buffers@[bh - 1].dev@ =~= crate::encode_elems(values@)
                &&& (self.run.handle is None ==> r == Err::<ManagedRun, Error>(
                    Error::RunNotCreatedYetError,
                ) && final(plat).runs@ =~= old(plat).runs@)
                &&& (self.run.handle matches Some(h) ==> {
                    let kind = old(plat).kernel_def(old(plat).runs[h - 1].kernel).args[
                        index as int];
                    let bind_ok = old(plat).run_ok(h) && 0 <= index < old(plat).runs[h
                        - 1].args.len() && (kind is Scalar || (kind
                        matches crate::platform::ArgKind::MemoryArg { group } && group == grp));
                    &&& (r is Ok <==> bind_ok)
                    &&& (r is Err ==> r == Err::<ManagedRun, Error>(Error::SetRunArgError)
                        && final(plat).runs@ =~= old(plat).runs@)
                    &&& (r matches Ok(m) ==> {
                        &&& m.run.handle == self.run.handle
                        &&& m.device_handle == self.device_handle
                        &&& m.kernel_handle == self.kernel_handle
                        &&& distinct_internal(m.run.internal_buffers@)
                        &&& has_internal(m.run.internal_buffers@, index)
                        &&& internal_at(m.run.internal_buffers@, index) == (crate::buffer::XRTBuffer {
                            handle: Some(bh),
                            size: (values@.len() * T::spec_width()) as usize,
                        })
                        &&& crate::platform::same_except(old(plat).runs@, final(plat).runs@, h - 1)
                        &&& final(plat).runs@[h - 1].args@ =~= old(plat).runs[h - 1].args@.update(
                            index as int,
                            Some(bh),
                        )
                    })
                })
            },
    {
        let mut m = self;
        // The run-level helper reads only the handles of the device and
        // kernel it is given.
        let dev = XRTDevice {
            handle: m.device_handle,
            xclbin_handle: None,
            xclbin_uuid: None,
            kernels: Vec::new(),
        };
        let ker = XRTKernel { handle: m.kernel_handle, argument_mapping: Vec::new() };
        match m.run.write_buffer_argument(index, values, &dev, &ker, plat) {
            Ok(()) => Ok(m),
            Err(e) => Err(e),
        }
    }

    /// Prepares an output slot: allocates a zero-filled buffer of `size`
    /// elements in the slot's memory group, binds it, and keeps it as the
    /// run's own, deferring any synchronization until read-back. The
    /// failure conditions are those of [`XRTRun::create_read_buffer`] over
    /// the handles this run carries.
    pub fn prepare_output_buffer<T: HardwareDatatype>(
        self,
        index: i32,
        size: usize,
        plat: &mut Platform,
    ) -> (r: Result<ManagedRun, Error>)
        requires
            old(plat).wf(),
            distinct_internal(self.run.internal_buffers@),
            size * T::spec_width() <= usize::MAX,
        ensures
            final(plat).wf(),
            crate::platform::unchanged_core(*old(plat), *final(plat)),
            !group_ok(*old(plat), self.kernel_handle, index) ==> {
                &&& *final(plat) == *old(plat)
                &&& (self.kernel_handle is None ==> r == Err::<ManagedRun, Error>(
                    Error::KernelNotLoadedYetError,
                ))
                &&& (self.kernel_handle is Some ==> r == Err::<ManagedRun, Error>(
                    Error::KernelArgRtrvError,
                ))
            },
            group_ok(*old(plat), self.kernel_handle, index) && self.device_handle is None ==> r
                == Err::<ManagedRun, Error>(Error::UnopenedDeviceError) && *final(plat) == *old(
                plat,
            ),
            group_ok(*old(plat), self.kernel_handle, index) && self.device_handle is Some && !old(
                plat,
            ).conn_ok(self.device_handle->Some_0) ==> r == Err::<ManagedRun, Error>(
                Error::BOCreationError,
            ) && *final(plat) == *old(plat),
            group_ok(*old(plat), self.kernel_handle, index) && self.device_handle is Some && old(
                plat,
            ).conn_ok(self.device_handle->Some_0) ==> {
                let bh = (old(plat).buffers@.len() + 1) as u64;
                let grp = group_at(*old(plat), self.kernel_handle, index);
                &&& final(plat).buffers@.len() == old(plat).buffers@.len() + 1
                &&& final(plat).buffer_ok(bh)
                &&& final(plat).buffers@[bh - 1].group == grp
                &&& final(plat).buffers@[bh - 1].host@ =~= Seq::new(
                    (size * T::spec_width()) as nat,
                    |k: int| 0u8,
                )
                &&& (self.run.handle is None ==> r == Err::<ManagedRun, Error>(
                    Error::RunNotCreatedYetError,
                ))
                &&& (self.run.handle matches Some(h) ==> {
                    let kind = old(plat).kernel_def(old(plat).runs[h - 1].kernel).args[
                        index as int];
                    let bind_ok = old(plat).run_ok(h) && 0 <= index < old(plat).runs[h
                        - 1].args.len() && (kind is Scalar || (kind
                        matches crate::platform::ArgKind::MemoryArg { group } && group == grp));
                    &&& (r is Ok <==> bind_ok)
                    &&& (r is Err ==> r == Err::<ManagedRun, Error>(Error::SetRunArgError)
                        && final(plat).runs@ =~= old(plat).runs@)
                    &&& (r matches Ok(m) ==> {
                        &&& m.run.handle == self.run.handle
                        &&& m.device_handle == self.device_handle
                        &&& m.kernel_handle == self.kernel_handle
                        &&& distinct_internal(m.run.internal_buffers@)
                        &&& has_internal(m.run.internal_buffers@, index)
                        &&& internal_at(m.run.internal_buffers@, index) == (crate::buffer::XRTBuffer {
                            handle: Some(bh),
                            size: (size * T::spec_width()) as usize,
                        })
                        &&& crate::platform::same_except(old(plat).runs@, final(plat).runs@, h - 1)
                        &&& final(plat).runs@[h - 1].args@ =~= old(plat).runs[h - 1].args@.update(
                            index as int,
                            Some(bh),
                        )
                    })
                })
            },
    {
        let mut m = self;
        let dev = XRTDevice {
            handle: m.device_handle,
            xclbin_handle: None,
            xclbin_uuid: None,
            kernels: Vec::new(),
        };
        let ker = XRTKernel { handle: m.kernel_handle, argument_mapping: Vec::new() };
        match m.run.create_read_buffer::<T>(index, size, &dev, &ker, plat) {
            Ok(()) => Ok(m),
            Err(e) => Err(e),
        }
    }

    /// Reads `count` elements back from the buffer this run holds for the
    /// slot: synchronizes the device bytes to the host staging memory,
    /// then decodes them. Success is owed exactly when the held buffer is
    /// live and the count fits it; the elements are the decoded device
    /// bytes, as in [`XRTRun::read_buffer_argument`].
    pub fn read_output<T: HardwareDatatype>(
        self,
        index: i32,
        count: usize,
        plat: &mut Platform,
    ) -> (r: Result<(ManagedRun, Vec<T>), Error>)
        requires
            old(plat).wf(),
            distinct_internal(self.run.internal_buffers@),
        ensures
            final(plat).wf(),
            crate::platform::unchanged_but_buffers(*old(plat), *final(plat)),
            !has_internal(self.run.internal_buffers@, index) ==> r == Err::<
                (ManagedRun, Vec<T>),
                Error,
            >(Error::BONotCreatedYet) && *final(plat) == *old(plat),
            has_internal(self.run.internal_buffers@, index) ==> {
                let b = internal_at(self.run.internal_buffers@, index);
                &&& (b.handle is None ==> r == Err::<(ManagedRun, Vec<T>), Error>(
                    Error::BONotCreatedYet,
                ) && *final(plat) == *old(plat))
                &&& (b.handle matches Some(bh) ==> {
                    let e = old(plat).buffers[bh - 1];
                    &&& (r is Ok <==> old(plat).buffer_ok(bh) && b.size <= e.host.len() && count
                        * T::spec_width() <= e.host.len())
                    &&& (r matches Ok(p) ==> {
                        &&& p.0.run.handle == self.run.handle
                        &&& p.0.device_handle == self.device_handle
                        &&& p.0.kernel_handle == self.kernel_handle
                        &&& distinct_internal(p.0.run.internal_buffers@)
                        &&& p.1@.len() == count
                        &&& forall|j: int|
                            0 <= j < count ==> (j + 1) * T::spec_width() <= b.size as int ==> p.1@[
                                j] == T::of_bits(
                                crate::bytecodec::le_val(
                                    e.dev@.subrange(
                                        j * T::spec_width(),
                                        (j + 1) * T::spec_width(),
                                    ),
                                ) as u64,
                            )
                    })
                })
            },
    {
        let mut m = self;
        match m.run.read_buffer_argument::<T>(index, count, plat) {
            Ok(v) => Ok((m, v)),
            Err(e) => Err(e),
        }
    }
}

} // verus!
