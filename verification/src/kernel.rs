//! Kernel entry points and their argument maps.
//!
//! A kernel is opened by name against a ready device. The extended
//! constructor additionally resolves a caller-supplied argument map: every
//! slot marked as needing a buffer is allocated in the memory group the
//! accelerator reports for that slot, so that a constructed kernel never
//! holds an unresolved entry.

use vstd::prelude::*;
use crate::buffer::IOMode;
use crate::device::XRTDevice;
use crate::error::Error;
use crate::platform::Platform;
use crate::utils::{has_nul, str_has_nul};

verus! {

/// How one argument slot of a kernel is provided.
#[derive(Clone, Copy)]
pub enum ArgumentType {
    /// The value is passed directly when a run is loaded.
    Passed,
    /// A concrete buffer, with the direction its data flows.
    Buffer(u64, IOMode),
    /// A buffer of the given byte size that still has to be allocated in
    /// the slot's memory group. A constructed kernel never holds this.
    NotRealizedBuffer(u32, IOMode),
}

/// The content a run binds to one argument slot.
pub enum Argument {
    /// A value passed directly.
    Direct(i32),
    /// Bytes to place in the slot's buffer and synchronize to the device.
    BufferContent(Vec<u8>),
}

/// No entry of the map is still waiting for a buffer.
pub open spec fn mapping_resolved(m: Seq<(u32, ArgumentType)>) -> bool {
    forall|i: int| 0 <= i < m.len() ==> !((#[trigger] m[i]).1 is NotRealizedBuffer)
}

/// The slots of the map are pairwise distinct.
pub open spec fn distinct_slots(m: Seq<(u32, ArgumentType)>) -> bool {
    forall|i: int, j: int| 0 <= i < j < m.len() ==> (#[trigger] m[i]).0 != (#[trigger] m[j]).0
}

/// The map has an entry for the slot.
pub open spec fn mapping_has(m: Seq<(u32, ArgumentType)>, slot: u32) -> bool {
    exists|i: int| 0 <= i < m.len() && (#[trigger] m[i]).0 == slot
}

/// The map's entry for the slot.
pub open spec fn mapping_at(m: Seq<(u32, ArgumentType)>, slot: u32) -> ArgumentType {
    m[choose|i: int| 0 <= i < m.len() && (#[trigger] m[i]).0 == slot].1
}

/// The buffer handle of a concrete buffer entry (`0` otherwise).
pub open spec fn buffer_handle_of(at: ArgumentType) -> u64 {
    match at {
        ArgumentType::Buffer(h, _) => h,
        _ => 0,
    }
}

/// Every buffer entry of the map names its own buffer: entries at
/// different slots never share a handle.
pub open spec fn injective_buffers(m: Seq<(u32, ArgumentType)>) -> bool {
    forall|i: int, j: int|
        0 <= i < j < m.len() && (#[trigger] m[i]).1 is Buffer && (#[trigger] m[j]).1 is Buffer
            ==> buffer_handle_of(m[i].1) != buffer_handle_of(m[j].1)
}

/// Looks up the map's entry for a slot.
pub fn mapping_find(m: &Vec<(u32, ArgumentType)>, slot: u32) -> (r: Option<ArgumentType>)
    requires
        distinct_slots(m@),
    ensures
        r is Some <==> mapping_has(m@, slot),
        r matches Some(a) ==> a == mapping_at(m@, slot),
{
    let mut i: usize = 0;
    while i < m.len()
        invariant
            i <= m@.len(),
            distinct_slots(m@),
            forall|j: int| 0 <= j < i ==> (#[trigger] m@[j]).0 != slot,
        decreases m@.len() - i,
    {
        if m[i].0 == slot {
            proof {
                let w = choose|k: int| 0 <= k < m@.len() && (#[trigger] m@[k]).0 == slot;
                assert((m@[i as int]).0 == slot);
                assert(w == i as int);
            }
            return Some(m[i].1);
        }
        i = i + 1;
    }
    None
}

/// A kernel entry point: its handle (absent once released) and its
/// resolved argument map.
pub struct XRTKernel {
    pub handle: Option<u64>,
    pub argument_mapping: Vec<(u32, ArgumentType)>,
}

impl XRTKernel {
    /// Opens the named kernel against a ready device, with an empty
    /// argument map. Fails with `DeviceNotReadyError` before the device
    /// has connection, bitstream and identity; with `CStringCreationError`
    /// on a name with an embedded NUL; and with `KernelCreationError` when
    /// the platform knows no such kernel.
    pub fn new(name: &str, device: &XRTDevice, plat: &mut Platform) -> (r: Result<XRTKernel, Error>)
        requires
            old(plat).wf(),
        ensures
            final(plat).wf(),
            !device.ready_spec() ==> r == Err::<XRTKernel, Error>(Error::DeviceNotReadyError)
                && *final(plat) == *old(plat),
            device.ready_spec() && has_nul(name) ==> r == Err::<XRTKernel, Error>(
                Error::CStringCreationError,
            ) && *final(plat) == *old(plat),
            device.ready_spec() && !has_nul(name) && !old(plat).kernel_openable(
                device.handle->Some_0,
                device.xclbin_uuid->Some_0,
                name@,
            ) ==> r == Err::<XRTKernel, Error>(Error::KernelCreationError) && *final(plat) == *old(
                plat,
            ),
            device.ready_spec() && !has_nul(name) && old(plat).kernel_openable(
                device.handle->Some_0,
                device.xclbin_uuid->Some_0,
                name@,
            ) ==> (r matches Ok(k) && {
                &&& k.handle matches Some(h)
                &&& final(plat).kernel_ok(h)
                &&& final(plat).kernel_def(h).name@ == name@
                &&& k.argument_mapping@.len() == 0
                &&& final(plat).kernels@.len() == old(plat).kernels@.len() + 1
                &&& final(plat).kernels@.subrange(0, old(plat).kernels@.len() as int) =~= old(
                    plat,
                ).kernels@
            }),
            final(plat).num_devices == old(plat).num_devices,
            final(plat).images@ =~= old(plat).images@,
            final(plat).connections@ =~= old(plat).connections@,
            final(plat).bitstreams@ =~= old(plat).bitstreams@,
            final(plat).buffers@ =~= old(plat).buffers@,
            final(plat).runs@ =~= old(plat).runs@,
    {
        if !device.is_ready() {
            return Err(Error::DeviceNotReadyError);
        }
        if str_has_nul(name) {
            return Err(Error::CStringCreationError);
        }
        let conn = device.handle.unwrap();
        let uuid = device.xclbin_uuid.unwrap();
        let h = plat.kernel_open(conn, uuid, name);
        if h == 0 {
            return Err(Error::KernelCreationError);
        }
        Ok(XRTKernel { handle: Some(h), argument_mapping: Vec::new() })
    }

    /// Builds a kernel from an already-open handle and a resolved argument
    /// map. Guards against a map that still needs buffer allocation.
    pub fn from_parts(handle: u64, argument_mapping: Vec<(u32, ArgumentType)>) -> (r: Result<
        XRTKernel,
        Error,
    >)
        ensures
            r is Ok <==> mapping_resolved(argument_mapping@),
            r is Err ==> r == Err::<XRTKernel, Error>(Error::UnrealizedBufferError),
            r matches Ok(k) ==> k.handle == Some(handle) && k.argument_mapping@
                =~= argument_mapping@,
    {
        if !XRTKernel::is_ready(&argument_mapping) {
            return Err(Error::UnrealizedBufferError);
        }
        Ok(XRTKernel { handle: Some(handle), argument_mapping })
    }

    /// Whether an argument map is ready for execution: no entry still
    /// needs a buffer allocated.
    pub fn is_ready(argument_mapping: &Vec<(u32, ArgumentType)>) -> (r: bool)
        ensures
            r == mapping_resolved(argument_mapping@),
    {
        let mut i: usize = 0;
        while i < argument_mapping.len()
            invariant
                i <= argument_mapping@.len(),
                forall|j: int|
                    0 <= j < i ==> !((#[trigger] argument_mapping@[j]).1 is NotRealizedBuffer),
            decreases argument_mapping@.len() - i,
        {
            if let ArgumentType::NotRealizedBuffer(_, _) = argument_mapping[i].1 {
                return false;
            }
            i = i + 1;
        }
        true
    }

    /// A fresh run bound to this kernel, with no argument data.
    pub fn run(&self, plat: &mut Platform) -> (r: Result<crate::run::XRTRun, Error>)
        requires
            old(plat).wf(),
        ensures
            final(plat).wf(),
            crate::platform::unchanged_but_runs(*old(plat), *final(plat)),
            self.handle is None ==> r == Err::<crate::run::XRTRun, Error>(
                Error::KernelNotLoadedYetError,
            ) && *final(plat) == *old(plat),
            self.handle is Some && !old(plat).kernel_ok(self.handle->Some_0) ==> r == Err::<
                crate::run::XRTRun,
                Error,
            >(Error::RunCreationError) && *final(plat) == *old(plat),
            self.handle is Some && old(plat).kernel_ok(self.handle->Some_0) ==> (r matches Ok(run)
                && {
                &&& run.handle matches Some(h)
                &&& final(plat).run_ok(h)
                &&& h == final(plat).runs.len()
                &&& final(plat).runs@ =~= old(plat).runs@.push(final(plat).runs@.last())
                &&& final(plat).runs@.last().kernel == self.handle->Some_0
                &&& final(plat).runs@.last().state == crate::platform::ERT_CMD_STATE_NEW
                &&& final(plat).runs@.last().args@ =~= Seq::new(
                    old(plat).kernel_def(self.handle->Some_0).args.len() as nat,
                    |k: int| None::<u64>,
                )
                &&& run.internal_buffers@.len() == 0
                &&& run.argument_data@.len() == 0
            }),
    {
        crate::run::XRTRun::new(self, plat)
    }

    /// The accelerator-reported memory group for a buffer-backed argument
    /// slot. Fails with `KernelNotLoadedYetError` once the kernel is
    /// released, and with `KernelArgRtrvError` when the slot is out of
    /// range or not buffer-backed.
    pub fn get_memory_group_for_argument(&self, argno: i32, plat: &Platform) -> (r: Result<
        i32,
        Error,
    >)
        requires
            plat.wf(),
        ensures
            self.handle is None ==> r == Err::<i32, Error>(Error::KernelNotLoadedYetError),
            self.handle matches Some(h) ==> {
                &&& (r is Ok <==> plat.kernel_ok(h) && 0 <= argno < plat.kernel_def(h).args.len()
                    && plat.kernel_def(h).args[argno as int] is MemoryArg)
                &&& (r is Err ==> r == Err::<i32, Error>(Error::KernelArgRtrvError))
                &&& (r matches Ok(g) ==> (plat.kernel_def(h).args[argno as int]
                    matches crate::platform::ArgKind::MemoryArg { group } && g == group && g >= 0))
            },
    {
        if let Some(h) = self.handle {
            let grp = plat.kernel_arg_group(h, argno);
            if grp < 0 {
                return Err(Error::KernelArgRtrvError);
            }
            Ok(grp)
        } else {
            Err(Error::KernelNotLoadedYetError)
        }
    }

    /// A run primed with argument data, one entry per slot of this
    /// kernel's argument map. Fails with `NonMatchingArgumentLists` when
    /// the data and the map differ in length.
    pub fn create_run(&self, argument_data: Vec<(u32, Argument)>, plat: &mut Platform) -> (r:
        Result<crate::run::XRTRun, Error>)
        requires
            old(plat).wf(),
        ensures
            final(plat).wf(),
            crate::platform::unchanged_but_runs(*old(plat), *final(plat)),
            argument_data@.len() != self.argument_mapping@.len() ==> r == Err::<
                crate::run::XRTRun,
                Error,
            >(Error::NonMatchingArgumentLists) && *final(plat) == *old(plat),
            argument_data@.len() == self.argument_mapping@.len() && self.handle is None ==> r
                == Err::<crate::run::XRTRun, Error>(Error::KernelNotLoadedYetError) && *final(plat)
                == *old(plat),
            argument_data@.len() == self.argument_mapping@.len() && self.handle is Some && !old(
                plat,
            ).kernel_ok(self.handle->Some_0) ==> r == Err::<crate::run::XRTRun, Error>(
                Error::RunCreationError,
            ) && *final(plat) == *old(plat),
            argument_data@.len() == self.argument_mapping@.len() && self.handle is Some && old(
                plat,
            ).kernel_ok(self.handle->Some_0) ==> (r matches Ok(run) && {
                &&& run.handle matches Some(h)
                &&& final(plat).run_ok(h)
                &&& final(plat).runs@.last().kernel == self.handle->Some_0
                &&& final(plat).runs@.last().state == crate::platform::ERT_CMD_STATE_NEW
                &&& run.argument_data@ =~= argument_data@
                &&& run.internal_buffers@.len() == 0
            }),
    {
        if argument_data.len() != self.argument_mapping.len() {
            return Err(Error::NonMatchingArgumentLists);
        }
        let mut run = match crate::run::XRTRun::new(self, plat) {
            Ok(run) => run,
            Err(e) => {
                return Err(e);
            },
        };
        run.argument_data = argument_data;
        Ok(run)
    }

    /// Releases every buffer this kernel allocated for its argument map,
    /// then the entry-point handle, each exactly once. Once released,
    /// calling again does nothing.
    pub fn close(&mut self, plat: &mut Platform)
        requires
            old(plat).wf(),
        ensures
            final(plat).wf(),
            final(self).handle is None,
            final(self).argument_mapping@.len() == 0,
            old(self).handle is None && old(self).argument_mapping@.len() == 0 ==> *final(plat)
                == *old(plat),
            final(plat).num_devices == old(plat).num_devices,
            final(plat).images@ =~= old(plat).images@,
            final(plat).connections@ =~= old(plat).connections@,
            final(plat).bitstreams@ =~= old(plat).bitstreams@,
            final(plat).runs@ =~= old(plat).runs@,
            final(plat).buffers@.len() == old(plat).buffers@.len(),
            final(plat).kernels@.len() == old(plat).kernels@.len(),
            old(self).handle is None ==> final(plat).kernels@ =~= old(plat).kernels@,
            old(self).handle matches Some(h) ==> {
                &&& crate::platform::same_except(old(plat).kernels@, final(plat).kernels@, h - 1)
                &&& !final(plat).kernel_ok(h)
            },
            forall|i: int|
                0 <= i < old(self).argument_mapping@.len() ==> ((
                #[trigger] old(self).argument_mapping@[i]).1 matches ArgumentType::Buffer(bh, m)
                    ==> !final(plat).buffer_ok(bh)),
            forall|b: u64| #[trigger] final(plat).buffer_ok(b) ==> old(plat).buffer_ok(b),
            forall|k: u64| #[trigger] final(plat).kernel_ok(k) ==> old(plat).kernel_ok(k),
    {
        while self.argument_mapping.len() > 0
            invariant
                plat.wf(),
                self.handle == old(self).handle,
                plat.num_devices == old(plat).num_devices,
                plat.images@ =~= old(plat).images@,
                plat.connections@ =~= old(plat).connections@,
                plat.bitstreams@ =~= old(plat).bitstreams@,
                plat.runs@ =~= old(plat).runs@,
                plat.kernels@ =~= old(plat).kernels@,
                plat.buffers@.len() == old(plat).buffers@.len(),
                old(self).argument_mapping@.len() == 0 ==> *plat == *old(plat)
                    && self.argument_mapping@.len() == 0,
                self.argument_mapping@.len() <= old(self).argument_mapping@.len(),
                self.argument_mapping@ =~= old(self).argument_mapping@.subrange(
                    0,
                    self.argument_mapping@.len() as int,
                ),
                forall|i: int|
                    self.argument_mapping@.len() <= i < old(self).argument_mapping@.len() ==> ((
                    #[trigger] old(self).argument_mapping@[i]).1 matches ArgumentType::Buffer(
                        bh,
                        m,
                    ) ==> !plat.buffer_ok(bh)),
                forall|b: u64| #[trigger] plat.buffer_ok(b) ==> old(plat).buffer_ok(b),
            decreases self.argument_mapping@.len(),
        {
            let ghost pre_tbl = self.argument_mapping@;
            let ghost pre_plat = *plat;
            if let Some((_, at)) = self.argument_mapping.pop() {
                proof {
                    assert(self.argument_mapping@ =~= pre_tbl.drop_last());
                    assert(self.argument_mapping@ =~= old(self).argument_mapping@.subrange(
                        0,
                        pre_tbl.len() - 1,
                    ));
                    assert(at == (old(self).argument_mapping@[pre_tbl.len() - 1]).1);
                }
                if let ArgumentType::Buffer(h, _) = at {
                    let freed = plat.bo_free(h);
                    proof {
                        assert(!plat.buffer_ok(h));
                        assert forall|b: u64| #[trigger] plat.buffer_ok(b) implies pre_plat.buffer_ok(
                            b,
                        ) by {
                            if b != h {
                                assert(plat.buffers@[b - 1] == pre_plat.buffers@[b - 1]);
                            }
                        }
                    }
                }
            }
        }
        let ghost pre_close = *plat;
        if let Some(h) = self.handle {
            let _ = plat.kernel_close(h);
            self.handle = None;
        }
        proof {
            assert(plat.buffers@ =~= pre_close.buffers@);
            assert forall|b: u64| #[trigger] plat.buffer_ok(b) implies old(plat).buffer_ok(b) by {
                assert(pre_close.buffer_ok(b));
            }
        }
    }
}

} // verus!
