//! Device buffer objects: fixed-size staging memory on the host paired
//! with device-visible memory, moved across the boundary only by explicit
//! synchronization.

use vstd::prelude::*;
use crate::bytecodec::{le_val, overlay};
use crate::device::XRTDevice;
use crate::error::Error;
use crate::platform::{
    Platform,
    XCL_BO_SYNC_BO_TO_DEVICE,
    XCL_BO_SYNC_BO_FROM_DEVICE,
};
use crate::{HardwareDatatype, encode_elems, encode_slice, decode_vec};

verus! {

/// The direction of one synchronization: which side's bytes move.
pub enum SyncDirection {
    HostToDevice,
    DeviceToHost,
}

impl SyncDirection {
    /// The native direction code.
    pub fn native(&self) -> (r: u32)
        ensures
            r == self.native_code(),
    {
        match self {
            SyncDirection::HostToDevice => XCL_BO_SYNC_BO_TO_DEVICE,
            SyncDirection::DeviceToHost => XCL_BO_SYNC_BO_FROM_DEVICE,
        }
    }

    pub open spec fn native_code(self) -> u32 {
        match self {
            SyncDirection::HostToDevice => XCL_BO_SYNC_BO_TO_DEVICE,
            SyncDirection::DeviceToHost => XCL_BO_SYNC_BO_FROM_DEVICE,
        }
    }
}

/// Whether a pre-allocated kernel argument buffer carries input to the
/// device or results back from it.
#[derive(Clone, Copy)]
pub enum IOMode {
    Input,
    Output,
}

/// A buffer object: its handle (absent once released) and its fixed size
/// in bytes.
pub struct XRTBuffer {
    pub handle: Option<u64>,
    pub size: usize,
}

impl XRTBuffer {
    /// The buffer's live handle denotes a platform buffer of its size.
    pub open spec fn valid(self, plat: Platform) -> bool {
        self.handle matches Some(h) ==> plat.buffer_ok(h) && plat.buffers[h - 1].host.len()
            == self.size
    }

    /// Allocates a buffer of `size` bytes in the given memory group against
    /// the device's connection. Fails with `UnopenedDeviceError` when the
    /// device has no connection handle, and with `BOCreationError` when the
    /// platform rejects the allocation (dead connection).
    pub fn new(
        device: &XRTDevice,
        size: usize,
        flags: u32,
        memory_group: i32,
        plat: &mut Platform,
    ) -> (r: Result<XRTBuffer, Error>)
        requires
            old(plat).wf(),
            memory_group >= 0,
        ensures
            final(plat).wf(),
            device.handle is None ==> r == Err::<XRTBuffer, Error>(Error::UnopenedDeviceError)
                && *final(plat) == *old(plat),
            device.handle matches Some(c) && !old(plat).conn_ok(c) ==> r == Err::<
                XRTBuffer,
                Error,
            >(Error::BOCreationError) && *final(plat) == *old(plat),
            device.handle matches Some(c) && old(plat).conn_ok(c) ==> (r matches Ok(b) && {
                &&& b.handle matches Some(h)
                &&& final(plat).buffer_ok(h)
                &&& h == final(plat).buffers.len()
                &&& final(plat).buffers@.len() == old(plat).buffers@.len() + 1
                &&& final(plat).buffers@.subrange(0, old(plat).buffers@.len() as int) =~= old(
                    plat,
                ).buffers@
                &&& final(plat).buffers@.last().group == memory_group as u32
                &&& final(plat).buffers@.last().host@ =~= Seq::new(size as nat, |k: int| 0u8)
                &&& final(plat).buffers@.last().dev@ =~= Seq::new(size as nat, |k: int| 0u8)
                &&& b.size == size
                &&& b.valid(*final(plat))
            }),
            r is Err ==> final(plat).buffers@ =~= old(plat).buffers@,
            crate::platform::unchanged_but_buffers(*old(plat), *final(plat)),
    {
        if device.handle.is_none() {
            return Err(Error::UnopenedDeviceError);
        }
        let conn = device.handle.unwrap();
        let h = plat.bo_alloc(conn, size, flags, memory_group as u32);
        if h == 0 {
            return Err(Error::BOCreationError);
        }
        Ok(XRTBuffer { handle: Some(h), size })
    }

    /// The raw handle, if the buffer is still held.
    pub fn get_handle(&self) -> (r: Option<u64>)
        ensures
            r == self.handle,
    {
        self.handle
    }

    /// Copies `data` into the host staging bytes at byte offset `seek`.
    /// The data is not visible to the device until a `HostToDevice` sync.
    pub fn write<T: HardwareDatatype>(
        &self,
        data: &[T],
        seek: usize,
        plat: &mut Platform,
    ) -> (r: Result<(), Error>)
        requires
            old(plat).wf(),
            data@.len() * T::spec_width() <= usize::MAX,
        ensures
            final(plat).wf(),
            self.handle is None ==> r == Err::<(), Error>(Error::BONotCreatedYet) && *final(plat)
                == *old(plat),
            self.handle matches Some(h) ==> {
                &&& (r is Ok <==> old(plat).buffer_ok(h) && seek + data@.len() * T::spec_width()
                    <= old(plat).buffers[h - 1].host.len())
                &&& (r is Err ==> r == Err::<(), Error>(Error::BOWriteError))
                &&& (r is Ok ==> {
                    let e = old(plat).buffers[h - 1];
                    let f = final(plat).buffers@[h - 1];
                    &&& crate::platform::same_except(old(plat).buffers@, final(plat).buffers@, h - 1)
                    &&& f.alive == e.alive
                    &&& f.group == e.group
                    &&& f.dev@ =~= e.dev@
                    &&& f.host@ =~= overlay(e.host@, seek as int, encode_elems(data@))
                })
                &&& (r is Err ==> final(plat).buffers@ =~= old(plat).buffers@)
            },
            crate::platform::unchanged_but_buffers(*old(plat), *final(plat)),
    {
        if self.handle.is_none() {
            return Err(Error::BONotCreatedYet);
        }
        let h = self.handle.unwrap();
        let bytes = encode_slice(data);
        if plat.bo_write(h, &bytes, seek) != 0 {
            return Err(Error::BOWriteError);
        }
        Ok(())
    }

    /// Reads `count` elements from the host staging bytes at byte offset
    /// `seek`. The staging bytes reflect the device only after a
    /// `DeviceToHost` sync.
    pub fn read<T: HardwareDatatype>(
        &self,
        count: usize,
        seek: usize,
        plat: &Platform,
    ) -> (r: Result<Vec<T>, Error>)
        requires
            plat.wf(),
        ensures
            self.handle is None ==> r == Err::<Vec<T>, Error>(Error::BONotCreatedYet),
            self.handle matches Some(h) ==> {
                &&& (r is Ok <==> plat.buffer_ok(h) && seek + count * T::spec_width() <= plat.buffers[
                    h - 1].host.len())
                &&& (r is Err ==> r == Err::<Vec<T>, Error>(Error::BOReadError))
                &&& (r matches Ok(v) ==> {
                    let host = plat.buffers[h - 1].host@;
                    &&& v@.len() == count
                    &&& forall|j: int|
                        0 <= j < count ==> v@[j] == T::of_bits(
                            le_val(
                                host.subrange(
                                    seek + j * T::spec_width(),
                                    seek + (j + 1) * T::spec_width(),
                                ),
                            ) as u64,
                        )
                })
            },
    {
        if self.handle.is_none() {
            return Err(Error::BONotCreatedYet);
        }
        let h = self.handle.unwrap();
        let w = T::width();
        proof {
            T::lemma_width();
        }
        if count > usize::MAX / w {
            proof {
                assert(count * w > usize::MAX) by (nonlinear_arith)
                    requires
                        count > usize::MAX / w,
                        1 <= w <= 8,
                ;
                if 1 <= h <= plat.buffers.len() {
                    assert(plat.buffers[h - 1].host.len() <= usize::MAX);
                }
            }
            return Err(Error::BOReadError);
        }
        proof {
            assert(count * w <= usize::MAX) by (nonlinear_arith)
                requires
                    count <= usize::MAX / w,
                    1 <= w <= 8,
            ;
        }
        let n = count * w;
        match plat.bo_read(h, n, seek) {
            None => Err(Error::BOReadError),
            Some(bytes) => {
                let v = decode_vec::<T>(&bytes, count);
                proof {
                    let host = plat.buffers[h - 1].host@;
                    assert forall|j: int| 0 <= j < count implies v@[j] == T::of_bits(
                        le_val(host.subrange(seek + j * w, seek + (j + 1) * w)) as u64,
                    ) by {
                        vstd::arithmetic::mul::lemma_mul_inequality(j + 1, count as int, w as int);
                        assert((j + 1) * w == j * w + w) by (nonlinear_arith);
                        assert(0 <= j * w) by (nonlinear_arith)
                            requires
                                0 <= j,
                                0 <= w,
                        ;
                        assert(bytes@.subrange(j * w, (j + 1) * w) =~= host.subrange(
                            seek + j * w,
                            seek + (j + 1) * w,
                        ));
                    }
                }
                Ok(v)
            },
        }
    }

    /// Moves the buffer's bytes across the host/device boundary. `size`
    /// overrides how many bytes move (the whole buffer when absent),
    /// starting at byte offset `seek`.
    pub fn sync(
        &self,
        sync_direction: SyncDirection,
        size: Option<usize>,
        seek: usize,
        plat: &mut Platform,
    ) -> (r: Result<(), Error>)
        requires
            old(plat).wf(),
        ensures
            final(plat).wf(),
            self.handle is None ==> r == Err::<(), Error>(Error::BONotCreatedYet) && *final(plat)
                == *old(plat),
            self.handle matches Some(h) ==> {
                let used = if size is Some { size->Some_0 as int } else { self.size as int };
                &&& (r is Ok <==> old(plat).buffer_ok(h) && seek + used <= old(plat).buffers[h
                    - 1].host.len())
                &&& (r is Err ==> r == Err::<(), Error>(Error::BOSyncError))
                &&& (r is Ok ==> {
                    let e = old(plat).buffers[h - 1];
                    let f = final(plat).buffers@[h - 1];
                    &&& crate::platform::same_except(old(plat).buffers@, final(plat).buffers@, h - 1)
                    &&& f.alive == e.alive
                    &&& f.group == e.group
                    &&& (sync_direction is HostToDevice ==> f.host@ =~= e.host@ && f.dev@ =~=
                        overlay(e.dev@, seek as int, e.host@.subrange(seek as int, seek + used)))
                    &&& (sync_direction is DeviceToHost ==> f.dev@ =~= e.dev@ && f.host@ =~=
                        overlay(e.host@, seek as int, e.dev@.subrange(seek as int, seek + used)))
                })
                &&& (r is Err ==> final(plat).buffers@ =~= old(plat).buffers@)
            },
            crate::platform::unchanged_but_buffers(*old(plat), *final(plat)),
    {
        if self.handle.is_none() {
            return Err(Error::BONotCreatedYet);
        }
        let h = self.handle.unwrap();
        let used_size = match size {
            None => self.size,
            Some(s) => s,
        };
        if plat.bo_sync(h, sync_direction.native(), used_size, seek) != 0 {
            return Err(Error::BOSyncError);
        }
        Ok(())
    }

    /// Releases the allocation. Safe to call at any time; once the handle
    /// is gone the call does nothing, so a second release never reaches
    /// the platform.
    pub fn close(&mut self, plat: &mut Platform)
        requires
            old(plat).wf(),
        ensures
            final(plat).wf(),
            final(self).handle is None,
            final(self).size == old(self).size,
            old(self).handle is None ==> *final(plat) == *old(plat),
            old(self).handle is Some && old(plat).buffer_ok(old(self).handle->Some_0) ==> {
                &&& crate::platform::same_except(
                    old(plat).buffers@,
                    final(plat).buffers@,
                    old(self).handle->Some_0 - 1,
                )
                &&& final(plat).buffers@[old(self).handle->Some_0 - 1].alive == false
            },
            old(self).handle is Some && !old(plat).buffer_ok(old(self).handle->Some_0)
                ==> *final(plat) == *old(plat),
            old(self).handle matches Some(h) ==> !final(plat).buffer_ok(h),
            forall|b: u64| #[trigger] final(plat).buffer_ok(b) ==> old(plat).buffer_ok(b),
            crate::platform::unchanged_but_buffers(*old(plat), *final(plat)),
    {
        if let Some(h) = self.handle {
            let _ = plat.bo_free(h);
            self.handle = None;
        }
    }
}

/// Round trip through the staging boundary: writing bytes into the host
/// staging memory, synchronizing them over to the device, synchronizing
/// the same range back, and reading it yields exactly the bytes written,
/// as long as the range fits the buffer's fixed capacity and nothing
/// touched the device bytes in between.
pub proof fn lemma_buffer_round_trip(host: Seq<u8>, dev: Seq<u8>, data: Seq<u8>, seek: int)
    requires
        host.len() == dev.len(),
        0 <= seek,
        seek + data.len() <= host.len(),
    ensures
        ({
            let h1 = overlay(host, seek, data);
            let d1 = overlay(dev, seek, h1.subrange(seek, seek + data.len()));
            let h2 = overlay(h1, seek, d1.subrange(seek, seek + data.len()));
            h2.subrange(seek, seek + data.len()) =~= data
        }),
{
    let h1 = overlay(host, seek, data);
    let d1 = overlay(dev, seek, h1.subrange(seek, seek + data.len()));
    let h2 = overlay(h1, seek, d1.subrange(seek, seek + data.len()));
    assert(h1.subrange(seek, seek + data.len()) =~= data);
    assert(d1.subrange(seek, seek + data.len()) =~= data);
    assert(h2.subrange(seek, seek + data.len()) =~= data);
}

} // verus!
