//! The accelerator device: the root of the resource ownership tree.
//!
//! A device owns a connection handle and, once a bitstream is loaded, the
//! bitstream handle together with its identity. The two are set together
//! or not at all: a failed load leaves the device exactly as it was.

use vstd::prelude::*;
use crate::error::Error;
use crate::kernel::{ArgumentType, XRTKernel, mapping_resolved, distinct_slots};
use crate::platform::Platform;
use crate::utils::{has_nul, str_has_nul};

verus! {

/// A device: connection handle, loaded bitstream handle and identity
/// (each absent until acquired), and the kernels opened through it, by
/// name.
pub struct XRTDevice {
    pub handle: Option<u64>,
    pub xclbin_handle: Option<u64>,
    pub xclbin_uuid: Option<u128>,
    pub kernels: Vec<(String, XRTKernel)>,
}

/// The names of a kernel table are pairwise distinct, so it is a map.
pub open spec fn distinct_kernel_names(s: Seq<(String, XRTKernel)>) -> bool {
    forall|i: int, j: int| 0 <= i < j < s.len() ==> (#[trigger] s[i]).0@ != (#[trigger] s[j]).0@
}

/// The table holds a kernel under the name.
pub open spec fn kernels_has(s: Seq<(String, XRTKernel)>, name: Seq<char>) -> bool {
    exists|i: int| 0 <= i < s.len() && (#[trigger] s[i]).0@ == name
}

/// The kernel the table holds under the name.
pub open spec fn kernels_at(s: Seq<(String, XRTKernel)>, name: Seq<char>) -> XRTKernel {
    s[choose|i: int| 0 <= i < s.len() && (#[trigger] s[i]).0@ == name].1
}

/// Updating the entry at a name's position keeps the table a map and
/// changes only that name's kernel.
pub proof fn lemma_kernels_update(
    pre: Seq<(String, XRTKernel)>,
    post: Seq<(String, XRTKernel)>,
    i: int,
    name: Seq<char>,
    kernel: XRTKernel,
)
    requires
        distinct_kernel_names(pre),
        0 <= i < pre.len(),
        (pre[i]).0@ == name,
        post.len() == pre.len(),
        (post[i]).0@ == name,
        (post[i]).1 == kernel,
        forall|j: int| 0 <= j < pre.len() && j != i ==> post[j] == pre[j],
    ensures
        distinct_kernel_names(post),
        kernels_has(post, name),
        kernels_at(post, name) == kernel,
        forall|other: Seq<char>|
            other != name ==> #[trigger] kernels_has(post, other) == kernels_has(pre, other),
        forall|other: Seq<char>|
            other != name && kernels_has(pre, other) ==> #[trigger] kernels_at(post, other)
                == kernels_at(pre, other),
{
    assert forall|x: int, y: int| 0 <= x < y < post.len() implies (#[trigger] post[x]).0@ != (
    #[trigger] post[y]).0@ by {
        assert((pre[x]).0@ != (pre[y]).0@);
        if x != i && y != i {
            assert(post[x] == pre[x] && post[y] == pre[y]);
        }
    }
    assert(kernels_has(post, name)) by {
        assert((post[i]).0@ == name);
    }
    assert(kernels_at(post, name) == kernel) by {
        let w = choose|k: int| 0 <= k < post.len() && (#[trigger] post[k]).0@ == name;
        assert((post[i]).0@ == name);
        if w != i {
            assert((pre[w]).0@ == name);
            assert((pre[i]).0@ == name);
        }
    }
    assert forall|other: Seq<char>| other != name implies #[trigger] kernels_has(post, other)
        == kernels_has(pre, other) by {
        if kernels_has(pre, other) {
            let k = choose|k: int| 0 <= k < pre.len() && (#[trigger] pre[k]).0@ == other;
            assert((post[k]).0@ == other);
        }
        if kernels_has(post, other) {
            let k = choose|k: int| 0 <= k < post.len() && (#[trigger] post[k]).0@ == other;
            assert((pre[k]).0@ == other);
        }
    }
    assert forall|other: Seq<char>| other != name && kernels_has(pre, other) implies #[trigger]
        kernels_at(post, other) == kernels_at(pre, other) by {
        let kp = choose|k: int| 0 <= k < pre.len() && (#[trigger] pre[k]).0@ == other;
        let kq = choose|k: int| 0 <= k < post.len() && (#[trigger] post[k]).0@ == other;
        assert((post[kp]).0@ == other);
        assert((pre[kq]).0@ == other);
        assert(kp == kq);
    }
}

/// Appending a fresh name keeps the table a map and adds only that name.
pub proof fn lemma_kernels_push(
    pre: Seq<(String, XRTKernel)>,
    post: Seq<(String, XRTKernel)>,
    name: Seq<char>,
    kernel: XRTKernel,
)
    requires
        distinct_kernel_names(pre),
        !kernels_has(pre, name),
        post.len() == pre.len() + 1,
        (post[pre.len() as int]).0@ == name,
        (post[pre.len() as int]).1 == kernel,
        forall|j: int| 0 <= j < pre.len() ==> post[j] == pre[j],
    ensures
        distinct_kernel_names(post),
        kernels_has(post, name),
        kernels_at(post, name) == kernel,
        forall|other: Seq<char>|
            other != name ==> #[trigger] kernels_has(post, other) == kernels_has(pre, other),
        forall|other: Seq<char>|
            other != name && kernels_has(pre, other) ==> #[trigger] kernels_at(post, other)
                == kernels_at(pre, other),
{
    let n = pre.len() as int;
    assert forall|x: int, y: int| 0 <= x < y < post.len() implies (#[trigger] post[x]).0@ != (
    #[trigger] post[y]).0@ by {
        if y == n {
            assert(post[x] == pre[x]);
            if (pre[x]).0@ == name {
                assert(kernels_has(pre, name));
            }
        } else {
            assert(post[x] == pre[x] && post[y] == pre[y]);
            assert((pre[x]).0@ != (pre[y]).0@);
        }
    }
    assert(kernels_has(post, name)) by {
        assert((post[n]).0@ == name);
    }
    assert(kernels_at(post, name) == kernel) by {
        let w = choose|k: int| 0 <= k < post.len() && (#[trigger] post[k]).0@ == name;
        if w != n {
            assert((pre[w]).0@ == name);
            assert(kernels_has(pre, name));
        }
    }
    assert forall|other: Seq<char>| other != name implies #[trigger] kernels_has(post, other)
        == kernels_has(pre, other) by {
        if kernels_has(pre, other) {
            let k = choose|k: int| 0 <= k < pre.len() && (#[trigger] pre[k]).0@ == other;
            assert((post[k]).0@ == other);
        }
        if kernels_has(post, other) {
            let k = choose|k: int| 0 <= k < post.len() && (#[trigger] post[k]).0@ == other;
            assert(k != n);
            assert((pre[k]).0@ == other);
        }
    }
    assert forall|other: Seq<char>| other != name && kernels_has(pre, other) implies #[trigger]
        kernels_at(post, other) == kernels_at(pre, other) by {
        let kp = choose|k: int| 0 <= k < pre.len() && (#[trigger] pre[k]).0@ == other;
        let kq = choose|k: int| 0 <= k < post.len() && (#[trigger] post[k]).0@ == other;
        assert((post[kp]).0@ == other);
        assert(kq != n);
        assert((pre[kq]).0@ == other);
        assert(kp == kq);
    }
}

impl XRTDevice {
    /// Bitstream handle and identity are set together or not at all, and
    /// only on an open connection; the kernel table is keyed by name.
    pub open spec fn wf(self) -> bool {
        &&& (self.xclbin_handle is Some <==> self.xclbin_uuid is Some)
        &&& (self.xclbin_handle is Some ==> self.handle is Some)
        &&& distinct_kernel_names(self.kernels@)
    }

    /// Connection, bitstream and identity are all present.
    pub open spec fn ready_spec(self) -> bool {
        self.handle is Some && self.xclbin_handle is Some && self.xclbin_uuid is Some
    }

    /// A device with nothing acquired yet.
    pub fn new() -> (r: XRTDevice)
        ensures
            r.wf(),
            r.handle is None,
            r.xclbin_handle is None,
            r.xclbin_uuid is None,
            r.kernels@.len() == 0,
            !r.ready_spec(),
    {
        XRTDevice { handle: None, xclbin_handle: None, xclbin_uuid: None, kernels: Vec::new() }
    }

    /// Opens the device at `index`. Fails with `DeviceOpenError` when the
    /// platform has no such device. A fresh device is never ready: no
    /// bitstream is loaded yet.
    pub fn from_index(index: u32, plat: &mut Platform) -> (r: Result<XRTDevice, Error>)
        requires
            old(plat).wf(),
        ensures
            final(plat).wf(),
            r is Ok <==> index < old(plat).num_devices,
            r is Err ==> r == Err::<XRTDevice, Error>(Error::DeviceOpenError) && *final(plat)
                == *old(plat),
            r matches Ok(d) ==> {
                &&& d.wf()
                &&& d.handle matches Some(c)
                &&& final(plat).conn_ok(c)
                &&& d.xclbin_handle is None
                &&& d.xclbin_uuid is None
                &&& d.kernels@.len() == 0
                &&& !d.ready_spec()
            },
            final(plat).num_devices == old(plat).num_devices,
            final(plat).images@ =~= old(plat).images@,
            final(plat).bitstreams@ =~= old(plat).bitstreams@,
            final(plat).kernels@ =~= old(plat).kernels@,
            final(plat).buffers@ =~= old(plat).buffers@,
            final(plat).runs@ =~= old(plat).runs@,
    {
        let h = plat.device_open(index);
        if h == 0 {
            return Err(Error::DeviceOpenError);
        }
        Ok(
            XRTDevice {
                handle: Some(h),
                xclbin_handle: None,
                xclbin_uuid: None,
                kernels: Vec::new(),
            },
        )
    }

    /// Opens the device at `index` into this value, dropping any loaded
    /// bitstream, identity and kernels first. Fails with `DeviceOpenError`
    /// on an invalid index, leaving the device with no connection.
    pub fn open_device(&mut self, index: u32, plat: &mut Platform) -> (r: Result<(), Error>)
        requires
            old(plat).wf(),
        ensures
            final(plat).wf(),
            final(self).wf(),
            final(self).xclbin_handle is None,
            final(self).xclbin_uuid is None,
            final(self).kernels@.len() == 0,
            r is Ok <==> index < old(plat).num_devices,
            r is Err ==> r == Err::<(), Error>(Error::DeviceOpenError) && final(self).handle
                is None,
            r is Ok ==> (final(self).handle matches Some(c) && final(plat).conn_ok(c)
                && !final(self).ready_spec()),
    {
        self.xclbin_handle = None;
        self.xclbin_uuid = None;
        self.kernels = Vec::new();
        let h = plat.device_open(index);
        if h == 0 {
            self.handle = None;
            return Err(Error::DeviceOpenError);
        }
        self.handle = Some(h);
        Ok(())
    }

    /// The connection handle, if the device is open.
    pub fn get_handle(&self) -> (r: Option<u64>)
        ensures
            r == self.handle,
    {
        self.handle
    }

    /// The loaded bitstream's identity, if one is loaded.
    pub fn get_uuid(&self) -> (r: Option<u128>)
        ensures
            r == self.xclbin_uuid,
    {
        self.xclbin_uuid
    }

    /// True exactly when connection, bitstream and identity are all
    /// present.
    pub fn is_ready(&self) -> (r: bool)
        ensures
            r == self.ready_spec(),
    {
        self.handle.is_some() && self.xclbin_handle.is_some() && self.xclbin_uuid.is_some()
    }

    /// Loads the bitstream at `path` and records its identity. The device
    /// must be open (`UnopenedDeviceError`); the path must have a native
    /// string form (`CStringCreationError`); the platform must know the
    /// path (`XclbinFileAllocError`) and accept the load on this
    /// connection (`XclbinLoadError`). Bitstream handle and identity are
    /// stored only when every step succeeded: on any failure the device is
    /// exactly as it was, so a failed load never leaves a partially ready
    /// device.
    pub fn load_xclbin(&mut self, path: &str, plat: &mut Platform) -> (r: Result<(), Error>)
        requires
            old(plat).wf(),
            old(self).wf(),
        ensures
            final(plat).wf(),
            final(self).wf(),
            r is Err ==> *final(self) == *old(self),
            old(self).handle is None ==> r == Err::<(), Error>(Error::UnopenedDeviceError)
                && *final(plat) == *old(plat),
            old(self).handle is Some && has_nul(path) ==> r == Err::<(), Error>(
                Error::CStringCreationError,
            ) && *final(plat) == *old(plat),
            old(self).handle is Some && !has_nul(path) ==> {
                &&& (r is Ok <==> (exists|i: int|
                    0 <= i < old(plat).images.len() && (#[trigger] old(plat).images[i]).0@ == path@)
                    && old(plat).conn_ok(old(self).handle->Some_0))
                &&& (r is Err ==> r == Err::<(), Error>(Error::XclbinFileAllocError) || r == Err::<
                    (),
                    Error,
                >(Error::XclbinLoadError))
            },
            r is Ok ==> {
                &&& final(self).handle == old(self).handle
                &&& final(self).kernels@ =~= old(self).kernels@
                &&& final(self).xclbin_handle matches Some(b)
                &&& final(plat).bitstream_ok(b)
                &&& final(self).xclbin_uuid == Some(final(plat).bitstream_image(b).uuid)
                &&& old(plat).images[final(plat).bitstreams@[b - 1].image as int].0@ == path@
                &&& final(self).ready_spec()
                &&& final(plat).connections@[old(self).handle->Some_0 - 1].loaded == Some(b)
            },
            r is Err ==> (forall|b: u64|
                #[trigger] final(plat).bitstream_ok(b) ==> old(plat).bitstream_ok(b)),
            final(plat).num_devices == old(plat).num_devices,
            final(plat).images@ =~= old(plat).images@,
            final(plat).kernels@ =~= old(plat).kernels@,
            final(plat).buffers@ =~= old(plat).buffers@,
            final(plat).runs@ =~= old(plat).runs@,
            final(plat).connections@.len() == old(plat).connections@.len(),
            old(self).handle is None ==> final(plat).connections@ =~= old(plat).connections@,
            old(self).handle matches Some(c) ==> {
                &&& crate::platform::same_except(
                    old(plat).connections@,
                    final(plat).connections@,
                    c - 1,
                )
                &&& (1 <= c <= old(plat).connections@.len() ==> final(plat).connections@[c
                    - 1].alive == old(plat).connections@[c - 1].alive)
                &&& (r is Err ==> final(plat).connections@ =~= old(plat).connections@)
            },
            final(plat).bitstreams@.len() >= old(plat).bitstreams@.len(),
            final(plat).bitstreams@.subrange(0, old(plat).bitstreams@.len() as int) =~= old(
                plat,
            ).bitstreams@,
    {
        if self.handle.is_none() {
            return Err(Error::UnopenedDeviceError);
        }
        if str_has_nul(path) {
            return Err(Error::CStringCreationError);
        }
        let handle = self.handle.unwrap();
        let xclbin_handle = plat.xclbin_alloc(path);
        if xclbin_handle == 0 {
            return Err(Error::XclbinFileAllocError);
        }
        if plat.device_load_xclbin(handle, xclbin_handle) != 0 {
            // A resource acquired during a failed multi-step construction
            // is released before the error is returned.
            let ghost pre_free = *plat;
            let _ = plat.xclbin_free(xclbin_handle);
            proof {
                assert forall|b: u64| #[trigger] plat.bitstream_ok(b) implies old(
                    plat,
                ).bitstream_ok(b) by {
                    if b != xclbin_handle {
                        assert(plat.bitstreams@[b - 1] == pre_free.bitstreams@[b - 1]);
                    }
                }
                assert(plat.bitstreams@.subrange(0, old(plat).bitstreams@.len() as int)
                    =~= old(plat).bitstreams@);
            }
            return Err(Error::XclbinLoadError);
        }
        let uuid = match plat.xclbin_get_uuid(xclbin_handle) {
            Some(u) => u,
            None => {
                // Unreachable on this platform model (the bitstream was
                // just allocated), but the identity is only trusted when
                // the platform hands it out; a failure here must free the
                // bitstream so the device stays exactly as it was.
                let ghost pre_free = *plat;
                let _ = plat.xclbin_free(xclbin_handle);
                proof {
                    assert forall|b: u64| #[trigger] plat.bitstream_ok(b) implies old(
                        plat,
                    ).bitstream_ok(b) by {
                        if b != xclbin_handle {
                            assert(plat.bitstreams@[b - 1] == pre_free.bitstreams@[b - 1]);
                        }
                    }
                    assert(plat.bitstreams@.subrange(0, old(plat).bitstreams@.len() as int)
                        =~= old(plat).bitstreams@);
                }
                return Err(Error::XclbinUUIDRetrievalError);
            },
        };
        self.xclbin_handle = Some(xclbin_handle);
        self.xclbin_uuid = Some(uuid);
        Ok(())
    }

    /// Builder form of `load_xclbin`.
    pub fn with_xclbin(self, path: &str, plat: &mut Platform) -> (r: Result<XRTDevice, Error>)
        requires
            old(plat).wf(),
            self.wf(),
        ensures
            final(plat).wf(),
            self.handle is None ==> r == Err::<XRTDevice, Error>(Error::UnopenedDeviceError)
                && *final(plat) == *old(plat),
            self.handle is Some && has_nul(path) ==> r == Err::<XRTDevice, Error>(
                Error::CStringCreationError,
            ) && *final(plat) == *old(plat),
            self.handle is Some && !has_nul(path) ==> {
                &&& (r is Ok <==> (exists|i: int|
                    0 <= i < old(plat).images.len() && (#[trigger] old(plat).images[i]).0@ == path@)
                    && old(plat).conn_ok(self.handle->Some_0))
                &&& (r is Err ==> r == Err::<XRTDevice, Error>(Error::XclbinFileAllocError) || r
                    == Err::<XRTDevice, Error>(Error::XclbinLoadError))
            },
            r matches Ok(d) ==> {
                &&& d.wf()
                &&& d.ready_spec()
                &&& d.handle == self.handle
                &&& d.kernels@ =~= self.kernels@
                &&& d.xclbin_handle matches Some(b)
                &&& final(plat).bitstream_ok(b)
                &&& d.xclbin_uuid == Some(final(plat).bitstream_image(b).uuid)
                &&& old(plat).images[final(plat).bitstreams@[b - 1].image as int].0@ == path@
                &&& final(plat).connections@[self.handle->Some_0 - 1].loaded == Some(b)
            },
            r is Err ==> (forall|b: u64|
                #[trigger] final(plat).bitstream_ok(b) ==> old(plat).bitstream_ok(b)),
            final(plat).num_devices == old(plat).num_devices,
            final(plat).images@ =~= old(plat).images@,
            final(plat).kernels@ =~= old(plat).kernels@,
            final(plat).buffers@ =~= old(plat).buffers@,
            final(plat).runs@ =~= old(plat).runs@,
            final(plat).connections@.len() == old(plat).connections@.len(),
            final(plat).bitstreams@.len() >= old(plat).bitstreams@.len(),
            final(plat).bitstreams@.subrange(0, old(plat).bitstreams@.len() as int) =~= old(
                plat,
            ).bitstreams@,
    {
        let mut d = self;
        match d.load_xclbin(path, plat) {
            Ok(()) => Ok(d),
            Err(e) => Err(e),
        }
    }

    /// Builder form of kernel loading by name: opens the kernel (with an
    /// empty argument map) unless one of that name is already held, in
    /// which case the call changes nothing.
    pub fn with_kernel(self, name: &str, plat: &mut Platform) -> (r: Result<XRTDevice, Error>)
        requires
            old(plat).wf(),
            self.wf(),
        ensures
            final(plat).wf(),
            kernels_has(self.kernels@, name@) ==> r == Ok::<XRTDevice, Error>(self) && *final(plat)
                == *old(plat),
            !kernels_has(self.kernels@, name@) ==> {
                &&& (!self.ready_spec() ==> r == Err::<XRTDevice, Error>(
                    Error::DeviceNotReadyError,
                ) && *final(plat) == *old(plat))
                &&& (self.ready_spec() && has_nul(name) ==> r == Err::<XRTDevice, Error>(
                    Error::CStringCreationError,
                ) && *final(plat) == *old(plat))
                &&& (self.ready_spec() && !has_nul(name) && !old(plat).kernel_openable(
                    self.handle->Some_0,
                    self.xclbin_uuid->Some_0,
                    name@,
                ) ==> r == Err::<XRTDevice, Error>(Error::KernelCreationError) && *final(plat)
                    == *old(plat))
                &&& (self.ready_spec() && !has_nul(name) && old(plat).kernel_openable(
                    self.handle->Some_0,
                    self.xclbin_uuid->Some_0,
                    name@,
                ) ==> (r matches Ok(d) && {
                    &&& d.wf()
                    &&& d.handle == self.handle
                    &&& d.xclbin_handle == self.xclbin_handle
                    &&& d.xclbin_uuid == self.xclbin_uuid
                    &&& d.kernels@.len() == self.kernels@.len() + 1
                    &&& d.kernels@.subrange(0, self.kernels@.len() as int) =~= self.kernels@
                    &&& kernels_has(d.kernels@, name@)
                    &&& kernels_at(d.kernels@, name@).handle matches Some(kh)
                    &&& final(plat).kernel_ok(kh)
                    &&& final(plat).kernel_def(kh).name@ == name@
                    &&& kernels_at(d.kernels@, name@).argument_mapping@.len() == 0
                }))
            },
            r is Err ==> *final(plat) == *old(plat),
            final(plat).num_devices == old(plat).num_devices,
            final(plat).images@ =~= old(plat).images@,
            final(plat).connections@ =~= old(plat).connections@,
            final(plat).bitstreams@ =~= old(plat).bitstreams@,
            final(plat).buffers@ =~= old(plat).buffers@,
            final(plat).runs@ =~= old(plat).runs@,
    {
        let mut d = self;
        if d.find_kernel(name).is_none() {
            let kernel = match XRTKernel::new(name, &d, plat) {
                Ok(k) => k,
                Err(e) => {
                    return Err(e);
                },
            };
            let ghost pre_tbl = d.kernels@;
            let owned = name.to_owned();
            d.kernels.push((owned, kernel));
            proof {
                lemma_kernels_push(pre_tbl, d.kernels@, name@, kernel);
            }
        }
        Ok(d)
    }

    /// The position of the named kernel in this device's table.
    fn find_kernel(&self, name: &str) -> (r: Option<usize>)
        requires
            distinct_kernel_names(self.kernels@),
        ensures
            r is Some <==> kernels_has(self.kernels@, name@),
            r matches Some(i) ==> i < self.kernels@.len() && (self.kernels@[i as int]).0@ == name@
                && (self.kernels@[i as int]).1 == kernels_at(self.kernels@, name@),
            r is None ==> forall|i: int|
                0 <= i < self.kernels@.len() ==> (#[trigger] self.kernels@[i]).0@ != name@,
    {
        let mut i: usize = 0;
        while i < self.kernels.len()
            invariant
                distinct_kernel_names(self.kernels@),
                i <= self.kernels@.len(),
                forall|j: int| 0 <= j < i ==> (#[trigger] self.kernels@[j]).0@ != name@,
            decreases self.kernels@.len() - i,
        {
            if crate::platform::str_eq(self.kernels[i].0.as_str(), name) {
                proof {
                    assert((self.kernels@[i as int]).0@ == name@);
                    let w = choose|k: int|
                        0 <= k < self.kernels@.len() && (#[trigger] self.kernels@[k]).0@ == name@;
                    assert((self.kernels@[w]).0@ == name@);
                    if w != i as int {
                        if w < i as int {
                            assert((self.kernels@[w]).0@ != (self.kernels@[i as int]).0@);
                        } else {
                            assert((self.kernels@[i as int]).0@ != (self.kernels@[w]).0@);
                        }
                    }
                }
                return Some(i);
            }
            i = i + 1;
        }
        None
    }

    /// The named kernel, if this device holds one.
    pub fn kernel(&self, name: &str) -> (r: Result<&XRTKernel, Error>)
        requires
            self.wf(),
        ensures
            r is Ok <==> kernels_has(self.kernels@, name@),
            r is Err ==> r == Err::<&XRTKernel, Error>(Error::KernelNotLoadedYetError),
            r matches Ok(k) ==> *k == kernels_at(self.kernels@, name@),
    {
        match self.find_kernel(name) {
            Some(i) => Ok(&self.kernels[i].1),
            None => Err(Error::KernelNotLoadedYetError),
        }
    }

    /// Opens the named kernel and resolves a caller-supplied argument map:
    /// for each slot still needing a buffer, queries the accelerator for
    /// the slot's memory group (`InvalidGroupIDError` when there is none)
    /// and allocates a zero-filled buffer of the requested size in it, so
    /// that the kernel this device then holds has no unresolved entry.
    pub fn load_kernel(
        &mut self,
        name: &str,
        initial_argument_mapping: Vec<(u32, ArgumentType)>,
        plat: &mut Platform,
    ) -> (r: Result<(), Error>)
        requires
            old(plat).wf(),
            old(self).wf(),
            distinct_slots(initial_argument_mapping@),
        ensures
            final(plat).wf(),
            final(self).wf(),
            r is Err ==> {
                &&& final(self).kernels@ =~= old(self).kernels@
                &&& final(self).handle == old(self).handle
                &&& final(self).xclbin_handle == old(self).xclbin_handle
                &&& final(self).xclbin_uuid == old(self).xclbin_uuid
            },
            has_nul(name) ==> r == Err::<(), Error>(Error::CStringCreationError) && *final(plat)
                == *old(plat),
            !has_nul(name) && old(self).xclbin_handle is None ==> r == Err::<(), Error>(
                Error::XclbinNotLoadedError,
            ) && *final(plat) == *old(plat),
            !has_nul(name) && old(self).xclbin_handle is Some && !old(plat).kernel_openable(
                old(self).handle->Some_0,
                old(self).xclbin_uuid->Some_0,
                name@,
            ) ==> r == Err::<(), Error>(Error::KernelCreationError) && *final(plat) == *old(plat),
            !has_nul(name) && old(self).xclbin_handle is Some && old(plat).kernel_openable(
                old(self).handle->Some_0,
                old(self).xclbin_uuid->Some_0,
                name@,
            ) ==> {
                let kh = (old(plat).kernels@.len() + 1) as u64;
                let kd = final(plat).kernel_def(kh);
                &&& final(plat).kernel_ok(kh)
                &&& kd.name@ == name@
                &&& (r is Ok <==> forall|j: int|
                    0 <= j < initial_argument_mapping@.len() ==> ((
                    #[trigger] initial_argument_mapping@[j]).1 is NotRealizedBuffer ==> {
                        let slot = initial_argument_mapping@[j].0;
                        slot < kd.args.len() && kd.args[slot as int] is MemoryArg
                    }))
                &&& (r is Err ==> r == Err::<(), Error>(Error::InvalidGroupIDError))
                &&& (r is Ok ==> {
                    let knl = kernels_at(final(self).kernels@, name@);
                    let m = knl.argument_mapping@;
                    &&& kernels_has(final(self).kernels@, name@)
                    &&& knl.handle == Some(kh)
                    &&& m.len() == initial_argument_mapping@.len()
                    &&& (forall|j: int|
                        0 <= j < m.len() ==> (#[trigger] m[j]).0 == initial_argument_mapping@[j].0)
                    &&& (forall|j: int|
                        0 <= j < m.len() ==> (!(initial_argument_mapping@[j].1
                            is NotRealizedBuffer) ==> (#[trigger] m[j]).1
                            == initial_argument_mapping@[j].1))
                    &&& (forall|j: int|
                        0 <= j < m.len() ==> (initial_argument_mapping@[j].1
                            matches ArgumentType::NotRealizedBuffer(sz, md) ==> ((
                        #[trigger] m[j]).1 matches ArgumentType::Buffer(bh, md2) && md2 == md
                            && final(plat).buffer_ok(bh) && final(plat).buffers@[bh
                            - 1].host@.len() == sz && final(plat).buffers@[bh - 1].dev@.len() == sz
                            && final(plat).buffers@[bh - 1].group == crate::platform::group_of(
                            kd.args[initial_argument_mapping@[j].0 as int],
                        ))))
                    &&& mapping_resolved(m)
                    &&& (forall|other: Seq<char>|
                        other != name@ ==> #[trigger] kernels_has(final(self).kernels@, other)
                            == kernels_has(old(self).kernels@, other))
                    &&& (forall|other: Seq<char>|
                        other != name@ && kernels_has(old(self).kernels@, other)
                            ==> #[trigger] kernels_at(final(self).kernels@, other) == kernels_at(
                            old(self).kernels@,
                            other,
                        ))
                    &&& final(self).handle == old(self).handle
                    &&& final(self).xclbin_handle == old(self).xclbin_handle
                    &&& final(self).xclbin_uuid == old(self).xclbin_uuid
                })
            },
            final(plat).num_devices == old(plat).num_devices,
            final(plat).images@ =~= old(plat).images@,
            final(plat).connections@ =~= old(plat).connections@,
            final(plat).bitstreams@ =~= old(plat).bitstreams@,
            final(plat).runs@ =~= old(plat).runs@,
            final(plat).buffers@.len() >= old(plat).buffers@.len(),
            final(plat).buffers@.subrange(0, old(plat).buffers@.len() as int) =~= old(
                plat,
            ).buffers@,
    {
        if str_has_nul(name) {
            return Err(Error::CStringCreationError);
        }
        if self.xclbin_handle.is_none() {
            return Err(Error::XclbinNotLoadedError);
        }
        let uuid = match self.xclbin_uuid {
            Some(u) => u,
            None => {
                // Unreachable: identity is stored together with the
                // bitstream handle.
                return Err(Error::XclbinUUIDRetrievalError);
            },
        };
        let conn = self.handle.unwrap();
        let kernel_handle = plat.kernel_open(conn, uuid, name);
        if kernel_handle == 0 {
            return Err(Error::KernelCreationError);
        }
        let mut argument_mapping: Vec<(u32, ArgumentType)> = Vec::new();
        let n = initial_argument_mapping.len();
        let mut j: usize = 0;
        while j < n
            invariant
                *self == *old(self),
                old(self).wf(),
                plat.wf(),
                j <= n,
                n == initial_argument_mapping@.len(),
                distinct_slots(initial_argument_mapping@),
                !has_nul(name),
                old(self).xclbin_handle is Some,
                conn == old(self).handle->Some_0,
                uuid == old(self).xclbin_uuid->Some_0,
                old(plat).kernel_openable(conn, uuid, name@),
                kernel_handle == old(plat).kernels@.len() + 1,
                plat.kernel_ok(kernel_handle),
                plat.kernels@.len() == old(plat).kernels@.len() + 1,
                plat.kernels@.subrange(0, old(plat).kernels@.len() as int) =~= old(plat).kernels@,
                plat.kernel_def(kernel_handle).name@ == name@,
                plat.images@ =~= old(plat).images@,
                plat.connections@ =~= old(plat).connections@,
                plat.bitstreams@ =~= old(plat).bitstreams@,
                plat.runs@ =~= old(plat).runs@,
                plat.num_devices == old(plat).num_devices,
                plat.buffers@.len() >= old(plat).buffers@.len(),
                plat.buffers@.subrange(0, old(plat).buffers@.len() as int) =~= old(plat).buffers@,
                plat.conn_ok(conn),
                argument_mapping@.len() == j,
                forall|k: int|
                    0 <= k < j ==> (#[trigger] argument_mapping@[k]).0
                        == initial_argument_mapping@[k].0,
                forall|k: int|
                    0 <= k < j ==> (!(initial_argument_mapping@[k].1 is NotRealizedBuffer) ==> (
                    #[trigger] argument_mapping@[k]).1 == initial_argument_mapping@[k].1),
                forall|k: int|
                    0 <= k < j ==> (initial_argument_mapping@[k].1
                        matches ArgumentType::NotRealizedBuffer(sz, md) ==> ((
                    #[trigger] argument_mapping@[k]).1 matches ArgumentType::Buffer(bh, md2) && md2
                        == md && plat.buffer_ok(bh) && plat.buffers@[bh - 1].host@.len() == sz
                        && plat.buffers@[bh - 1].dev@.len() == sz && plat.buffers@[bh - 1].group
                        == crate::platform::group_of(
                        plat.kernel_def(kernel_handle).args[(initial_argument_mapping@[k].0) as int],
                    ))),
                forall|k: int|
                    0 <= k < j ==> ((#[trigger] initial_argument_mapping@[k]).1
                        is NotRealizedBuffer ==> {
                        let slot = initial_argument_mapping@[k].0;
                        slot < plat.kernel_def(kernel_handle).args.len() && plat.kernel_def(
                            kernel_handle,
                        ).args[slot as int] is MemoryArg
                    }),
            decreases n - j,
        {
            let (slot, at) = initial_argument_mapping[j];
            if let ArgumentType::NotRealizedBuffer(required_size, mode) = at {
                if slot > 0x7fffffff {
                    proof {
                        assert(plat.kernel_def(kernel_handle).args.len() <= 0x7fffffff);
                    }
                    return Err(Error::InvalidGroupIDError);
                }
                let group_id = plat.kernel_arg_group(kernel_handle, slot as i32);
                if group_id < 0 {
                    return Err(Error::InvalidGroupIDError);
                }
                let bo_handle = plat.bo_alloc(
                    conn,
                    required_size as usize,
                    crate::platform::XCL_BO_FLAGS_NONE,
                    group_id as u32,
                );
                if bo_handle == 0 {
                    // Unreachable: the connection that just opened the
                    // kernel is live. Kept so that a rejected allocation is
                    // still mapped, never ignored.
                    return Err(Error::FailedBOAllocError);
                }
                argument_mapping.push((slot, ArgumentType::Buffer(bo_handle, mode)));
            } else {
                argument_mapping.push((slot, at));
            }
            j = j + 1;
        }
        proof {
            assert(mapping_resolved(argument_mapping@));
        }
        let xrtkernel = match XRTKernel::from_parts(kernel_handle, argument_mapping) {
            Ok(k) => k,
            Err(e) => {
                return Err(e);
            },
        };
        let ghost gk = xrtkernel;
        let ghost pre_tbl = self.kernels@;
        let owned = name.to_owned();
        let pos = self.find_kernel(name);
        match pos {
            Some(i) => {
                self.kernels.remove(i);
                self.kernels.insert(i, (owned, xrtkernel));
                proof {
                    assert(forall|x: int|
                        0 <= x < pre_tbl.len() && x != i ==> self.kernels@[x] == pre_tbl[x]);
                    lemma_kernels_update(pre_tbl, self.kernels@, i as int, name@, gk);
                }
            },
            None => {
                self.kernels.push((owned, xrtkernel));
                proof {
                    lemma_kernels_push(pre_tbl, self.kernels@, name@, gk);
                }
            },
        }
        Ok(())
    }

    /// Releases every kernel this device holds (each releasing its own
    /// buffers), then the bitstream, then the connection, each exactly
    /// once and only if it was acquired. Once everything is released,
    /// calling again does nothing.
    pub fn close(&mut self, plat: &mut Platform)
        requires
            old(plat).wf(),
        ensures
            final(plat).wf(),
            final(self).handle is None,
            final(self).xclbin_handle is None,
            final(self).xclbin_uuid is None,
            final(self).kernels@.len() == 0,
            final(self).wf(),
            old(self).handle is None && old(self).xclbin_handle is None && old(self).xclbin_uuid
                is None && old(self).kernels@.len() == 0 ==> *final(plat) == *old(plat),
            final(plat).num_devices == old(plat).num_devices,
            final(plat).images@ =~= old(plat).images@,
            final(plat).runs@ =~= old(plat).runs@,
            final(plat).buffers@.len() == old(plat).buffers@.len(),
            final(plat).kernels@.len() == old(plat).kernels@.len(),
            final(plat).connections@.len() == old(plat).connections@.len(),
            final(plat).bitstreams@.len() == old(plat).bitstreams@.len(),
            old(self).xclbin_handle is None ==> final(plat).bitstreams@ =~= old(plat).bitstreams@,
            old(self).xclbin_handle matches Some(b) ==> {
                &&& crate::platform::same_except(
                    old(plat).bitstreams@,
                    final(plat).bitstreams@,
                    b - 1,
                )
                &&& !final(plat).bitstream_ok(b)
            },
            old(self).handle is None ==> final(plat).connections@ =~= old(plat).connections@,
            old(self).handle matches Some(c) ==> {
                &&& crate::platform::same_except(
                    old(plat).connections@,
                    final(plat).connections@,
                    c - 1,
                )
                &&& !final(plat).conn_ok(c)
            },
            forall|i: int|
                0 <= i < old(self).kernels@.len() ==> {
                    let k = (#[trigger] old(self).kernels@[i]).1;
                    &&& (k.handle matches Some(kh) ==> !final(plat).kernel_ok(kh))
                    &&& (forall|j: int|
                        0 <= j < k.argument_mapping@.len() ==> ((
                        #[trigger] k.argument_mapping@[j]).1 matches ArgumentType::Buffer(bh, m)
                            ==> !final(plat).buffer_ok(bh)))
                },
            forall|b: u64| #[trigger] final(plat).buffer_ok(b) ==> old(plat).buffer_ok(b),
            forall|k: u64| #[trigger] final(plat).kernel_ok(k) ==> old(plat).kernel_ok(k),
    {
        while self.kernels.len() > 0
            invariant
                plat.wf(),
                self.handle == old(self).handle,
                self.xclbin_handle == old(self).xclbin_handle,
                self.xclbin_uuid == old(self).xclbin_uuid,
                plat.num_devices == old(plat).num_devices,
                plat.images@ =~= old(plat).images@,
                plat.connections@ =~= old(plat).connections@,
                plat.bitstreams@ =~= old(plat).bitstreams@,
                plat.runs@ =~= old(plat).runs@,
                plat.buffers@.len() == old(plat).buffers@.len(),
                plat.kernels@.len() == old(plat).kernels@.len(),
                old(self).kernels@.len() == 0 ==> *plat == *old(plat) && self.kernels@.len() == 0,
                self.kernels@.len() <= old(self).kernels@.len(),
                self.kernels@ =~= old(self).kernels@.subrange(0, self.kernels@.len() as int),
                forall|i: int|
                    self.kernels@.len() <= i < old(self).kernels@.len() ==> {
                        let k = (#[trigger] old(self).kernels@[i]).1;
                        &&& (k.handle matches Some(kh) ==> !plat.kernel_ok(kh))
                        &&& (forall|j: int|
                            0 <= j < k.argument_mapping@.len() ==> ((
                            #[trigger] k.argument_mapping@[j]).1 matches ArgumentType::Buffer(
                                bh,
                                m,
                            ) ==> !plat.buffer_ok(bh)))
                    },
                forall|b: u64| #[trigger] plat.buffer_ok(b) ==> old(plat).buffer_ok(b),
                forall|k: u64| #[trigger] plat.kernel_ok(k) ==> old(plat).kernel_ok(k),
            decreases self.kernels@.len(),
        {
            let ghost pre_tbl = self.kernels@;
            if let Some((_, mut k)) = self.kernels.pop() {
                proof {
                    assert(self.kernels@ =~= pre_tbl.drop_last());
                    assert(self.kernels@ =~= old(self).kernels@.subrange(
                        0,
                        pre_tbl.len() - 1,
                    ));
                    assert(k == (old(self).kernels@[pre_tbl.len() - 1]).1);
                }
                k.close(plat);
            }
        }
        let ghost pre_free = *plat;
        if let Some(b) = self.xclbin_handle {
            let _ = plat.xclbin_free(b);
        }
        self.xclbin_handle = None;
        self.xclbin_uuid = None;
        proof {
            assert(plat.buffers@ =~= pre_free.buffers@);
            assert(plat.kernels@ =~= pre_free.kernels@);
            assert forall|b: u64| #[trigger] plat.buffer_ok(b) implies old(plat).buffer_ok(b) by {
                assert(pre_free.buffer_ok(b));
            }
            assert forall|k: u64| #[trigger] plat.kernel_ok(k) implies old(plat).kernel_ok(k) by {
                assert(pre_free.kernel_ok(k));
            }
        }
        let ghost pre_conn = *plat;
        if let Some(c) = self.handle {
            let _ = plat.device_close(c);
            self.handle = None;
        }
        proof {
            assert(plat.buffers@ =~= pre_conn.buffers@);
            assert(plat.kernels@ =~= pre_conn.kernels@);
            assert(plat.bitstreams@ =~= pre_conn.bitstreams@);
            assert forall|b: u64| #[trigger] plat.buffer_ok(b) implies old(plat).buffer_ok(b) by {
                assert(pre_conn.buffer_ok(b));
            }
            assert forall|k: u64| #[trigger] plat.kernel_ok(k) implies old(plat).kernel_ok(k) by {
                assert(pre_conn.kernel_ok(k));
            }
        }
    }

    /// The named kernel, if this device holds one.
    pub fn get_kernel(&self, name: &str) -> (r: Option<&XRTKernel>)
        requires
            self.wf(),
        ensures
            r is Some <==> kernels_has(self.kernels@, name@),
            r matches Some(k) ==> *k == kernels_at(self.kernels@, name@),
    {
        match self.find_kernel(name) {
            Some(i) => Some(&self.kernels[i].1),
            None => None,
        }
    }
}

} // verus!
