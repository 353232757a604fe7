//! An explicit model of the native accelerator boundary.
//!
//! The native runtime is a table of resources behind opaque handles:
//! device connections, bitstream objects, kernel entry points, buffer
//! objects and runs. This module models that boundary as a [`Platform`]
//! value with one method per native call, each with an exact contract.
//! A handle is a positive integer; `0` is the null handle that a failed
//! open or allocation returns. Freed resources keep their slot (marked
//! dead), so a handle is never reused and a double free is a no-op.
//!
//! Kernel execution is modeled too: a loaded bitstream image declares its
//! kernels, each with an argument interface, a behavior and a modeled
//! duration, so that run state polling and waiting with a timeout have
//! exact semantics.

use vstd::prelude::*;
use vstd::arithmetic::power2::pow2;
use vstd::arithmetic::power2::lemma2_to64;
use vstd::arithmetic::mul::lemma_mul_inequality;
use crate::bytecodec::{
    le_of,
    le_val,
    le_read,
    le_write,
    overlay,
    splice,
    extract,
    pow2_u128,
    lemma_le_of_len,
    lemma_pow2_le,
};

verus! {

/// Raw run-state codes as the native boundary reports them.
pub const ERT_CMD_STATE_NEW: u32 = 1;

pub const ERT_CMD_STATE_QUEUED: u32 = 2;

pub const ERT_CMD_STATE_RUNNING: u32 = 3;

pub const ERT_CMD_STATE_COMPLETED: u32 = 4;

pub const ERT_CMD_STATE_ERROR: u32 = 5;

pub const ERT_CMD_STATE_ABORT: u32 = 6;

pub const ERT_CMD_STATE_SUBMITTED: u32 = 7;

pub const ERT_CMD_STATE_TIMEOUT: u32 = 8;

pub const ERT_CMD_STATE_NORESPONSE: u32 = 9;

pub const ERT_CMD_STATE_SKERROR: u32 = 10;

pub const ERT_CMD_STATE_SKCRASHED: u32 = 11;

pub const ERT_CMD_STATE_MAX: u32 = 12;

/// Direction codes for buffer synchronization.
pub const XCL_BO_SYNC_BO_TO_DEVICE: u32 = 0;

pub const XCL_BO_SYNC_BO_FROM_DEVICE: u32 = 1;

/// The default buffer allocation flags.
pub const XCL_BO_FLAGS_NONE: u32 = 0;

/// How a kernel argument slot is passed.
pub enum ArgKind {
    /// The value is passed directly in the command packet.
    Scalar,
    /// The slot takes a buffer object allocated in this memory group.
    MemoryArg { group: u32 },
}

/// What a kernel computes on the device memory bound to its slots.
pub enum KernelBehavior {
    /// Leaves every buffer unchanged.
    Passthrough,
    /// Slots (a, b, out): writes the 4-byte little-endian value of
    /// (a + b) mod 2^32 at the start of the buffer bound to slot 2.
    ScalarAdd,
    /// Slots (count, scale, input, output): for each of the first `count`
    /// elements of `width` bytes, writes (element * scale) mod 2^(8 width)
    /// into the output buffer at the same element position.
    VectorScale { width: u32 },
}

/// One kernel of a bitstream image: its name, argument interface,
/// modeled execution time and behavior.
pub struct KernelImage {
    pub name: String,
    pub args: Vec<ArgKind>,
    pub duration_ms: u32,
    pub behavior: KernelBehavior,
}

/// A loadable bitstream: its 16-byte identity (as one 128-bit word)
/// and the kernels it exposes.
pub struct BitstreamImage {
    pub uuid: u128,
    pub kernels: Vec<KernelImage>,
}

/// A device connection slot.
pub struct Connection {
    pub alive: bool,
    /// Handle of the bitstream object loaded onto this connection, if any.
    pub loaded: Option<u64>,
}

/// A bitstream object slot; `image` indexes the installed images.
pub struct BitstreamEntry {
    pub alive: bool,
    pub image: usize,
}

/// A kernel entry-point slot; indexes an installed image and a kernel in it.
pub struct KernelEntry {
    pub alive: bool,
    pub image: usize,
    pub kernel: usize,
}

/// A buffer object slot: its memory group, host-visible staging bytes and
/// device-visible bytes. The two byte vectors always have the same length,
/// the buffer's fixed size.
pub struct BufferEntry {
    pub alive: bool,
    pub group: u32,
    pub host: Vec<u8>,
    pub dev: Vec<u8>,
}

/// A run slot: the kernel it invokes, one binding per declared argument
/// slot, its raw state code, and the modeled milliseconds left until the
/// invocation completes.
pub struct RunEntry {
    pub alive: bool,
    pub kernel: u64,
    pub args: Vec<Option<u64>>,
    pub state: u32,
    pub remaining_ms: u32,
}

/// The modeled accelerator platform.
pub struct Platform {
    /// Opening an index below this bound succeeds.
    pub num_devices: u32,
    /// The loadable bitstream images, by path.
    pub images: Vec<(String, BitstreamImage)>,
    pub connections: Vec<Connection>,
    pub bitstreams: Vec<BitstreamEntry>,
    pub kernels: Vec<KernelEntry>,
    pub buffers: Vec<BufferEntry>,
    pub runs: Vec<RunEntry>,
}

pub open spec fn kernel_image_wf(k: KernelImage) -> bool {
    &&& k.args.len() <= 0x7fffffff
    &&& forall|a: int|
        0 <= a < k.args.len() ==> (#[trigger] k.args[a] matches ArgKind::MemoryArg { group }
            ==> group <= 0x7fffffff)
    &&& (k.behavior matches KernelBehavior::VectorScale { width } ==> 1 <= width <= 8)
}

pub open spec fn image_wf(img: BitstreamImage) -> bool {
    forall|k: int| 0 <= k < img.kernels.len() ==> kernel_image_wf(#[trigger] img.kernels[k])
}

impl Platform {
    /// A live connection handle.
    pub open spec fn conn_ok(self, h: u64) -> bool {
        1 <= h <= self.connections.len() && self.connections[h - 1].alive
    }

    /// A live bitstream handle.
    pub open spec fn bitstream_ok(self, h: u64) -> bool {
        1 <= h <= self.bitstreams.len() && self.bitstreams[h - 1].alive
    }

    /// A live kernel handle.
    pub open spec fn kernel_ok(self, h: u64) -> bool {
        1 <= h <= self.kernels.len() && self.kernels[h - 1].alive
    }

    /// A live buffer handle.
    pub open spec fn buffer_ok(self, h: u64) -> bool {
        1 <= h <= self.buffers.len() && self.buffers[h - 1].alive
    }

    /// A live run handle.
    pub open spec fn run_ok(self, h: u64) -> bool {
        1 <= h <= self.runs.len() && self.runs[h - 1].alive
    }

    /// The image a bitstream handle denotes.
    pub open spec fn bitstream_image(self, h: u64) -> BitstreamImage
        recommends
            1 <= h <= self.bitstreams.len(),
    {
        self.images[self.bitstreams[h - 1].image as int].1
    }

    /// The kernel definition a kernel handle denotes.
    pub open spec fn kernel_def(self, h: u64) -> KernelImage
        recommends
            1 <= h <= self.kernels.len(),
    {
        let e = self.kernels[h - 1];
        self.images[e.image as int].1.kernels[e.kernel as int]
    }

    /// Structural consistency of the resource tables.
    pub open spec fn wf(self) -> bool {
        &&& forall|i: int|
            0 <= i < self.images.len() ==> image_wf((#[trigger] self.images[i]).1)
        &&& forall|b: int|
            0 <= b < self.bitstreams.len() ==> (#[trigger] self.bitstreams[b]).image
                < self.images.len()
        &&& forall|k: int|
            0 <= k < self.kernels.len() ==> {
                let e = #[trigger] self.kernels[k];
                e.image < self.images.len() && e.kernel < self.images[e.image as int].1.kernels.len()
            }
        &&& forall|c: int|
            0 <= c < self.connections.len() ==> ((#[trigger] self.connections[c]).loaded matches Some(
                b,
            ) ==> 1 <= b <= self.bitstreams.len())
        &&& forall|u: int|
            0 <= u < self.buffers.len() ==> (#[trigger] self.buffers[u]).host.len()
                == self.buffers[u].dev.len()
        &&& forall|r: int|
            0 <= r < self.runs.len() ==> {
                let e = #[trigger] self.runs[r];
                1 <= e.kernel <= self.kernels.len() && e.args.len() == self.kernel_def(
                    e.kernel,
                ).args.len()
            }
    }

    /// A platform with `num_devices` openable device indices and no
    /// installed images or live resources.
    pub fn new(num_devices: u32) -> (r: Platform)
        ensures
            r.wf(),
            r.num_devices == num_devices,
            r.images@ =~= Seq::<(String, BitstreamImage)>::empty(),
            r.connections@ =~= Seq::<Connection>::empty(),
            r.bitstreams@ =~= Seq::<BitstreamEntry>::empty(),
            r.kernels@ =~= Seq::<KernelEntry>::empty(),
            r.buffers@ =~= Seq::<BufferEntry>::empty(),
            r.runs@ =~= Seq::<RunEntry>::empty(),
    {
        Platform {
            num_devices,
            images: Vec::new(),
            connections: Vec::new(),
            bitstreams: Vec::new(),
            kernels: Vec::new(),
            buffers: Vec::new(),
            runs: Vec::new(),
        }
    }

    /// Makes a bitstream image loadable under the given path.
    pub fn install_image(&mut self, path: String, image: BitstreamImage)
        requires
            old(self).wf(),
            image_wf(image),
        ensures
            final(self).wf(),
            final(self).images@ =~= old(self).images@.push((path, image)),
            final(self).num_devices == old(self).num_devices,
            final(self).connections@ =~= old(self).connections@,
            final(self).bitstreams@ =~= old(self).bitstreams@,
            final(self).kernels@ =~= old(self).kernels@,
            final(self).buffers@ =~= old(self).buffers@,
            final(self).runs@ =~= old(self).runs@,
    {
        self.images.push((path, image));
    }

    /// Native `open-connection(index)`: a fresh handle for a valid index,
    /// the null handle otherwise.
    pub fn device_open(&mut self, index: u32) -> (r: u64)
        requires
            old(self).wf(),
        ensures
            final(self).wf(),
            r != 0 <==> index < old(self).num_devices,
            r != 0 ==> {
                &&& final(self).connections@ =~= old(self).connections@.push(
                    Connection { alive: true, loaded: None },
                )
                &&& r == final(self).connections.len()
                &&& final(self).conn_ok(r)
            },
            r == 0 ==> *final(self) == *old(self),
            final(self).num_devices == old(self).num_devices,
            final(self).images@ =~= old(self).images@,
            final(self).bitstreams@ =~= old(self).bitstreams@,
            final(self).kernels@ =~= old(self).kernels@,
            final(self).buffers@ =~= old(self).buffers@,
            final(self).runs@ =~= old(self).runs@,
    {
        if index < self.num_devices {
            self.connections.push(Connection { alive: true, loaded: None });
            self.connections.len() as u64
        } else {
            0
        }
    }

    /// Native `alloc-bitstream-from-path`: a fresh handle when an image is
    /// installed under the path, the null handle otherwise.
    pub fn xclbin_alloc(&mut self, path: &str) -> (r: u64)
        requires
            old(self).wf(),
        ensures
            final(self).wf(),
            r != 0 <==> exists|i: int|
                0 <= i < old(self).images.len() && (#[trigger] old(self).images[i]).0@ == path@,
            r != 0 ==> {
                &&& final(self).bitstreams@.len() == old(self).bitstreams@.len() + 1
                &&& final(self).bitstreams@.subrange(0, old(self).bitstreams@.len() as int)
                    =~= old(self).bitstreams@
                &&& r == final(self).bitstreams.len()
                &&& final(self).bitstream_ok(r)
                &&& final(self).bitstreams@.last().alive
                &&& final(self).bitstreams@.last().image < old(self).images.len()
                &&& old(self).images[final(self).bitstreams@.last().image as int].0@ == path@
            },
            r == 0 ==> *final(self) == *old(self),
            final(self).num_devices == old(self).num_devices,
            final(self).images@ =~= old(self).images@,
            final(self).connections@ =~= old(self).connections@,
            final(self).kernels@ =~= old(self).kernels@,
            final(self).buffers@ =~= old(self).buffers@,
            final(self).runs@ =~= old(self).runs@,
    {
        let mut i: usize = 0;
        while i < self.images.len()
            invariant
                *self == *old(self),
                old(self).wf(),
                i <= self.images.len(),
                forall|j: int| 0 <= j < i ==> (#[trigger] self.images[j]).0@ != path@,
            decreases self.images.len() - i,
        {
            if str_eq(self.images[i].0.as_str(), path) {
                proof {
                    assert((old(self).images[i as int]).0@ == path@);
                }
                self.bitstreams.push(BitstreamEntry { alive: true, image: i });
                return self.bitstreams.len() as u64;
            }
            i = i + 1;
        }
        0
    }

    /// Native `load-bitstream(connection, bitstream)`: records the loaded
    /// bitstream on the connection; `0` on success.
    pub fn device_load_xclbin(&mut self, conn: u64, bs: u64) -> (r: i32)
        requires
            old(self).wf(),
        ensures
            final(self).wf(),
            r == 0 <==> old(self).conn_ok(conn) && old(self).bitstream_ok(bs),
            r == 0 ==> final(self).connections@ =~= old(self).connections@.update(
                conn - 1,
                Connection { alive: true, loaded: Some(bs) },
            ),
            r != 0 ==> *final(self) == *old(self),
            final(self).num_devices == old(self).num_devices,
            final(self).images@ =~= old(self).images@,
            final(self).bitstreams@ =~= old(self).bitstreams@,
            final(self).kernels@ =~= old(self).kernels@,
            final(self).buffers@ =~= old(self).buffers@,
            final(self).runs@ =~= old(self).runs@,
    {
        if 1 <= conn && conn <= self.connections.len() as u64 && 1 <= bs && bs
            <= self.bitstreams.len() as u64 {
            let ci = (conn - 1) as usize;
            let bi = (bs - 1) as usize;
            if self.connections[ci].alive && self.bitstreams[bi].alive {
                let entry = Connection { alive: true, loaded: Some(bs) };
                self.connections.remove(ci);
                self.connections.insert(ci, entry);
                return 0;
            }
        }
        1
    }

    /// Native `get-bitstream-identity`: the image identity for a live
    /// bitstream handle.
    pub fn xclbin_get_uuid(&mut self, bs: u64) -> (r: Option<u128>)
        requires
            old(self).wf(),
        ensures
            *final(self) == *old(self),
            r is Some <==> old(self).bitstream_ok(bs),
            r matches Some(u) ==> u == old(self).bitstream_image(bs).uuid,
    {
        if 1 <= bs && bs <= self.bitstreams.len() as u64 {
            let bi = (bs - 1) as usize;
            if self.bitstreams[bi].alive {
                let idx = self.bitstreams[bi].image;
                return Some(self.images[idx].1.uuid);
            }
        }
        None
    }

    /// Native `alloc-buffer(connection, size, flags, group)`: a fresh
    /// zero-filled buffer of the given size and group; the null handle when
    /// the connection is not live.
    pub fn bo_alloc(&mut self, conn: u64, size: usize, flags: u32, group: u32) -> (r: u64)
        requires
            old(self).wf(),
        ensures
            final(self).wf(),
            r != 0 <==> old(self).conn_ok(conn),
            r != 0 ==> {
                &&& final(self).buffers@.len() == old(self).buffers@.len() + 1
                &&& final(self).buffers@.subrange(0, old(self).buffers@.len() as int) =~= old(
                    self,
                ).buffers@
                &&& r == final(self).buffers.len()
                &&& final(self).buffer_ok(r)
                &&& final(self).buffers@.last().group == group
                &&& final(self).buffers@.last().host@ =~= Seq::new(size as nat, |k: int| 0u8)
                &&& final(self).buffers@.last().dev@ =~= Seq::new(size as nat, |k: int| 0u8)
            },
            r == 0 ==> *final(self) == *old(self),
            final(self).num_devices == old(self).num_devices,
            final(self).images@ =~= old(self).images@,
            final(self).connections@ =~= old(self).connections@,
            final(self).bitstreams@ =~= old(self).bitstreams@,
            final(self).kernels@ =~= old(self).kernels@,
            final(self).runs@ =~= old(self).runs@,
    {
        let _ = flags;
        if 1 <= conn && conn <= self.connections.len() as u64 && self.connections[(conn
            - 1) as usize].alive {
            let host = zero_vec(size);
            let dev = zero_vec(size);
            self.buffers.push(BufferEntry { alive: true, group, host, dev });
            self.buffers.len() as u64
        } else {
            0
        }
    }

    /// Native `buffer-write`: copies `data` into the host staging bytes at
    /// `seek`; `0` on success, nonzero when the handle is dead or the range
    /// does not fit.
    pub fn bo_write(&mut self, buf: u64, data: &Vec<u8>, seek: usize) -> (r: i32)
        requires
            old(self).wf(),
        ensures
            final(self).wf(),
            r == 0 <==> old(self).buffer_ok(buf) && seek + data.len() <= old(self).buffers[buf
                - 1].host.len(),
            r == 0 ==> {
                let e = old(self).buffers[buf - 1];
                let f = final(self).buffers@[buf - 1];
                &&& same_except(old(self).buffers@, final(self).buffers@, buf - 1)
                &&& f.alive == e.alive
                &&& f.group == e.group
                &&& f.dev@ =~= e.dev@
                &&& f.host@ =~= overlay(e.host@, seek as int, data@)
            },
            r != 0 ==> *final(self) == *old(self),
            unchanged_but_buffers(*old(self), *final(self)),
    {
        if 1 <= buf && buf <= self.buffers.len() as u64 {
            let bi = (buf - 1) as usize;
            if self.buffers[bi].alive {
                let blen = self.buffers[bi].host.len();
                if seek <= blen && data.len() <= blen - seek {
                    let mut e = self.buffers.remove(bi);
                    splice(&mut e.host, seek, data);
                    self.buffers.insert(bi, e);
                    return 0;
                }
            }
        }
        1
    }

    /// Native `buffer-read`: the host staging bytes in `[seek, seek + n)`,
    /// or nothing when the handle is dead or the range does not fit.
    pub fn bo_read(&self, buf: u64, n: usize, seek: usize) -> (r: Option<Vec<u8>>)
        requires
            self.wf(),
        ensures
            r is Some <==> self.buffer_ok(buf) && seek + n <= self.buffers[buf - 1].host.len(),
            r matches Some(v) ==> v@ =~= self.buffers[buf - 1].host@.subrange(
                seek as int,
                seek + n,
            ),
    {
        if 1 <= buf && buf <= self.buffers.len() as u64 {
            let bi = (buf - 1) as usize;
            if self.buffers[bi].alive {
                let blen = self.buffers[bi].host.len();
                if seek <= blen && n <= blen - seek {
                    return Some(extract(&self.buffers[bi].host, seek, n));
                }
            }
        }
        None
    }

    /// Native `buffer-sync`: moves the bytes in `[seek, seek + size)`
    /// across the host/device boundary in the given direction; `0` on
    /// success.
    pub fn bo_sync(&mut self, buf: u64, direction: u32, size: usize, seek: usize) -> (r: i32)
        requires
            old(self).wf(),
        ensures
            final(self).wf(),
            r == 0 <==> old(self).buffer_ok(buf) && seek + size <= old(self).buffers[buf
                - 1].host.len() && (direction == XCL_BO_SYNC_BO_TO_DEVICE || direction
                == XCL_BO_SYNC_BO_FROM_DEVICE),
            r == 0 ==> {
                let e = old(self).buffers[buf - 1];
                let f = final(self).buffers@[buf - 1];
                &&& same_except(old(self).buffers@, final(self).buffers@, buf - 1)
                &&& f.alive == e.alive
                &&& f.group == e.group
                &&& (direction == XCL_BO_SYNC_BO_TO_DEVICE ==> f.host@ =~= e.host@ && f.dev@ =~=
                    overlay(e.dev@, seek as int, e.host@.subrange(seek as int, seek + size)))
                &&& (direction == XCL_BO_SYNC_BO_FROM_DEVICE ==> f.dev@ =~= e.dev@ && f.host@ =~=
                    overlay(e.host@, seek as int, e.dev@.subrange(seek as int, seek + size)))
            },
            r != 0 ==> *final(self) == *old(self),
            unchanged_but_buffers(*old(self), *final(self)),
    {
        if (direction == XCL_BO_SYNC_BO_TO_DEVICE || direction == XCL_BO_SYNC_BO_FROM_DEVICE) && 1
            <= buf && buf <= self.buffers.len() as u64 {
            let bi = (buf - 1) as usize;
            if self.buffers[bi].alive {
                let blen = self.buffers[bi].host.len();
                if seek <= blen && size <= blen - seek {
                    let mut e = self.buffers.remove(bi);
                    if direction == XCL_BO_SYNC_BO_TO_DEVICE {
                        let part = extract(&e.host, seek, size);
                        splice(&mut e.dev, seek, &part);
                    } else {
                        let part = extract(&e.dev, seek, size);
                        splice(&mut e.host, seek, &part);
                    }
                    self.buffers.insert(bi, e);
                    return 0;
                }
            }
        }
        1
    }

    /// Native `open-kernel(connection, identity, name)`: a fresh handle when
    /// the connection is live, a live bitstream with that identity is loaded
    /// on it, and the image exposes a kernel of that name.
    pub fn kernel_open(&mut self, conn: u64, uuid: u128, name: &str) -> (r: u64)
        requires
            old(self).wf(),
        ensures
            final(self).wf(),
            r != 0 <==> old(self).kernel_openable(conn, uuid, name@),
            r != 0 ==> {
                &&& final(self).kernels@.len() == old(self).kernels@.len() + 1
                &&& final(self).kernels@.subrange(0, old(self).kernels@.len() as int) =~= old(
                    self,
                ).kernels@
                &&& r == final(self).kernels.len()
                &&& final(self).kernel_ok(r)
                &&& final(self).kernel_def(r).name@ == name@
                &&& final(self).kernel_def(r) == old(self).loaded_image(conn).kernels[
                    final(self).kernels@.last().kernel as int]
            },
            r == 0 ==> *final(self) == *old(self),
            final(self).num_devices == old(self).num_devices,
            final(self).images@ =~= old(self).images@,
            final(self).connections@ =~= old(self).connections@,
            final(self).bitstreams@ =~= old(self).bitstreams@,
            final(self).buffers@ =~= old(self).buffers@,
            final(self).runs@ =~= old(self).runs@,
    {
        if 1 <= conn && conn <= self.connections.len() as u64 && self.connections[(conn
            - 1) as usize].alive {
            if let Some(bs) = self.connections[(conn - 1) as usize].loaded {
                let bi = (bs - 1) as usize;
                if self.bitstreams[bi].alive {
                    let img_idx = self.bitstreams[bi].image;
                    if self.images[img_idx].1.uuid == uuid {
                        let mut k: usize = 0;
                        while k < self.images[img_idx].1.kernels.len()
                            invariant
                                *self == *old(self),
                                old(self).wf(),
                                old(self).conn_ok(conn),
                                old(self).connections[conn - 1].loaded == Some(bs),
                                old(self).bitstream_ok(bs),
                                bi == bs - 1,
                                img_idx == old(self).bitstreams[bs - 1].image,
                                img_idx < self.images.len(),
                                old(self).loaded_image(conn).uuid == uuid,
                                k <= self.images[img_idx as int].1.kernels.len(),
                                forall|j: int|
                                    0 <= j < k ==> (#[trigger] self.images[img_idx as int
                                    ].1.kernels[j]).name@ != name@,
                            decreases self.images[img_idx as int].1.kernels.len() - k,
                        {
                            if str_eq(self.images[img_idx].1.kernels[k].name.as_str(), name) {
                                proof {
                                    assert((old(self).loaded_image(conn).kernels[k as int]).name@
                                        == name@);
                                }
                                self.kernels.push(
                                    KernelEntry { alive: true, image: img_idx, kernel: k },
                                );
                                return self.kernels.len() as u64;
                            }
                            k = k + 1;
                        }
                    }
                }
            }
        }
        0
    }

    /// The image loaded on a connection.
    pub open spec fn loaded_image(self, conn: u64) -> BitstreamImage
        recommends
            self.conn_ok(conn),
            self.connections[conn - 1].loaded is Some,
    {
        self.bitstream_image(self.connections[conn - 1].loaded->Some_0)
    }

    /// The conditions under which opening a kernel succeeds.
    pub open spec fn kernel_openable(self, conn: u64, uuid: u128, name: Seq<char>) -> bool {
        &&& self.conn_ok(conn)
        &&& self.connections[conn - 1].loaded matches Some(bs)
        &&& self.bitstream_ok(self.connections[conn - 1].loaded->Some_0)
        &&& self.loaded_image(conn).uuid == uuid
        &&& exists|j: int|
            0 <= j < self.loaded_image(conn).kernels.len() && (#[trigger] self.loaded_image(
                conn,
            ).kernels[j]).name@ == name
    }

    /// Native `get-argument-group(kernel, slot)`: the memory group for a
    /// buffer-backed slot, negative otherwise.
    pub fn kernel_arg_group(&self, kernel: u64, argno: i32) -> (r: i32)
        requires
            self.wf(),
        ensures
            r >= 0 <==> self.kernel_ok(kernel) && 0 <= argno < self.kernel_def(kernel).args.len()
                && self.kernel_def(kernel).args[argno as int] is MemoryArg,
            r >= 0 ==> (self.kernel_def(kernel).args[argno as int] matches ArgKind::MemoryArg {
                group,
            } && r == group),
    {
        if 1 <= kernel && kernel <= self.kernels.len() as u64 {
            let ki = (kernel - 1) as usize;
            if self.kernels[ki].alive && argno >= 0 {
                let e_image = self.kernels[ki].image;
                let e_kernel = self.kernels[ki].kernel;
                let args = &self.images[e_image].1.kernels[e_kernel].args;
                if (argno as usize) < args.len() {
                    if let ArgKind::MemoryArg { group } = args[argno as usize] {
                        return group as i32;
                    }
                }
            }
        }
        -1
    }

    /// A binding is compatible with its declared slot: any word for a
    /// scalar slot, a live buffer of the declared memory group for a
    /// buffer-backed slot.
    pub open spec fn arg_compatible(self, kind: ArgKind, bits: u64) -> bool {
        match kind {
            ArgKind::Scalar => true,
            ArgKind::MemoryArg { group } => self.buffer_ok(bits) && self.buffers[bits - 1].group
                == group,
        }
    }

    /// Native `open-run(kernel)`: a fresh run with no bindings in state
    /// `New`, or the null handle when the kernel handle is dead.
    pub fn run_open(&mut self, kernel: u64) -> (r: u64)
        requires
            old(self).wf(),
        ensures
            final(self).wf(),
            r != 0 <==> old(self).kernel_ok(kernel),
            r != 0 ==> {
                &&& final(self).runs@ =~= old(self).runs@.push(final(self).runs@.last())
                &&& r == final(self).runs.len()
                &&& final(self).run_ok(r)
                &&& final(self).runs@.last().kernel == kernel
                &&& final(self).runs@.last().args@ =~= Seq::new(
                    old(self).kernel_def(kernel).args.len() as nat,
                    |k: int| None::<u64>,
                )
                &&& final(self).runs@.last().state == ERT_CMD_STATE_NEW
                &&& final(self).runs@.last().remaining_ms == old(self).kernel_def(
                    kernel,
                ).duration_ms
            },
            r == 0 ==> *final(self) == *old(self),
            unchanged_but_runs(*old(self), *final(self)),
    {
        if 1 <= kernel && kernel <= self.kernels.len() as u64 {
            let ki = (kernel - 1) as usize;
            if self.kernels[ki].alive {
                let e_image = self.kernels[ki].image;
                let e_kernel = self.kernels[ki].kernel;
                let argc = self.images[e_image].1.kernels[e_kernel].args.len();
                let duration = self.images[e_image].1.kernels[e_kernel].duration_ms;
                let args = none_vec(argc);
                self.runs.push(
                    RunEntry {
                        alive: true,
                        kernel,
                        args,
                        state: ERT_CMD_STATE_NEW,
                        remaining_ms: duration,
                    },
                );
                return self.runs.len() as u64;
            }
        }
        0
    }

    /// Native `run-set-arg(run, slot, word)`: binds a word to a slot; `0`
    /// on success, nonzero when the run is dead, the slot is out of range,
    /// or the word is not compatible with the declared slot.
    pub fn run_set_arg(&mut self, run: u64, slot: i32, bits: u64) -> (r: i32)
        requires
            old(self).wf(),
        ensures
            final(self).wf(),
            r == 0 <==> old(self).run_ok(run) && 0 <= slot < old(self).runs[run - 1].args.len()
                && old(self).arg_compatible(
                old(self).kernel_def(old(self).runs[run - 1].kernel).args[slot as int],
                bits,
            ),
            r == 0 ==> {
                let e = old(self).runs[run - 1];
                let f = final(self).runs@[run - 1];
                &&& same_except(old(self).runs@, final(self).runs@, run - 1)
                &&& f.alive == e.alive
                &&& f.kernel == e.kernel
                &&& f.state == e.state
                &&& f.remaining_ms == e.remaining_ms
                &&& f.args@ =~= e.args@.update(slot as int, Some(bits))
            },
            r != 0 ==> *final(self) == *old(self),
            unchanged_but_runs(*old(self), *final(self)),
    {
        if 1 <= run && run <= self.runs.len() as u64 && slot >= 0 {
            let ri = (run - 1) as usize;
            if self.runs[ri].alive && (slot as usize) < self.runs[ri].args.len() {
                let kernel = self.runs[ri].kernel;
                let ki = (kernel - 1) as usize;
                let e_image = self.kernels[ki].image;
                let e_kernel = self.kernels[ki].kernel;
                let compatible = match self.images[e_image].1.kernels[e_kernel].args[slot
                    as usize] {
                    ArgKind::Scalar => true,
                    ArgKind::MemoryArg { group } => {
                        1 <= bits && bits <= self.buffers.len() as u64 && self.buffers[(bits
                            - 1) as usize].alive && self.buffers[(bits - 1) as usize].group
                            == group
                    },
                };
                if compatible {
                    let mut e = self.runs.remove(ri);
                    e.args.set(slot as usize, Some(bits));
                    self.runs.insert(ri, e);
                    return 0;
                }
            }
        }
        1
    }

    /// Every slot of the run is bound, and every binding is still
    /// compatible with its declared slot.
    pub open spec fn run_bindings_ok(self, run: u64) -> bool
        recommends
            self.run_ok(run),
    {
        let e = self.runs[run - 1];
        forall|s: int|
            0 <= s < e.args.len() ==> ((#[trigger] e.args[s]) matches Some(b)
                && self.arg_compatible(self.kernel_def(e.kernel).args[s], b))
    }

    /// Native `run-start(run)`: `0` and state `Running` when every slot is
    /// bound compatibly; otherwise nonzero, with the rejection recorded as
    /// state `Error` on a live run.
    pub fn run_start(&mut self, run: u64) -> (r: i32)
        requires
            old(self).wf(),
        ensures
            final(self).wf(),
            r == 0 <==> old(self).run_ok(run) && old(self).run_bindings_ok(run),
            old(self).run_ok(run) ==> {
                let e = old(self).runs[run - 1];
                let f = final(self).runs@[run - 1];
                &&& same_except(old(self).runs@, final(self).runs@, run - 1)
                &&& f.alive == e.alive
                &&& f.kernel == e.kernel
                &&& f.args@ =~= e.args@
                &&& (r == 0 ==> f.state == ERT_CMD_STATE_RUNNING && f.remaining_ms == old(
                    self,
                ).kernel_def(e.kernel).duration_ms)
                &&& (r != 0 ==> f.state == ERT_CMD_STATE_ERROR && f.remaining_ms
                    == e.remaining_ms)
            },
            !old(self).run_ok(run) ==> *final(self) == *old(self),
            unchanged_but_runs(*old(self), *final(self)),
    {
        if 1 <= run && run <= self.runs.len() as u64 {
            let ri = (run - 1) as usize;
            if self.runs[ri].alive {
                let kernel = self.runs[ri].kernel;
                let ki = (kernel - 1) as usize;
                let e_image = self.kernels[ki].image;
                let e_kernel = self.kernels[ki].kernel;
                let all_ok = self.check_bindings(run);
                let duration = self.images[e_image].1.kernels[e_kernel].duration_ms;
                let mut e = self.runs.remove(ri);
                if all_ok {
                    e.state = ERT_CMD_STATE_RUNNING;
                    e.remaining_ms = duration;
                    self.runs.insert(ri, e);
                    return 0;
                } else {
                    e.state = ERT_CMD_STATE_ERROR;
                    self.runs.insert(ri, e);
                    return 1;
                }
            }
        }
        1
    }

    /// Native `close-connection`: marks the connection dead; repeated
    /// release is a no-op. `0` only when the handle was live.
    pub fn device_close(&mut self, conn: u64) -> (r: i32)
        requires
            old(self).wf(),
        ensures
            final(self).wf(),
            r == 0 <==> old(self).conn_ok(conn),
            r == 0 ==> {
                &&& same_except(old(self).connections@, final(self).connections@, conn - 1)
                &&& final(self).connections@[conn - 1].alive == false
                &&& final(self).connections@[conn - 1].loaded == old(self).connections[conn
                    - 1].loaded
            },
            r != 0 ==> *final(self) == *old(self),
            final(self).num_devices == old(self).num_devices,
            final(self).images@ =~= old(self).images@,
            final(self).bitstreams@ =~= old(self).bitstreams@,
            final(self).kernels@ =~= old(self).kernels@,
            final(self).buffers@ =~= old(self).buffers@,
            final(self).runs@ =~= old(self).runs@,
    {
        if 1 <= conn && conn <= self.connections.len() as u64 {
            let ci = (conn - 1) as usize;
            if self.connections[ci].alive {
                let mut e = self.connections.remove(ci);
                e.alive = false;
                self.connections.insert(ci, e);
                return 0;
            }
        }
        1
    }

    /// Native `free-bitstream`: marks the bitstream object dead; repeated
    /// release is a no-op.
    pub fn xclbin_free(&mut self, bs: u64) -> (r: i32)
        requires
            old(self).wf(),
        ensures
            final(self).wf(),
            r == 0 <==> old(self).bitstream_ok(bs),
            r == 0 ==> {
                &&& same_except(old(self).bitstreams@, final(self).bitstreams@, bs - 1)
                &&& final(self).bitstreams@[bs - 1].alive == false
                &&& final(self).bitstreams@[bs - 1].image == old(self).bitstreams[bs - 1].image
            },
            r != 0 ==> *final(self) == *old(self),
            final(self).num_devices == old(self).num_devices,
            final(self).images@ =~= old(self).images@,
            final(self).connections@ =~= old(self).connections@,
            final(self).kernels@ =~= old(self).kernels@,
            final(self).buffers@ =~= old(self).buffers@,
            final(self).runs@ =~= old(self).runs@,
    {
        if 1 <= bs && bs <= self.bitstreams.len() as u64 {
            let bi = (bs - 1) as usize;
            if self.bitstreams[bi].alive {
                let mut e = self.bitstreams.remove(bi);
                e.alive = false;
                self.bitstreams.insert(bi, e);
                return 0;
            }
        }
        1
    }

    /// Native `close-kernel`: marks the kernel entry point dead; repeated
    /// release is a no-op.
    pub fn kernel_close(&mut self, kernel: u64) -> (r: i32)
        requires
            old(self).wf(),
        ensures
            final(self).wf(),
            r == 0 <==> old(self).kernel_ok(kernel),
            r == 0 ==> {
                &&& same_except(old(self).kernels@, final(self).kernels@, kernel - 1)
                &&& final(self).kernels@[kernel - 1].alive == false
                &&& final(self).kernels@[kernel - 1].image == old(self).kernels[kernel - 1].image
                &&& final(self).kernels@[kernel - 1].kernel == old(self).kernels[kernel
                    - 1].kernel
            },
            r != 0 ==> *final(self) == *old(self),
            final(self).num_devices == old(self).num_devices,
            final(self).images@ =~= old(self).images@,
            final(self).connections@ =~= old(self).connections@,
            final(self).bitstreams@ =~= old(self).bitstreams@,
            final(self).buffers@ =~= old(self).buffers@,
            final(self).runs@ =~= old(self).runs@,
    {
        if 1 <= kernel && kernel <= self.kernels.len() as u64 {
            let ki = (kernel - 1) as usize;
            if self.kernels[ki].alive {
                let mut e = self.kernels.remove(ki);
                e.alive = false;
                self.kernels.insert(ki, e);
                return 0;
            }
        }
        1
    }

    /// Native `free-buffer`: marks the buffer object dead; repeated release
    /// is a no-op.
    pub fn bo_free(&mut self, buf: u64) -> (r: i32)
        requires
            old(self).wf(),
        ensures
            final(self).wf(),
            r == 0 <==> old(self).buffer_ok(buf),
            r == 0 ==> {
                &&& same_except(old(self).buffers@, final(self).buffers@, buf - 1)
                &&& final(self).buffers@[buf - 1].alive == false
                &&& final(self).buffers@[buf - 1].group == old(self).buffers[buf - 1].group
                &&& final(self).buffers@[buf - 1].host@ =~= old(self).buffers[buf - 1].host@
                &&& final(self).buffers@[buf - 1].dev@ =~= old(self).buffers[buf - 1].dev@
            },
            r != 0 ==> *final(self) == *old(self),
            unchanged_but_buffers(*old(self), *final(self)),
    {
        if 1 <= buf && buf <= self.buffers.len() as u64 {
            let bi = (buf - 1) as usize;
            if self.buffers[bi].alive {
                let mut e = self.buffers.remove(bi);
                e.alive = false;
                self.buffers.insert(bi, e);
                return 0;
            }
        }
        1
    }

    /// Native `close-run`: marks the run dead; repeated release is a no-op.
    pub fn run_close(&mut self, run: u64) -> (r: i32)
        requires
            old(self).wf(),
        ensures
            final(self).wf(),
            r == 0 <==> old(self).run_ok(run),
            r == 0 ==> {
                &&& same_except(old(self).runs@, final(self).runs@, run - 1)
                &&& final(self).runs@[run - 1].alive == false
            },
            r != 0 ==> *final(self) == *old(self),
            unchanged_but_runs(*old(self), *final(self)),
    {
        if 1 <= run && run <= self.runs.len() as u64 {
            let ri = (run - 1) as usize;
            if self.runs[ri].alive {
                let mut e = self.runs.remove(ri);
                e.alive = false;
                self.runs.insert(ri, e);
                return 0;
            }
        }
        1
    }

    /// Native `run-state(run)`: the raw state code, `0` for a dead handle.
    pub fn run_state(&self, run: u64) -> (r: u32)
        requires
            self.wf(),
        ensures
            self.run_ok(run) ==> r == self.runs[run - 1].state,
            !self.run_ok(run) ==> r == 0,
    {
        if 1 <= run && run <= self.runs.len() as u64 {
            let ri = (run - 1) as usize;
            if self.runs[ri].alive {
                return self.runs[ri].state;
            }
        }
        0
    }
}

/// Everything but the buffer table is unchanged.
pub open spec fn unchanged_but_buffers(a: Platform, b: Platform) -> bool {
    &&& b.num_devices == a.num_devices
    &&& b.images@ =~= a.images@
    &&& b.connections@ =~= a.connections@
    &&& b.bitstreams@ =~= a.bitstreams@
    &&& b.kernels@ =~= a.kernels@
    &&& b.runs@ =~= a.runs@
}

/// Everything but the run table is unchanged.
pub open spec fn unchanged_but_runs(a: Platform, b: Platform) -> bool {
    &&& b.num_devices == a.num_devices
    &&& b.images@ =~= a.images@
    &&& b.connections@ =~= a.connections@
    &&& b.bitstreams@ =~= a.bitstreams@
    &&& b.kernels@ =~= a.kernels@
    &&& b.buffers@ =~= a.buffers@
}

/// Everything but the run and buffer tables is unchanged.
pub open spec fn unchanged_core(a: Platform, b: Platform) -> bool {
    &&& b.num_devices == a.num_devices
    &&& b.images@ =~= a.images@
    &&& b.connections@ =~= a.connections@
    &&& b.bitstreams@ =~= a.bitstreams@
    &&& b.kernels@ =~= a.kernels@
}

/// The run at the handle has the given state and remaining time; its other
/// fields and every other run are unchanged.
pub open spec fn run_updated(
    pre: Seq<RunEntry>,
    post: Seq<RunEntry>,
    run: u64,
    state: u32,
    remaining: u32,
) -> bool {
    let e = pre[run - 1];
    &&& same_except(pre, post, run - 1)
    &&& post[run - 1].alive == e.alive
    &&& post[run - 1].kernel == e.kernel
    &&& post[run - 1].args@ =~= e.args@
    &&& post[run - 1].state == state
    &&& post[run - 1].remaining_ms == remaining
}

/// The buffer at index `i` has `bytes` laid over the start of its device
/// bytes; everything else about the table is unchanged.
pub open spec fn buffer_dev_overwritten(
    pre: Seq<BufferEntry>,
    post: Seq<BufferEntry>,
    i: int,
    bytes: Seq<u8>,
) -> bool {
    &&& same_except(pre, post, i)
    &&& 0 <= i < pre.len()
    &&& post[i].alive == pre[i].alive
    &&& post[i].group == pre[i].group
    &&& post[i].host@ =~= pre[i].host@
    &&& post[i].dev@ =~= overlay(pre[i].dev@, 0, bytes)
}

/// The sum of two argument words, reduced to 32 bits.
pub open spec fn add32(a: u64, b: u64) -> nat {
    ((a + b) as nat) % pow2(32)
}

/// One element scaled, reduced to the element width.
pub open spec fn scale_elem(x: nat, s: nat, w: nat) -> nat {
    (x * s) % pow2(8 * w)
}

/// The `j`-th element of `w` bytes in a byte sequence.
pub open spec fn elem_at(bytes: Seq<u8>, j: nat, w: nat) -> nat {
    le_val(bytes.subrange((j * w) as int, (j * w + w) as int))
}

/// The first `n` elements of `ind`, each scaled by `s`, re-encoded.
pub open spec fn vscale_bytes(ind: Seq<u8>, n: nat, s: nat, w: nat) -> Seq<u8>
    decreases n,
{
    if n == 0 {
        Seq::empty()
    } else {
        vscale_bytes(ind, (n - 1) as nat, s, w) + le_of(
            scale_elem(elem_at(ind, (n - 1) as nat, w), s, w),
            w,
        )
    }
}

pub proof fn lemma_vscale_bytes_len(ind: Seq<u8>, n: nat, s: nat, w: nat)
    ensures
        vscale_bytes(ind, n, s, w).len() == n * w,
    decreases n,
{
    if n > 0 {
        lemma_vscale_bytes_len(ind, (n - 1) as nat, s, w);
        lemma_le_of_len(scale_elem(elem_at(ind, (n - 1) as nat, w), s, w), w);
        assert((n - 1) * w + w == n * w) by (nonlinear_arith);
    } else {
        assert(n * w == 0) by (nonlinear_arith)
            requires
                n == 0,
        ;
    }
}

/// The group of a buffer-backed argument kind.
pub open spec fn group_of(kind: ArgKind) -> u32 {
    match kind {
        ArgKind::Scalar => 0,
        ArgKind::MemoryArg { group } => group,
    }
}

/// The sequences agree everywhere but possibly at index `i`.
pub open spec fn same_except<T>(a: Seq<T>, b: Seq<T>, i: int) -> bool {
    b.len() == a.len() && forall|j: int| 0 <= j < a.len() && j != i ==> a[j] == b[j]
}

impl Platform {
    /// The run can execute: every binding is in place and compatible, and
    /// the bound resources fit what the kernel's behavior touches.
    pub open spec fn run_exec_ok(self, run: u64) -> bool
        recommends
            self.wf(),
            self.run_ok(run),
    {
        let e = self.runs[run - 1];
        let kd = self.kernel_def(e.kernel);
        &&& self.run_bindings_ok(run)
        &&& match kd.behavior {
            KernelBehavior::Passthrough => true,
            KernelBehavior::ScalarAdd => {
                &&& kd.args.len() == 3
                &&& kd.args[0] is Scalar
                &&& kd.args[1] is Scalar
                &&& kd.args[2] is MemoryArg
                &&& self.buffers[e.args[2]->Some_0 - 1].dev.len() >= 4
            },
            KernelBehavior::VectorScale { width } => {
                &&& kd.args.len() == 4
                &&& kd.args[0] is Scalar
                &&& kd.args[1] is Scalar
                &&& kd.args[2] is MemoryArg
                &&& kd.args[3] is MemoryArg
                &&& e.args[0]->Some_0 * width <= self.buffers[e.args[2]->Some_0 - 1].dev.len()
                &&& e.args[0]->Some_0 * width <= self.buffers[e.args[3]->Some_0 - 1].dev.len()
            },
        }
    }

    /// What executing the run does to the buffer table.
    pub open spec fn run_exec_effect(self, post_buffers: Seq<BufferEntry>, run: u64) -> bool
        recommends
            self.wf(),
            self.run_ok(run),
            self.run_exec_ok(run),
    {
        let e = self.runs[run - 1];
        let kd = self.kernel_def(e.kernel);
        match kd.behavior {
            KernelBehavior::Passthrough => post_buffers =~= self.buffers@,
            KernelBehavior::ScalarAdd => {
                let a = e.args[0]->Some_0;
                let b = e.args[1]->Some_0;
                let out = e.args[2]->Some_0;
                buffer_dev_overwritten(self.buffers@, post_buffers, out - 1, le_of(add32(a, b), 4))
            },
            KernelBehavior::VectorScale { width } => {
                let n = e.args[0]->Some_0 as nat;
                let s = e.args[1]->Some_0 as nat;
                let inb = e.args[2]->Some_0;
                let out = e.args[3]->Some_0;
                buffer_dev_overwritten(
                    self.buffers@,
                    post_buffers,
                    out - 1,
                    vscale_bytes(self.buffers[inb - 1].dev@, n, s, width as nat),
                )
            },
        }
    }

    /// Checks every binding of the run.
    fn check_bindings(&self, run: u64) -> (ok: bool)
        requires
            self.wf(),
            self.run_ok(run),
        ensures
            ok == self.run_bindings_ok(run),
    {
        let ri = (run - 1) as usize;
        let kernel = self.runs[ri].kernel;
        let ki = (kernel - 1) as usize;
        let e_image = self.kernels[ki].image;
        let e_kernel = self.kernels[ki].kernel;
        let argc = self.runs[ri].args.len();
        let mut s: usize = 0;
        let mut all_ok: bool = true;
        while s < argc
            invariant
                s <= argc,
                self.wf(),
                self.run_ok(run),
                ri == run - 1,
                argc == self.runs[ri as int].args.len(),
                kernel == self.runs[ri as int].kernel,
                ki == kernel - 1,
                e_image == self.kernels[ki as int].image,
                e_kernel == self.kernels[ki as int].kernel,
                all_ok <==> forall|j: int|
                    0 <= j < s ==> ((#[trigger] self.runs[ri as int].args[j]) matches Some(b)
                        && self.arg_compatible(self.kernel_def(kernel).args[j], b)),
            decreases argc - s,
        {
            let ok_here = match self.runs[ri].args[s] {
                None => false,
                Some(bits) => {
                    match self.images[e_image].1.kernels[e_kernel].args[s] {
                        ArgKind::Scalar => true,
                        ArgKind::MemoryArg { group } => {
                            1 <= bits && bits <= self.buffers.len() as u64 && self.buffers[(bits
                                - 1) as usize].alive && self.buffers[(bits - 1) as usize].group
                                == group
                        },
                    }
                },
            };
            all_ok = all_ok && ok_here;
            s = s + 1;
        }
        all_ok
    }

    /// Checks that the run can execute.
    fn check_exec(&self, run: u64) -> (ok: bool)
        requires
            self.wf(),
            self.run_ok(run),
        ensures
            ok == self.run_exec_ok(run),
    {
        if !self.check_bindings(run) {
            return false;
        }
        let ri = (run - 1) as usize;
        let kernel = self.runs[ri].kernel;
        let ki = (kernel - 1) as usize;
        let e_image = self.kernels[ki].image;
        let e_kernel = self.kernels[ki].kernel;
        let argc = self.runs[ri].args.len();
        match self.images[e_image].1.kernels[e_kernel].behavior {
            KernelBehavior::Passthrough => true,
            KernelBehavior::ScalarAdd => {
                if argc != 3 {
                    return false;
                }
                let kinds_ok = matches!(
                    self.images[e_image].1.kernels[e_kernel].args[0],
                    ArgKind::Scalar,
                ) && matches!(self.images[e_image].1.kernels[e_kernel].args[1], ArgKind::Scalar)
                    && matches!(
                    self.images[e_image].1.kernels[e_kernel].args[2],
                    ArgKind::MemoryArg { .. },
                );
                if !kinds_ok {
                    return false;
                }
                proof {
                    let e = self.runs[ri as int];
                    assert(e.args[2] matches Some(b) && self.arg_compatible(
                        self.kernel_def(kernel).args[2],
                        b,
                    ));
                }
                let out = self.runs[ri].args[2].unwrap();
                self.buffers[(out - 1) as usize].dev.len() >= 4
            },
            KernelBehavior::VectorScale { width } => {
                if argc != 4 {
                    return false;
                }
                let kinds_ok = matches!(
                    self.images[e_image].1.kernels[e_kernel].args[0],
                    ArgKind::Scalar,
                ) && matches!(self.images[e_image].1.kernels[e_kernel].args[1], ArgKind::Scalar)
                    && matches!(
                    self.images[e_image].1.kernels[e_kernel].args[2],
                    ArgKind::MemoryArg { .. },
                ) && matches!(
                    self.images[e_image].1.kernels[e_kernel].args[3],
                    ArgKind::MemoryArg { .. },
                );
                if !kinds_ok {
                    return false;
                }
                proof {
                    let e = self.runs[ri as int];
                    assert(e.args[0] matches Some(b0) && self.arg_compatible(
                        self.kernel_def(kernel).args[0],
                        b0,
                    ));
                    assert(e.args[2] matches Some(b2) && self.arg_compatible(
                        self.kernel_def(kernel).args[2],
                        b2,
                    ));
                    assert(e.args[3] matches Some(b3) && self.arg_compatible(
                        self.kernel_def(kernel).args[3],
                        b3,
                    ));
                }
                let n = self.runs[ri].args[0].unwrap();
                let inh = self.runs[ri].args[2].unwrap();
                let outh = self.runs[ri].args[3].unwrap();
                proof {
                    assert((n as nat) * (width as nat) <= 0xffffffffffffffffu64 * 0xffffffffu32)
                        by (nonlinear_arith)
                        requires
                            n <= 0xffffffffffffffffu64,
                            width <= 0xffffffffu32,
                    ;
                }
                let need = (n as u128) * (width as u128);
                need <= self.buffers[(inh - 1) as usize].dev.len() as u128 && need
                    <= self.buffers[(outh - 1) as usize].dev.len() as u128
            },
        }
    }

    /// Applies the kernel's behavior to the bound device memory.
    fn apply_behavior(&mut self, run: u64)
        requires
            old(self).wf(),
            old(self).run_ok(run),
            old(self).run_exec_ok(run),
        ensures
            final(self).wf(),
            old(self).run_exec_effect(final(self).buffers@, run),
            unchanged_but_buffers(*old(self), *final(self)),
    {
        let ri = (run - 1) as usize;
        let kernel = self.runs[ri].kernel;
        let ki = (kernel - 1) as usize;
        let e_image = self.kernels[ki].image;
        let e_kernel = self.kernels[ki].kernel;
        match self.images[e_image].1.kernels[e_kernel].behavior {
            KernelBehavior::Passthrough => {},
            KernelBehavior::ScalarAdd => {
                proof {
                    let e = self.runs[ri as int];
                    assert(e.args[0] matches Some(b0) && self.arg_compatible(
                        self.kernel_def(kernel).args[0],
                        b0,
                    ));
                    assert(e.args[1] matches Some(b1) && self.arg_compatible(
                        self.kernel_def(kernel).args[1],
                        b1,
                    ));
                    assert(e.args[2] matches Some(b2) && self.arg_compatible(
                        self.kernel_def(kernel).args[2],
                        b2,
                    ));
                    lemma2_to64();
                }
                let a = self.runs[ri].args[0].unwrap();
                let b = self.runs[ri].args[1].unwrap();
                let out = self.runs[ri].args[2].unwrap();
                let y = (((a as u128) + (b as u128)) % 0x1_0000_0000u128) as u64;
                let mut tmp: Vec<u8> = Vec::new();
                le_write(&mut tmp, y, 4);
                proof {
                    lemma_le_of_len(y as nat, 4);
                }
                let oi = (out - 1) as usize;
                let mut e = self.buffers.remove(oi);
                splice(&mut e.dev, 0, &tmp);
                self.buffers.insert(oi, e);
                proof {
                    assert(le_of(y as nat, 4) =~= le_of(
                        add32(a, b),
                        4,
                    ));
                }
            },
            KernelBehavior::VectorScale { width } => {
                proof {
                    let e = self.runs[ri as int];
                    assert(e.args[0] matches Some(b0) && self.arg_compatible(
                        self.kernel_def(kernel).args[0],
                        b0,
                    ));
                    assert(e.args[1] matches Some(b1) && self.arg_compatible(
                        self.kernel_def(kernel).args[1],
                        b1,
                    ));
                    assert(e.args[2] matches Some(b2) && self.arg_compatible(
                        self.kernel_def(kernel).args[2],
                        b2,
                    ));
                    assert(e.args[3] matches Some(b3) && self.arg_compatible(
                        self.kernel_def(kernel).args[3],
                        b3,
                    ));
                    assert(kernel_image_wf(self.kernel_def(kernel)));
                }
                let n64 = self.runs[ri].args[0].unwrap();
                let s = self.runs[ri].args[1].unwrap();
                let inh = self.runs[ri].args[2].unwrap();
                let outh = self.runs[ri].args[3].unwrap();
                let w = width as usize;
                let ii = (inh - 1) as usize;
                let oi = (outh - 1) as usize;
                let ghost ind = self.buffers[ii as int].dev@;
                proof {
                    assert(n64 * width <= self.buffers[ii as int].dev.len());
                    assert(n64 <= n64 * width) by (nonlinear_arith)
                        requires
                            width >= 1,
                    ;
                }
                let n = n64 as usize;
                let m = pow2_u128(8 * w);
                let mut tmp: Vec<u8> = Vec::new();
                let mut i: usize = 0;
                while i < n
                    invariant
                        *self == *old(self),
                        i <= n,
                        self.wf(),
                        self.run_ok(run),
                        self.run_exec_ok(run),
                        ri == run - 1,
                        kernel == self.runs[ri as int].kernel,
                        ki == kernel - 1,
                        e_image == self.kernels[ki as int].image,
                        e_kernel == self.kernels[ki as int].kernel,
                        self.kernel_def(kernel).behavior == (KernelBehavior::VectorScale {
                            width,
                        }),
                        1 <= width <= 8,
                        w == width,
                        self.runs[ri as int].args[0] == Some(n64 as u64),
                        self.runs[ri as int].args[1] == Some(s),
                        self.runs[ri as int].args[2] == Some(inh),
                        self.runs[ri as int].args[3] == Some(outh),
                        n == n64,
                        ii == inh - 1,
                        oi == outh - 1,
                        ii < self.buffers.len(),
                        oi < self.buffers.len(),
                        ind =~= self.buffers[ii as int].dev@,
                        n * w <= self.buffers[ii as int].dev.len(),
                        n * w <= self.buffers[oi as int].dev.len(),
                        m == pow2(8 * w as nat),
                        m > 0,
                        tmp@ =~= vscale_bytes(ind, i as nat, s as nat, w as nat),
                    decreases n - i,
                {
                    proof {
                        lemma_mul_inequality(i + 1, n as int, w as int);
                        lemma_vscale_bytes_len(ind, i as nat, s as nat, w as nat);
                        lemma_mul_inequality(i as int, n as int, w as int);
                        assert((i + 1) * w == i * w + w) by (nonlinear_arith);
                    }
                    let x = le_read(&self.buffers[ii].dev, i * w, w);
                    proof {
                        assert((x as nat) * (s as nat) <= 0xffffffffffffffffu64
                            * 0xffffffffffffffffu64) by (nonlinear_arith)
                            requires
                                x <= 0xffffffffffffffffu64,
                                s <= 0xffffffffffffffffu64,
                        ;
                    }
                    let y128 = ((x as u128) * (s as u128)) % m;
                    proof {
                        lemma_pow2_le(8 * w as nat, 64);
                        lemma2_to64();
                    }
                    let y = y128 as u64;
                    le_write(&mut tmp, y, w);
                    proof {
                        assert(x == elem_at(ind, i as nat, w as nat));
                        assert(y as nat == scale_elem(x as nat, s as nat, w as nat));
                        assert(vscale_bytes(ind, (i + 1) as nat, s as nat, w as nat) =~=
                            vscale_bytes(ind, i as nat, s as nat, w as nat) + le_of(
                            scale_elem(elem_at(ind, i as nat, w as nat), s as nat, w as nat),
                            w as nat,
                        ));
                    }
                    i = i + 1;
                }
                proof {
                    lemma_vscale_bytes_len(ind, n as nat, s as nat, w as nat);
                }
                let mut e = self.buffers.remove(oi);
                splice(&mut e.dev, 0, &tmp);
                self.buffers.insert(oi, e);
            },
        }
    }

    /// Native `run-wait(run, timeout)`: waits for the run. A timeout of `0`
    /// waits until the run reaches a terminal state. A positive timeout
    /// shorter than the modeled time left returns the `Timeout` code and
    /// leaves the run running with that much less time to go. Otherwise the
    /// run executes: its kernel's behavior is applied to the bound device
    /// memory and the run completes, or, when the bindings or bound
    /// resources do not fit the kernel, the run moves to the `Error` state.
    /// On a run that is not running, returns its state unchanged; on a dead
    /// handle, returns `0`.
    pub fn run_wait_for(&mut self, run: u64, timeout_ms: u32) -> (r: u32)
        requires
            old(self).wf(),
        ensures
            final(self).wf(),
            unchanged_core(*old(self), *final(self)),
            !old(self).run_ok(run) ==> r == 0 && *final(self) == *old(self),
            old(self).run_ok(run) && old(self).runs[run - 1].state != ERT_CMD_STATE_RUNNING ==> r
                == old(self).runs[run - 1].state && *final(self) == *old(self),
            old(self).run_ok(run) && old(self).runs[run - 1].state == ERT_CMD_STATE_RUNNING ==> {
                let e = old(self).runs[run - 1];
                &&& (timeout_ms != 0 && timeout_ms < e.remaining_ms ==> {
                    &&& r == ERT_CMD_STATE_TIMEOUT
                    &&& final(self).buffers@ =~= old(self).buffers@
                    &&& run_updated(
                        old(self).runs@,
                        final(self).runs@,
                        run,
                        ERT_CMD_STATE_RUNNING,
                        (e.remaining_ms - timeout_ms) as u32,
                    )
                })
                &&& (timeout_ms == 0 || timeout_ms >= e.remaining_ms ==> {
                    &&& (old(self).run_exec_ok(run) ==> {
                        &&& r == ERT_CMD_STATE_COMPLETED
                        &&& run_updated(
                            old(self).runs@,
                            final(self).runs@,
                            run,
                            ERT_CMD_STATE_COMPLETED,
                            0,
                        )
                        &&& old(self).run_exec_effect(final(self).buffers@, run)
                    })
                    &&& (!old(self).run_exec_ok(run) ==> {
                        &&& r == ERT_CMD_STATE_ERROR
                        &&& run_updated(
                            old(self).runs@,
                            final(self).runs@,
                            run,
                            ERT_CMD_STATE_ERROR,
                            0,
                        )
                        &&& final(self).buffers@ =~= old(self).buffers@
                    })
                })
            },
    {
        if !(1 <= run && run <= self.runs.len() as u64) {
            return 0;
        }
        let ri = (run - 1) as usize;
        if !self.runs[ri].alive {
            return 0;
        }
        let st = self.runs[ri].state;
        if st != ERT_CMD_STATE_RUNNING {
            return st;
        }
        let rem = self.runs[ri].remaining_ms;
        if timeout_ms != 0 && timeout_ms < rem {
            let mut e = self.runs.remove(ri);
            e.remaining_ms = rem - timeout_ms;
            self.runs.insert(ri, e);
            return ERT_CMD_STATE_TIMEOUT;
        }
        let ok = self.check_exec(run);
        if ok {
            self.apply_behavior(run);
            let mut e = self.runs.remove(ri);
            e.state = ERT_CMD_STATE_COMPLETED;
            e.remaining_ms = 0;
            self.runs.insert(ri, e);
            ERT_CMD_STATE_COMPLETED
        } else {
            let mut e = self.runs.remove(ri);
            e.state = ERT_CMD_STATE_ERROR;
            e.remaining_ms = 0;
            self.runs.insert(ri, e);
            ERT_CMD_STATE_ERROR
        }
    }
}

/// Whether a run can execute, and what executing it does, depend only on
/// its bindings and kernel and on the buffer table — not on the run's
/// state or remaining time. This lets a caller who starts a run and then
/// waits reason from the state before the start.
pub proof fn lemma_exec_invariant(a: Platform, b: Platform, h: u64)
    requires
        a.run_ok(h),
        b.run_ok(h),
        b.runs@[h - 1].args@ == a.runs@[h - 1].args@,
        b.runs@[h - 1].kernel == a.runs@[h - 1].kernel,
        b.buffers@ == a.buffers@,
        b.kernels@ == a.kernels@,
        b.images@ == a.images@,
    ensures
        b.run_exec_ok(h) == a.run_exec_ok(h),
        forall|post: Seq<BufferEntry>| #[trigger] b.run_exec_effect(post, h) == a.run_exec_effect(
            post,
            h,
        ),
{
    let ea = a.runs[h - 1];
    let eb = b.runs[h - 1];
    assert(a.kernel_def(ea.kernel) == b.kernel_def(eb.kernel));
    assert forall|s: int| 0 <= s < ea.args.len() implies ((#[trigger] ea.args[s]) matches Some(x)
        && a.arg_compatible(a.kernel_def(ea.kernel).args[s], x)) == ((eb.args[s]) matches Some(y)
        && b.arg_compatible(b.kernel_def(eb.kernel).args[s], y)) by {
        assert(eb.args@[s] == ea.args@[s]);
        if ea.args[s] is Some {
            let x = ea.args[s]->Some_0;
            let kind = a.kernel_def(ea.kernel).args[s];
            assert(a.arg_compatible(kind, x) == b.arg_compatible(kind, x));
        }
    }
    assert(a.run_bindings_ok(h) == b.run_bindings_ok(h));
    assert(b.run_exec_ok(h) == a.run_exec_ok(h));
    assert forall|post: Seq<BufferEntry>| #[trigger] b.run_exec_effect(post, h)
        == a.run_exec_effect(post, h) by {
    }
}

/// A vector of `n` empty bindings.
pub fn none_vec(n: usize) -> (r: Vec<Option<u64>>)
    ensures
        r@ =~= Seq::new(n as nat, |k: int| None::<u64>),
{
    let mut r: Vec<Option<u64>> = Vec::new();
    let mut i: usize = 0;
    while i < n
        invariant
            i <= n,
            r@ =~= Seq::new(i as nat, |k: int| None::<u64>),
        decreases n - i,
    {
        r.push(None);
        proof {
            assert(r@ =~= Seq::new((i + 1) as nat, |k: int| None::<u64>));
        }
        i = i + 1;
    }
    r
}

/// A vector of `n` zero bytes.
pub fn zero_vec(n: usize) -> (r: Vec<u8>)
    ensures
        r@ =~= Seq::new(n as nat, |k: int| 0u8),
{
    let mut r: Vec<u8> = Vec::new();
    let mut i: usize = 0;
    while i < n
        invariant
            i <= n,
            r@ =~= Seq::new(i as nat, |k: int| 0u8),
        decreases n - i,
    {
        r.push(0);
        proof {
            assert(r@ =~= Seq::new((i + 1) as nat, |k: int| 0u8));
        }
        i = i + 1;
    }
    r
}

/// String equality over the view.
pub fn str_eq(a: &str, b: &str) -> (r: bool)
    ensures
        r == (a@ == b@),
{
    let x = a.to_owned();
    let y = b.to_owned();
    x == y
}

} // verus!
