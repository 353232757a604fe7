//! Runs: one invocation instance of a kernel, with its own argument
//! bindings, state polling, and waiting with a timeout.

use vstd::prelude::*;
use crate::buffer::{SyncDirection, XRTBuffer};
use crate::bytecodec::{le_val, overlay};
use crate::device::XRTDevice;
use crate::error::Error;
use crate::kernel::{Argument, ArgumentType, XRTKernel, buffer_handle_of, distinct_slots};
use crate::platform::{
    Platform,
    ERT_CMD_STATE_NEW,
    ERT_CMD_STATE_QUEUED,
    ERT_CMD_STATE_RUNNING,
    ERT_CMD_STATE_COMPLETED,
    ERT_CMD_STATE_ERROR,
    ERT_CMD_STATE_ABORT,
    ERT_CMD_STATE_SUBMITTED,
    ERT_CMD_STATE_TIMEOUT,
    ERT_CMD_STATE_NORESPONSE,
    ERT_CMD_STATE_SKERROR,
    ERT_CMD_STATE_SKCRASHED,
    ERT_CMD_STATE_MAX,
};
use crate::HardwareDatatype;

verus! {

/// Every state a run can report, mapped one-to-one from the raw codes the
/// native boundary uses. A code outside the known set is surfaced verbatim
/// as `InvalidState` and never treated as fatal here.
#[derive(Debug, PartialEq, Eq, Structural)]
pub enum ERTCommandState {
    Completed,
    InvalidState(u32),
    Abort,
    Error,
    Queued,
    Running,
    NoResponse,
    Submitted,
    New,
    Max,
    Timeout,
    SKError,
    SKCrashed,
}

/// The state a raw code denotes.
pub open spec fn state_of_code(value: u32) -> ERTCommandState {
    if value == ERT_CMD_STATE_COMPLETED {
        ERTCommandState::Completed
    } else if value == ERT_CMD_STATE_ABORT {
        ERTCommandState::Abort
    } else if value == ERT_CMD_STATE_ERROR {
        ERTCommandState::Error
    } else if value == ERT_CMD_STATE_QUEUED {
        ERTCommandState::Queued
    } else if value == ERT_CMD_STATE_RUNNING {
        ERTCommandState::Running
    } else if value == ERT_CMD_STATE_NORESPONSE {
        ERTCommandState::NoResponse
    } else if value == ERT_CMD_STATE_SUBMITTED {
        ERTCommandState::Submitted
    } else if value == ERT_CMD_STATE_NEW {
        ERTCommandState::New
    } else if value == ERT_CMD_STATE_MAX {
        ERTCommandState::Max
    } else if value == ERT_CMD_STATE_TIMEOUT {
        ERTCommandState::Timeout
    } else if value == ERT_CMD_STATE_SKCRASHED {
        ERTCommandState::SKCrashed
    } else if value == ERT_CMD_STATE_SKERROR {
        ERTCommandState::SKError
    } else {
        ERTCommandState::InvalidState(value)
    }
}

impl From<u32> for ERTCommandState {
    /// Maps a raw state code to its state.
    fn from(value: u32) -> (r: ERTCommandState) {
        if value == ERT_CMD_STATE_COMPLETED {
            ERTCommandState::Completed
        } else if value == ERT_CMD_STATE_ABORT {
            ERTCommandState::Abort
        } else if value == ERT_CMD_STATE_ERROR {
            ERTCommandState::Error
        } else if value == ERT_CMD_STATE_QUEUED {
            ERTCommandState::Queued
        } else if value == ERT_CMD_STATE_RUNNING {
            ERTCommandState::Running
        } else if value == ERT_CMD_STATE_NORESPONSE {
            ERTCommandState::NoResponse
        } else if value == ERT_CMD_STATE_SUBMITTED {
            ERTCommandState::Submitted
        } else if value == ERT_CMD_STATE_NEW {
            ERTCommandState::New
        } else if value == ERT_CMD_STATE_MAX {
            ERTCommandState::Max
        } else if value == ERT_CMD_STATE_TIMEOUT {
            ERTCommandState::Timeout
        } else if value == ERT_CMD_STATE_SKCRASHED {
            ERTCommandState::SKCrashed
        } else if value == ERT_CMD_STATE_SKERROR {
            ERTCommandState::SKError
        } else {
            ERTCommandState::InvalidState(value)
        }
    }
}

impl vstd::std_specs::convert::FromSpecImpl<u32> for ERTCommandState {
    open spec fn obeys_from_spec() -> bool {
        true
    }

    open spec fn from_spec(value: u32) -> ERTCommandState {
        state_of_code(value)
    }
}

/// A run: its handle (absent once released), the buffers it allocated for
/// its own argument slots, and argument data staged for loading.
pub struct XRTRun {
    pub handle: Option<u64>,
    pub internal_buffers: Vec<(i32, XRTBuffer)>,
    pub argument_data: Vec<(u32, Argument)>,
}

impl XRTRun {
    /// Opens a run on the kernel's entry point. Fails with
    /// `KernelNotLoadedYetError` when the kernel handle is absent, and with
    /// `RunCreationError` when the platform rejects it (released kernel).
    pub fn new(kernel: &XRTKernel, plat: &mut Platform) -> (r: Result<XRTRun, Error>)
        requires
            old(plat).wf(),
        ensures
            final(plat).wf(),
            crate::platform::unchanged_but_runs(*old(plat), *final(plat)),
            kernel.handle is None ==> r == Err::<XRTRun, Error>(Error::KernelNotLoadedYetError)
                && *final(plat) == *old(plat),
            kernel.handle is Some && !old(plat).kernel_ok(kernel.handle->Some_0) ==> r == Err::<
                XRTRun,
                Error,
            >(Error::RunCreationError) && *final(plat) == *old(plat),
            kernel.handle is Some && old(plat).kernel_ok(kernel.handle->Some_0) ==> (r matches Ok(
                run,
            ) && {
                &&& run.handle matches Some(h)
                &&& h == final(plat).runs.len()
                &&& final(plat).run_ok(h)
                &&& final(plat).runs@ =~= old(plat).runs@.push(final(plat).runs@.last())
                &&& final(plat).runs@.last().kernel == kernel.handle->Some_0
                &&& final(plat).runs@.last().state == ERT_CMD_STATE_NEW
                &&& final(plat).runs@.last().args@ =~= Seq::new(
                    old(plat).kernel_def(kernel.handle->Some_0).args.len() as nat,
                    |k: int| None::<u64>,
                )
                &&& run.internal_buffers@.len() == 0
                &&& run.argument_data@.len() == 0
            }),
    {
        if let Some(kernel_handle) = kernel.handle {
            let run_handle = plat.run_open(kernel_handle);
            if run_handle == 0 {
                return Err(Error::RunCreationError);
            }
            Ok(
                XRTRun {
                    handle: Some(run_handle),
                    internal_buffers: Vec::new(),
                    argument_data: Vec::new(),
                },
            )
        } else {
            Err(Error::KernelNotLoadedYetError)
        }
    }

    /// Binds a directly-passed value to a slot. Fails with
    /// `RunNotCreatedYetError` when the run handle is absent; a binding the
    /// platform rejects (dead run, slot out of range, or a slot that takes
    /// a buffer) fails with `RunArgumentSetError`, carrying the slot and
    /// the value's raw bits so the caller can tell which binding failed.
    pub fn set_scalar_argument<T: HardwareDatatype>(
        &mut self,
        index: i32,
        value: T,
        plat: &mut Platform,
    ) -> (r: Result<(), Error>)
        requires
            old(plat).wf(),
        ensures
            final(plat).wf(),
            *final(self) == *old(self),
            crate::platform::unchanged_but_runs(*old(plat), *final(plat)),
            old(self).handle is None ==> r == Err::<(), Error>(Error::RunNotCreatedYetError)
                && *final(plat) == *old(plat),
            old(self).handle matches Some(h) ==> {
                &&& (r is Ok <==> old(plat).run_ok(h) && 0 <= index < old(plat).runs[h
                    - 1].args.len() && old(plat).arg_compatible(
                    old(plat).kernel_def(old(plat).runs[h - 1].kernel).args[index as int],
                    value.as_bits(),
                ))
                &&& (r is Err ==> r == Err::<(), Error>(
                    Error::RunArgumentSetError(index as u32, value.as_bits()),
                ) && final(plat).runs@ =~= old(plat).runs@)
                &&& (r is Ok ==> {
                    &&& crate::platform::same_except(old(plat).runs@, final(plat).runs@, h - 1)
                    &&& final(plat).runs@[h - 1].alive == old(plat).runs[h - 1].alive
                    &&& final(plat).runs@[h - 1].kernel == old(plat).runs[h - 1].kernel
                    &&& final(plat).runs@[h - 1].state == old(plat).runs[h - 1].state
                    &&& final(plat).runs@[h - 1].remaining_ms == old(plat).runs[h - 1].remaining_ms
                    &&& final(plat).runs@[h - 1].args@ =~= old(plat).runs[h - 1].args@.update(
                        index as int,
                        Some(value.as_bits()),
                    )
                })
            },
    {
        if let Some(h) = self.handle {
            let bits = value.to_bits();
            let result = plat.run_set_arg(h, index, bits);
            if result != 0 {
                return Err(Error::RunArgumentSetError(#[verifier::truncate] (index as u32), bits));
            }
            Ok(())
        } else {
            Err(Error::RunNotCreatedYetError)
        }
    }

    /// Binds a raw argument word to a slot: a scalar value, or a buffer
    /// handle for a buffer-backed slot. Fails with `RunNotCreatedYetError`
    /// when the run handle is absent; a rejected binding fails with
    /// `RunArgumentSetError`, carrying the slot and the word.
    pub fn set_argument<T: HardwareDatatype>(
        &mut self,
        argument_number: u32,
        value: T,
        plat: &mut Platform,
    ) -> (r: Result<(), Error>)
        requires
            old(plat).wf(),
        ensures
            final(plat).wf(),
            *final(self) == *old(self),
            crate::platform::unchanged_but_runs(*old(plat), *final(plat)),
            old(self).handle is None ==> r == Err::<(), Error>(Error::RunNotCreatedYetError)
                && *final(plat) == *old(plat),
            old(self).handle matches Some(h) ==> {
                &&& (r is Ok <==> old(plat).run_ok(h) && argument_number < old(plat).runs[h
                    - 1].args.len() && old(plat).arg_compatible(
                    old(plat).kernel_def(old(plat).runs[h - 1].kernel).args[
                        argument_number as int],
                    value.as_bits(),
                ))
                &&& (r is Err ==> r == Err::<(), Error>(
                    Error::RunArgumentSetError(argument_number, value.as_bits()),
                ) && final(plat).runs@ =~= old(plat).runs@)
                &&& (r is Ok ==> {
                    &&& crate::platform::same_except(old(plat).runs@, final(plat).runs@, h - 1)
                    &&& final(plat).runs@[h - 1].alive == old(plat).runs[h - 1].alive
                    &&& final(plat).runs@[h - 1].kernel == old(plat).runs[h - 1].kernel
                    &&& final(plat).runs@[h - 1].state == old(plat).runs[h - 1].state
                    &&& final(plat).runs@[h - 1].remaining_ms == old(plat).runs[h - 1].remaining_ms
                    &&& final(plat).runs@[h - 1].args@ =~= old(plat).runs[h - 1].args@.update(
                        argument_number as int,
                        Some(value.as_bits()),
                    )
                })
            },
    {
        if let Some(h) = self.handle {
            let bits = value.to_bits();
            if argument_number > 0x7fffffff {
                // The native boundary indexes slots with a signed word; no
                // kernel declares this many, so the binding is rejected.
                proof {
                    if plat.run_ok(h) {
                        lemma_argc_bound(*plat, h);
                    }
                }
                return Err(Error::RunArgumentSetError(argument_number, bits));
            }
            let result = plat.run_set_arg(h, argument_number as i32, bits);
            if result != 0 {
                return Err(Error::RunArgumentSetError(argument_number, bits));
            }
            Ok(())
        } else {
            Err(Error::RunNotCreatedYetError)
        }
    }

    /// Binds a buffer's handle to a slot. Fails with
    /// `RunNotCreatedYetError` or `BONotCreatedYet` when either handle is
    /// absent, and with `SetRunArgError` when the platform rejects the
    /// binding (mismatched memory group, dead buffer, slot out of range).
    pub fn set_buffer_argument(
        &mut self,
        index: i32,
        buffer: &XRTBuffer,
        plat: &mut Platform,
    ) -> (r: Result<(), Error>)
        requires
            old(plat).wf(),
        ensures
            final(plat).wf(),
            *final(self) == *old(self),
            crate::platform::unchanged_but_runs(*old(plat), *final(plat)),
            old(self).handle is None ==> r == Err::<(), Error>(Error::RunNotCreatedYetError)
                && *final(plat) == *old(plat),
            old(self).handle is Some && buffer.handle is None ==> r == Err::<(), Error>(
                Error::BONotCreatedYet,
            ) && *final(plat) == *old(plat),
            old(self).handle matches Some(h) ==> (buffer.handle matches Some(bh) ==> {
                &&& (r is Ok <==> old(plat).run_ok(h) && 0 <= index < old(plat).runs[h
                    - 1].args.len() && old(plat).arg_compatible(
                    old(plat).kernel_def(old(plat).runs[h - 1].kernel).args[index as int],
                    bh,
                ))
                &&& (r is Err ==> r == Err::<(), Error>(Error::SetRunArgError) && final(plat).runs@
                    =~= old(plat).runs@)
                &&& (r is Ok ==> {
                    &&& crate::platform::same_except(old(plat).runs@, final(plat).runs@, h - 1)
                    &&& final(plat).runs@[h - 1].alive == old(plat).runs[h - 1].alive
                    &&& final(plat).runs@[h - 1].kernel == old(plat).runs[h - 1].kernel
                    &&& final(plat).runs@[h - 1].state == old(plat).runs[h - 1].state
                    &&& final(plat).runs@[h - 1].remaining_ms == old(plat).runs[h - 1].remaining_ms
                    &&& final(plat).runs@[h - 1].args@ =~= old(plat).runs[h - 1].args@.update(
                        index as int,
                        Some(bh),
                    )
                })
            }),
    {
        if let Some(run_handle) = self.handle {
            if let Some(buffer_handle) = buffer.handle {
                let result = plat.run_set_arg(run_handle, index, buffer_handle);
                if result != 0 {
                    return Err(Error::SetRunArgError);
                }
                Ok(())
            } else {
                Err(Error::BONotCreatedYet)
            }
        } else {
            Err(Error::RunNotCreatedYetError)
        }
    }

    /// The run's current state. Fails with `RunNotCreatedYetError` when
    /// the handle is absent; a handle the platform no longer knows reports
    /// `InvalidState(0)`.
    pub fn get_state(&self, plat: &Platform) -> (r: Result<ERTCommandState, Error>)
        requires
            plat.wf(),
        ensures
            self.handle is None ==> r == Err::<ERTCommandState, Error>(
                Error::RunNotCreatedYetError,
            ),
            self.handle matches Some(h) ==> {
                &&& (plat.run_ok(h) ==> r == Ok::<ERTCommandState, Error>(
                    state_of_code(plat.runs[h - 1].state),
                ))
                &&& (!plat.run_ok(h) ==> r == Ok::<ERTCommandState, Error>(
                    ERTCommandState::InvalidState(0),
                ))
            },
    {
        if let Some(h) = self.handle {
            let code = plat.run_state(h);
            Ok(ERTCommandState::from(code))
        } else {
            Err(Error::RunNotCreatedYetError)
        }
    }

    /// Issues the start. A start the platform rejects (not every slot
    /// bound compatibly) still returns `Ok` with the observed state, which
    /// then carries the failure as `Error`: callers must inspect the
    /// returned state even on the `Ok` path.
    pub fn start(&self, plat: &mut Platform) -> (r: Result<ERTCommandState, Error>)
        requires
            old(plat).wf(),
        ensures
            final(plat).wf(),
            crate::platform::unchanged_but_runs(*old(plat), *final(plat)),
            self.handle is None ==> r == Err::<ERTCommandState, Error>(
                Error::RunNotCreatedYetError,
            ) && *final(plat) == *old(plat),
            self.handle matches Some(h) ==> {
                &&& (!old(plat).run_ok(h) ==> r == Ok::<ERTCommandState, Error>(
                    ERTCommandState::InvalidState(0),
                ) && *final(plat) == *old(plat))
                &&& (old(plat).run_ok(h) && old(plat).run_bindings_ok(h) ==> r == Ok::<
                    ERTCommandState,
                    Error,
                >(ERTCommandState::Running) && crate::platform::run_updated(
                    old(plat).runs@,
                    final(plat).runs@,
                    h,
                    ERT_CMD_STATE_RUNNING,
                    old(plat).kernel_def(old(plat).runs[h - 1].kernel).duration_ms,
                ))
                &&& (old(plat).run_ok(h) && !old(plat).run_bindings_ok(h) ==> r == Ok::<
                    ERTCommandState,
                    Error,
                >(ERTCommandState::Error) && crate::platform::run_updated(
                    old(plat).runs@,
                    final(plat).runs@,
                    h,
                    ERT_CMD_STATE_ERROR,
                    old(plat).runs[h - 1].remaining_ms,
                ))
            },
    {
        if let Some(h) = self.handle {
            let run_res = plat.run_start(h);
            let _ = run_res;
            let code = plat.run_state(h);
            Ok(ERTCommandState::from(code))
        } else {
            Err(Error::RunNotCreatedYetError)
        }
    }

    /// Waits for the run with a timeout in milliseconds; `0` waits until a
    /// terminal state. A timeout shorter than the time the kernel still
    /// needs yields `Timeout` without blocking further; the run stays
    /// running and remains to be closed.
    pub fn wait_for(&self, timeout_ms: u32, plat: &mut Platform) -> (r: Result<
        ERTCommandState,
        Error,
    >)
        requires
            old(plat).wf(),
        ensures
            final(plat).wf(),
            crate::platform::unchanged_core(*old(plat), *final(plat)),
            self.handle is None ==> r == Err::<ERTCommandState, Error>(
                Error::RunNotCreatedYetError,
            ) && *final(plat) == *old(plat),
            self.handle matches Some(h) ==> (r matches Ok(st) && wait_outcome(
                *old(plat),
                *final(plat),
                h,
                timeout_ms,
                st,
            )),
    {
        if let Some(h) = self.handle {
            let code = plat.run_wait_for(h, timeout_ms);
            Ok(ERTCommandState::from(code))
        } else {
            Err(Error::RunNotCreatedYetError)
        }
    }

    /// Waits until the run reaches a terminal state.
    pub fn wait(&self, plat: &mut Platform) -> (r: Result<ERTCommandState, Error>)
        requires
            old(plat).wf(),
        ensures
            final(plat).wf(),
            crate::platform::unchanged_core(*old(plat), *final(plat)),
            self.handle is None ==> r == Err::<ERTCommandState, Error>(
                Error::RunNotCreatedYetError,
            ) && *final(plat) == *old(plat),
            self.handle matches Some(h) ==> (r matches Ok(st) && wait_outcome(
                *old(plat),
                *final(plat),
                h,
                0,
                st,
            )),
    {
        self.wait_for(0, plat)
    }

    /// Starts the run and, when `wait` is set, waits for it with
    /// `timeout_ms` (`0`: until a terminal state). Without waiting,
    /// returns the state observed right after the start.
    pub fn start_run(&mut self, wait: bool, timeout_ms: u32, plat: &mut Platform) -> (r: Result<
        ERTCommandState,
        Error,
    >)
        requires
            old(plat).wf(),
        ensures
            final(plat).wf(),
            *final(self) == *old(self),
            crate::platform::unchanged_core(*old(plat), *final(plat)),
            old(self).handle is None ==> r == Err::<ERTCommandState, Error>(
                Error::RunNotCreatedYetError,
            ) && *final(plat) == *old(plat),
            old(self).handle matches Some(h) ==> {
                let dur = old(plat).kernel_def(old(plat).runs[h - 1].kernel).duration_ms;
                &&& (!old(plat).run_ok(h) ==> r == Ok::<ERTCommandState, Error>(
                    ERTCommandState::InvalidState(0u32),
                ) && *final(plat) == *old(plat))
                &&& (old(plat).run_ok(h) && !old(plat).run_bindings_ok(h) ==> {
                    &&& r == Ok::<ERTCommandState, Error>(ERTCommandState::Error)
                    &&& final(plat).buffers@ =~= old(plat).buffers@
                    &&& crate::platform::run_updated(
                        old(plat).runs@,
                        final(plat).runs@,
                        h,
                        ERT_CMD_STATE_ERROR,
                        old(plat).runs[h - 1].remaining_ms,
                    )
                })
                &&& (old(plat).run_ok(h) && old(plat).run_bindings_ok(h) && !wait ==> {
                    &&& r == Ok::<ERTCommandState, Error>(ERTCommandState::Running)
                    &&& final(plat).buffers@ =~= old(plat).buffers@
                    &&& crate::platform::run_updated(
                        old(plat).runs@,
                        final(plat).runs@,
                        h,
                        ERT_CMD_STATE_RUNNING,
                        dur,
                    )
                })
                &&& (old(plat).run_ok(h) && old(plat).run_bindings_ok(h) && wait ==> {
                    &&& (timeout_ms != 0 && timeout_ms < dur ==> {
                        &&& r == Ok::<ERTCommandState, Error>(ERTCommandState::Timeout)
                        &&& final(plat).buffers@ =~= old(plat).buffers@
                        &&& crate::platform::run_updated(
                            old(plat).runs@,
                            final(plat).runs@,
                            h,
                            ERT_CMD_STATE_RUNNING,
                            (dur - timeout_ms) as u32,
                        )
                    })
                    &&& (timeout_ms == 0 || timeout_ms >= dur ==> {
                        &&& (old(plat).run_exec_ok(h) ==> {
                            &&& r == Ok::<ERTCommandState, Error>(ERTCommandState::Completed)
                            &&& crate::platform::run_updated(
                                old(plat).runs@,
                                final(plat).runs@,
                                h,
                                ERT_CMD_STATE_COMPLETED,
                                0,
                            )
                            &&& old(plat).run_exec_effect(final(plat).buffers@, h)
                        })
                        &&& (!old(plat).run_exec_ok(h) ==> {
                            &&& r == Ok::<ERTCommandState, Error>(ERTCommandState::Error)
                            &&& crate::platform::run_updated(
                                old(plat).runs@,
                                final(plat).runs@,
                                h,
                                ERT_CMD_STATE_ERROR,
                                0,
                            )
                            &&& final(plat).buffers@ =~= old(plat).buffers@
                        })
                    })
                })
            },
    {
        let ghost pre = *plat;
        let started = self.start(plat);
        match started {
            Err(e) => Err(e),
            Ok(state) => {
                if !wait {
                    return Ok(state);
                }
                proof {
                    if self.handle is Some {
                        let h = self.handle->Some_0;
                        if pre.run_ok(h) && pre.run_bindings_ok(h) {
                            crate::platform::lemma_exec_invariant(pre, *plat, h);
                        }
                    }
                }
                self.wait_for(timeout_ms, plat)
            },
        }
    }

    /// Releases the run's resource handle, then every buffer the run
    /// allocated for its own slots, each exactly once. Once released,
    /// calling again does nothing.
    pub fn close(&mut self, plat: &mut Platform)
        requires
            old(plat).wf(),
        ensures
            final(plat).wf(),
            final(self).handle is None,
            final(self).internal_buffers@.len() == 0,
            old(self).handle is None && old(self).internal_buffers@.len() == 0 ==> *final(plat)
                == *old(plat),
            crate::platform::unchanged_core(*old(plat), *final(plat)),
            final(plat).buffers@.len() == old(plat).buffers@.len(),
            final(plat).runs@.len() == old(plat).runs@.len(),
            old(self).handle is None ==> final(plat).runs@ =~= old(plat).runs@,
            old(self).handle matches Some(h) ==> {
                &&& crate::platform::same_except(old(plat).runs@, final(plat).runs@, h - 1)
                &&& !final(plat).run_ok(h)
            },
            forall|i: int|
                0 <= i < old(self).internal_buffers@.len() ==> (((
                #[trigger] old(self).internal_buffers@[i]).1).handle matches Some(bh)
                    ==> !final(plat).buffer_ok(bh)),
            forall|b: u64| #[trigger] final(plat).buffer_ok(b) ==> old(plat).buffer_ok(b),
    {
        if let Some(h) = self.handle {
            let _ = plat.run_close(h);
            self.handle = None;
        }
        while self.internal_buffers.len() > 0
            invariant
                plat.wf(),
                self.handle is None,
                crate::platform::unchanged_core(*old(plat), *plat),
                plat.buffers@.len() == old(plat).buffers@.len(),
                plat.runs@.len() == old(plat).runs@.len(),
                old(self).handle is None && old(self).internal_buffers@.len() == 0 ==> *plat
                    == *old(plat) && self.internal_buffers@.len() == 0,
                old(self).handle is None ==> plat.runs@ =~= old(plat).runs@,
                old(self).handle matches Some(h) ==> {
                    &&& crate::platform::same_except(old(plat).runs@, plat.runs@, h - 1)
                    &&& !plat.run_ok(h)
                },
                self.internal_buffers@.len() <= old(self).internal_buffers@.len(),
                self.internal_buffers@ =~= old(self).internal_buffers@.subrange(
                    0,
                    self.internal_buffers@.len() as int,
                ),
                forall|i: int|
                    self.internal_buffers@.len() <= i < old(self).internal_buffers@.len() ==> (((
                    #[trigger] old(self).internal_buffers@[i]).1).handle matches Some(bh)
                        ==> !plat.buffer_ok(bh)),
                forall|b: u64| #[trigger] plat.buffer_ok(b) ==> old(plat).buffer_ok(b),
            decreases self.internal_buffers@.len(),
        {
            let ghost pre_tbl = self.internal_buffers@;
            if let Some((_, mut b)) = self.internal_buffers.pop() {
                proof {
                    assert(self.internal_buffers@ =~= pre_tbl.drop_last());
                    assert(self.internal_buffers@ =~= old(self).internal_buffers@.subrange(
                        0,
                        pre_tbl.len() - 1,
                    ));
                    assert(b == (old(self).internal_buffers@[pre_tbl.len() - 1]).1);
                }
                b.close(plat);
            }
        }
    }
}

/// The slots of the run's internal buffer table are pairwise distinct.
pub open spec fn distinct_internal(s: Seq<(i32, XRTBuffer)>) -> bool {
    forall|i: int, j: int| 0 <= i < j < s.len() ==> (#[trigger] s[i]).0 != (#[trigger] s[j]).0
}

/// The run holds an internal buffer for the slot.
pub open spec fn has_internal(s: Seq<(i32, XRTBuffer)>, index: i32) -> bool {
    exists|i: int| 0 <= i < s.len() && (#[trigger] s[i]).0 == index
}

/// The internal buffer held for the slot.
pub open spec fn internal_at(s: Seq<(i32, XRTBuffer)>, index: i32) -> XRTBuffer {
    s[choose|i: int| 0 <= i < s.len() && (#[trigger] s[i]).0 == index].1
}

impl XRTRun {
    /// The position of the slot in the internal buffer table.
    fn find_internal(&self, index: i32) -> (r: Option<usize>)
        requires
            distinct_internal(self.internal_buffers@),
        ensures
            r is Some <==> has_internal(self.internal_buffers@, index),
            r matches Some(i) ==> i < self.internal_buffers@.len()
                && (self.internal_buffers@[i as int]).0 == index && (self.internal_buffers@[
                i as int]).1 == internal_at(self.internal_buffers@, index),
    {
        let mut i: usize = 0;
        while i < self.internal_buffers.len()
            invariant
                i <= self.internal_buffers@.len(),
                distinct_internal(self.internal_buffers@),
                forall|j: int| 0 <= j < i ==> (#[trigger] self.internal_buffers@[j]).0 != index,
            decreases self.internal_buffers@.len() - i,
        {
            if self.internal_buffers[i].0 == index {
                proof {
                    let w = choose|k: int|
                        0 <= k < self.internal_buffers@.len() && (#[trigger] self.internal_buffers@[
                        k]).0 == index;
                    assert((self.internal_buffers@[i as int]).0 == index);
                    assert(w == i as int);
                }
                return Some(i);
            }
            i = i + 1;
        }
        None
    }

    /// Records `buffer` as the run's own buffer for the slot, replacing a
    /// previous one.
    fn store_internal(&mut self, index: i32, buffer: XRTBuffer)
        requires
            distinct_internal(old(self).internal_buffers@),
        ensures
            final(self).handle == old(self).handle,
            final(self).argument_data@ =~= old(self).argument_data@,
            distinct_internal(final(self).internal_buffers@),
            has_internal(final(self).internal_buffers@, index),
            internal_at(final(self).internal_buffers@, index) == buffer,
            forall|other: i32|
                other != index ==> #[trigger] has_internal(final(self).internal_buffers@, other)
                    == has_internal(old(self).internal_buffers@, other),
            forall|other: i32|
                other != index && has_internal(old(self).internal_buffers@, other)
                    ==> #[trigger] internal_at(final(self).internal_buffers@, other) == internal_at(
                    old(self).internal_buffers@,
                    other,
                ),
    {
        let pos = self.find_internal(index);
        match pos {
            Some(i) => {
                self.internal_buffers.remove(i);
                self.internal_buffers.insert(i, (index, buffer));
                proof {
                    lemma_internal_update(old(self).internal_buffers@, self.internal_buffers@, i as int, index, buffer);
                }
            },
            None => {
                self.internal_buffers.push((index, buffer));
                proof {
                    lemma_internal_push(old(self).internal_buffers@, self.internal_buffers@, index, buffer);
                }
            },
        }
    }
}

impl XRTRun {
    /// Allocates a buffer for an input slot in the memory group the
    /// accelerator reports for it, writes `values` into its staging bytes,
    /// synchronizes them to the device, binds the buffer to the slot, and
    /// keeps the buffer as the run's own. The first failing step's error is
    /// returned: the group lookup, the allocation, then the binding.
    pub fn write_buffer_argument<T: HardwareDatatype>(
        &mut self,
        index: i32,
        values: &[T],
        device: &XRTDevice,
        kernel: &XRTKernel,
        plat: &mut Platform,
    ) -> (r: Result<(), Error>)
        requires
            old(plat).wf(),
            distinct_internal(old(self).internal_buffers@),
            values@.len() * T::spec_width() <= usize::MAX,
        ensures
            final(plat).wf(),
            final(self).handle == old(self).handle,
            final(self).argument_data@ =~= old(self).argument_data@,
            distinct_internal(final(self).internal_buffers@),
            !group_ok(*old(plat), kernel.handle, index) ==> {
                &&& *final(plat) == *old(plat)
                &&& *final(self) == *old(self)
                &&& (kernel.handle is None ==> r == Err::<(), Error>(
                    Error::KernelNotLoadedYetError,
                ))
                &&& (kernel.handle is Some ==> r == Err::<(), Error>(Error::KernelArgRtrvError))
            },
            group_ok(*old(plat), kernel.handle, index) && device.handle is None ==> r == Err::<
                (),
                Error,
            >(Error::UnopenedDeviceError) && *final(plat) == *old(plat) && *final(self) == *old(
                self,
            ),
            group_ok(*old(plat), kernel.handle, index) && device.handle is Some && !old(plat).conn_ok(
                device.handle->Some_0,
            ) ==> r == Err::<(), Error>(Error::BOCreationError) && *final(plat) == *old(plat)
                && *final(self) == *old(self),
            group_ok(*old(plat), kernel.handle, index) && device.handle is Some && old(plat).conn_ok(
                device.handle->Some_0,
            ) ==> {
                let bh = (old(plat).buffers@.len() + 1) as u64;
                let grp = group_at(*old(plat), kernel.handle, index);
                &&& final(plat).buffers@.len() == old(plat).buffers@.len() + 1
                &&& final(plat).buffers@.subrange(0, old(plat).buffers@.len() as int) =~= old(
                    plat,
                ).buffers@
                &&& final(plat).buffer_ok(bh)
                &&& final(plat).buffers@[bh - 1].group == grp
                &&& final(plat).buffers@[bh - 1].host@ =~= crate::encode_elems(values@)
                &&& final(plat).buffers@[bh - 1].dev@ =~= crate::encode_elems(values@)
                &&& (old(self).handle is None ==> r == Err::<(), Error>(
                    Error::RunNotCreatedYetError,
                ) && *final(self) == *old(self) && final(plat).runs@ =~= old(plat).runs@)
                &&& (old(self).handle matches Some(h) ==> {
                    let kind = old(plat).kernel_def(old(plat).runs[h - 1].kernel).args[
                        index as int];
                    let bind_ok = old(plat).run_ok(h) && 0 <= index < old(plat).runs[h
                        - 1].args.len() && (kind is Scalar || (kind
                        matches crate::platform::ArgKind::MemoryArg { group } && group == grp));
                    &&& (r is Ok <==> bind_ok)
                    &&& (r is Err ==> r == Err::<(), Error>(Error::SetRunArgError)
                        && final(plat).runs@ =~= old(plat).runs@ && *final(self) == *old(self))
                    &&& (r is Ok ==> {
                        &&& crate::platform::same_except(old(plat).runs@, final(plat).runs@, h - 1)
                        &&& final(plat).runs@[h - 1].args@ =~= old(plat).runs[h - 1].args@.update(
                            index as int,
                            Some(bh),
                        )
                        &&& final(plat).runs@[h - 1].alive == old(plat).runs[h - 1].alive
                        &&& final(plat).runs@[h - 1].kernel == old(plat).runs[h - 1].kernel
                        &&& final(plat).runs@[h - 1].state == old(plat).runs[h - 1].state
                        &&& has_internal(final(self).internal_buffers@, index)
                        &&& internal_at(final(self).internal_buffers@, index) == (XRTBuffer {
                            handle: Some(bh),
                            size: (values@.len() * T::spec_width()) as usize,
                        })
                    })
                })
            },
            crate::platform::unchanged_core(*old(plat), *final(plat)),
    {
        let grp = match kernel.get_memory_group_for_argument(index, plat) {
            Ok(g) => g,
            Err(e) => {
                return Err(e);
            },
        };
        let w = T::width();
        proof {
            T::lemma_width();
        }
        let size = values.len() * w;
        let buffer = match XRTBuffer::new(
            device,
            size,
            crate::platform::XCL_BO_FLAGS_NONE,
            grp,
            plat,
        ) {
            Ok(b) => b,
            Err(e) => {
                return Err(e);
            },
        };
        proof {
            crate::lemma_encode_elems_len::<T>(values@);
        }
        match buffer.write(values, 0, plat) {
            Ok(()) => (),
            Err(e) => {
                // The buffer is fresh and exactly the data's size, so the
                // write cannot be rejected.
                proof {
                    assert(false);
                }
                return Err(e);
            },
        }
        match buffer.sync(SyncDirection::HostToDevice, None, 0, plat) {
            Ok(()) => (),
            Err(e) => {
                // Same: the fresh buffer is live and the whole-buffer sync
                // is in range.
                proof {
                    assert(false);
                }
                return Err(e);
            },
        }
        match self.set_buffer_argument(index, &buffer, plat) {
            Ok(()) => (),
            Err(e) => {
                return Err(e);
            },
        }
        self.store_internal(index, buffer);
        Ok(())
    }

    /// Allocates a buffer for an output slot in the memory group the
    /// accelerator reports for it, binds it, and keeps it as the run's
    /// own, deferring any synchronization until read-back.
    pub fn create_read_buffer<T: HardwareDatatype>(
        &mut self,
        index: i32,
        size: usize,
        device: &XRTDevice,
        kernel: &XRTKernel,
        plat: &mut Platform,
    ) -> (r: Result<(), Error>)
        requires
            old(plat).wf(),
            distinct_internal(old(self).internal_buffers@),
            size * T::spec_width() <= usize::MAX,
        ensures
            final(plat).wf(),
            final(self).handle == old(self).handle,
            final(self).argument_data@ =~= old(self).argument_data@,
            distinct_internal(final(self).internal_buffers@),
            crate::platform::unchanged_core(*old(plat), *final(plat)),
            !group_ok(*old(plat), kernel.handle, index) ==> {
                &&& *final(plat) == *old(plat)
                &&& *final(self) == *old(self)
                &&& (kernel.handle is None ==> r == Err::<(), Error>(
                    Error::KernelNotLoadedYetError,
                ))
                &&& (kernel.handle is Some ==> r == Err::<(), Error>(Error::KernelArgRtrvError))
            },
            group_ok(*old(plat), kernel.handle, index) && device.handle is None ==> r == Err::<
                (),
                Error,
            >(Error::UnopenedDeviceError) && *final(plat) == *old(plat) && *final(self) == *old(
                self,
            ),
            group_ok(*old(plat), kernel.handle, index) && device.handle is Some && !old(
                plat,
            ).conn_ok(device.handle->Some_0) ==> r == Err::<(), Error>(Error::BOCreationError)
                && *final(plat) == *old(plat) && *final(self) == *old(self),
            group_ok(*old(plat), kernel.handle, index) && device.handle is Some && old(plat).conn_ok(
                device.handle->Some_0,
            ) ==> {
                let bh = (old(plat).buffers@.len() + 1) as u64;
                let grp = group_at(*old(plat), kernel.handle, index);
                &&& final(plat).buffers@.len() == old(plat).buffers@.len() + 1
                &&& final(plat).buffer_ok(bh)
                &&& final(plat).buffers@[bh - 1].group == grp
                &&& final(plat).buffers@[bh - 1].host@ =~= Seq::new(
                    (size * T::spec_width()) as nat,
                    |k: int| 0u8,
                )
                &&& (old(self).handle is None ==> r == Err::<(), Error>(
                    Error::RunNotCreatedYetError,
                ) && *final(self) == *old(self))
                &&& (old(self).handle matches Some(h) ==> {
                    let kind = old(plat).kernel_def(old(plat).runs[h - 1].kernel).args[
                        index as int];
                    let bind_ok = old(plat).run_ok(h) && 0 <= index < old(plat).runs[h
                        - 1].args.len() && (kind is Scalar || (kind
                        matches crate::platform::ArgKind::MemoryArg { group } && group == grp));
                    &&& (r is Ok <==> bind_ok)
                    &&& (r is Err ==> r == Err::<(), Error>(Error::SetRunArgError)
                        && final(plat).runs@ =~= old(plat).runs@ && *final(self) == *old(self))
                    &&& (r is Ok ==> {
                        &&& crate::platform::same_except(old(plat).runs@, final(plat).runs@, h - 1)
                        &&& final(plat).runs@[h - 1].args@ =~= old(plat).runs[h - 1].args@.update(
                            index as int,
                            Some(bh),
                        )
                        &&& has_internal(final(self).internal_buffers@, index)
                        &&& internal_at(final(self).internal_buffers@, index) == (XRTBuffer {
                            handle: Some(bh),
                            size: (size * T::spec_width()) as usize,
                        })
                    })
                })
            },
    {
        let grp = match kernel.get_memory_group_for_argument(index, plat) {
            Ok(g) => g,
            Err(e) => {
                return Err(e);
            },
        };
        let w = T::width();
        proof {
            T::lemma_width();
        }
        let byte_size = size * w;
        let buffer = match XRTBuffer::new(
            device,
            byte_size,
            crate::platform::XCL_BO_FLAGS_NONE,
            grp,
            plat,
        ) {
            Ok(b) => b,
            Err(e) => {
                return Err(e);
            },
        };
        match self.set_buffer_argument(index, &buffer, plat) {
            Ok(()) => (),
            Err(e) => {
                return Err(e);
            },
        }
        self.store_internal(index, buffer);
        Ok(())
    }

    /// Reads `count` elements back from the buffer this run holds for the
    /// slot: synchronizes the device bytes to the host staging memory,
    /// then decodes them. Fails with `BONotCreatedYet` when the run holds
    /// no buffer for the slot.
    pub fn read_buffer_argument<T: HardwareDatatype>(
        &mut self,
        index: i32,
        count: usize,
        plat: &mut Platform,
    ) -> (r: Result<Vec<T>, Error>)
        requires
            old(plat).wf(),
            distinct_internal(old(self).internal_buffers@),
        ensures
            final(plat).wf(),
            *final(self) == *old(self),
            crate::platform::unchanged_but_buffers(*old(plat), *final(plat)),
            !has_internal(old(self).internal_buffers@, index) ==> r == Err::<Vec<T>, Error>(
                Error::BONotCreatedYet,
            ) && *final(plat) == *old(plat),
            has_internal(old(self).internal_buffers@, index) ==> {
                let b = internal_at(old(self).internal_buffers@, index);
                &&& (b.handle is None ==> r == Err::<Vec<T>, Error>(Error::BONotCreatedYet)
                    && *final(plat) == *old(plat))
                &&& (b.handle matches Some(bh) ==> {
                    let e = old(plat).buffers[bh - 1];
                    &&& (r is Ok <==> old(plat).buffer_ok(bh) && b.size <= e.host.len() && count
                        * T::spec_width() <= e.host.len())
                    &&& (r matches Ok(v) ==> {
                        &&& v@.len() == count
                        &&& forall|j: int|
                            0 <= j < count ==> (j + 1) * T::spec_width() <= b.size as int
                                ==> v@[j] == T::of_bits(
                                le_val(
                                    e.dev@.subrange(j * T::spec_width(), (j + 1) * T::spec_width()),
                                ) as u64,
                            )
                    })
                })
            },
    {
        let pos = match self.find_internal(index) {
            Some(p) => p,
            None => {
                return Err(Error::BONotCreatedYet);
            },
        };
        let ghost pre = *plat;
        match self.internal_buffers[pos].1.sync(SyncDirection::DeviceToHost, None, 0, plat) {
            Ok(()) => (),
            Err(e) => {
                return Err(e);
            },
        }
        let res = self.internal_buffers[pos].1.read::<T>(count, 0, plat);
        proof {
            let w = T::spec_width() as int;
            let b = internal_at(old(self).internal_buffers@, index);
            if b.handle is Some {
                let bh = b.handle->Some_0;
                if pre.buffer_ok(bh) && b.size <= pre.buffers[bh - 1].host.len() {
                    let prehost = pre.buffers[bh - 1].host@;
                    let predev = pre.buffers[bh - 1].dev@;
                    let curhost = plat.buffers@[bh - 1].host@;
                    assert(curhost =~= crate::bytecodec::overlay(
                        prehost,
                        0,
                        predev.subrange(0, b.size as int),
                    ));
                    if res is Ok {
                        let v = res->Ok_0;
                        assert forall|j: int|
                            0 <= j < count && (j + 1) * w <= b.size as int implies v@[j]
                            == T::of_bits(
                            le_val(predev.subrange(j * w, (j + 1) * w)) as u64,
                        ) by {
                            assert(0 <= j * w) by (nonlinear_arith)
                                requires
                                    0 <= j,
                                    0 <= w,
                            ;
                            assert((j + 1) * w == j * w + w) by (nonlinear_arith);
                            assert(curhost.subrange(j * w, (j + 1) * w) =~= predev.subrange(
                                j * w,
                                (j + 1) * w,
                            ));
                        }
                    }
                }
            }
        }
        res
    }
}

impl XRTRun {
    /// Loads the staged argument data against the kernel's argument map:
    /// a direct value is bound to its slot; buffer content is written into
    /// the slot's concrete buffer, synchronized to the device, and the
    /// buffer bound to the slot. Fails with `NonMatchingArgumentLists` when
    /// the data and the map differ in length; each element's first failing
    /// step otherwise decides the error.
    pub fn load_arguments(
        &mut self,
        argument_mapping: &Vec<(u32, ArgumentType)>,
        plat: &mut Platform,
    ) -> (r: Result<(), Error>)
        requires
            old(plat).wf(),
            distinct_slots(argument_mapping@),
            distinct_arg_slots(old(self).argument_data@),
        ensures
            final(plat).wf(),
            *final(self) == *old(self),
            crate::platform::unchanged_core(*old(plat), *final(plat)),
            old(self).argument_data@.len() != argument_mapping@.len() ==> r == Err::<(), Error>(
                Error::NonMatchingArgumentLists,
            ) && *final(plat) == *old(plat),
            old(self).argument_data@.len() == argument_mapping@.len() && old(self).handle is None
                ==> r == Err::<(), Error>(Error::RunNotCreatedYetError) && *final(plat) == *old(
                plat,
            ),
            old(self).handle matches Some(h) ==> (old(self).argument_data@.len()
                == argument_mapping@.len() ==> {
                let data = old(self).argument_data@;
                let mapping = argument_mapping@;
                &&& (r is Ok <==> load_ok(*old(plat), h, mapping, data))
                &&& (r matches Err(e) ==> (e is RunArgumentSetError || e is InvalidArgumentIndex
                    || e is ExpectedBufferArgumentType || e is FailedBOWrite
                    || e is FailedBOSyncToDevice || e is SetRunArgError))
                &&& final(plat).buffers@.len() == old(plat).buffers@.len()
                &&& (forall|b: int|
                    0 <= b < old(plat).buffers@.len() ==> {
                        &&& (#[trigger] final(plat).buffers@[b]).alive == old(plat).buffers@[
                            b].alive
                        &&& final(plat).buffers@[b].group == old(plat).buffers@[b].group
                        &&& final(plat).buffers@[b].host@.len() == old(plat).buffers@[
                            b].host@.len()
                        &&& final(plat).buffers@[b].dev@.len() == old(plat).buffers@[b].dev@.len()
                    })
                &&& (r is Ok ==> {
                    &&& crate::platform::same_except(old(plat).runs@, final(plat).runs@, h - 1)
                    &&& (old(plat).run_ok(h) ==> {
                        &&& final(plat).runs@[h - 1].alive == old(plat).runs[h - 1].alive
                        &&& final(plat).runs@[h - 1].kernel == old(plat).runs[h - 1].kernel
                        &&& final(plat).runs@[h - 1].state == old(plat).runs[h - 1].state
                        &&& final(plat).runs@[h - 1].args@.len() == old(plat).runs[h
                            - 1].args@.len()
                        &&& (forall|k: int|
                            0 <= k < data.len() ==> final(plat).runs@[h - 1].args@[(
                            #[trigger] data[k]).0 as int] == Some(expected_bits(mapping, data[k])))
                        &&& (forall|s: int|
                            0 <= s < old(plat).runs[h - 1].args@.len() && (forall|k: int|
                                0 <= k < data.len() ==> (#[trigger] data[k]).0 != s)
                                ==> #[trigger] final(plat).runs@[h - 1].args@[s] == old(plat).runs[h
                                - 1].args@[s])
                        &&& (crate::kernel::injective_buffers(mapping) ==> (forall|k: int|
                            0 <= k < data.len() ==> ((#[trigger] data[k]).1 matches
                                Argument::BufferContent(bytes) ==> {
                                let bh = buffer_handle_of(
                                    crate::kernel::mapping_at(mapping, data[k].0),
                                );
                                &&& final(plat).buffers@[bh - 1].host@ =~= overlay(
                                    old(plat).buffers@[bh - 1].host@,
                                    0,
                                    bytes@,
                                )
                                &&& final(plat).buffers@[bh - 1].dev@ =~= overlay(
                                    old(plat).buffers@[bh - 1].dev@,
                                    0,
                                    bytes@,
                                )
                            })))
                        &&& (crate::kernel::injective_buffers(mapping) ==> (forall|b: u64|
                            1 <= b <= old(plat).buffers@.len() && #[trigger] untouched_by(
                                mapping,
                                data,
                                data.len() as int,
                                b,
                            ) ==> final(plat).buffers@[b - 1].host@ =~= old(plat).buffers@[b
                                - 1].host@ && final(plat).buffers@[b - 1].dev@
                                =~= old(plat).buffers@[b - 1].dev@))
                    })
                })
            }),
    {
        if self.argument_data.len() != argument_mapping.len() {
            return Err(Error::NonMatchingArgumentLists);
        }
        let h = match self.handle {
            Some(h) => h,
            None => {
                return Err(Error::RunNotCreatedYetError);
            },
        };
        let n = self.argument_data.len();
        let mut i: usize = 0;
        while i < n
            invariant
                plat.wf(),
                *self == *old(self),
                i <= n,
                n == self.argument_data@.len(),
                n == argument_mapping@.len(),
                distinct_slots(argument_mapping@),
                distinct_arg_slots(self.argument_data@),
                self.handle == Some(h),
                crate::platform::unchanged_core(*old(plat), *plat),
                plat.buffers@.len() == old(plat).buffers@.len(),
                forall|b: int|
                    0 <= b < old(plat).buffers@.len() ==> {
                        &&& (#[trigger] plat.buffers@[b]).alive == old(plat).buffers@[b].alive
                        &&& plat.buffers@[b].group == old(plat).buffers@[b].group
                        &&& plat.buffers@[b].host@.len() == old(plat).buffers@[b].host@.len()
                        &&& plat.buffers@[b].dev@.len() == old(plat).buffers@[b].dev@.len()
                    },
                crate::platform::same_except(old(plat).runs@, plat.runs@, h - 1),
                old(plat).run_ok(h) ==> {
                    &&& plat.runs@[h - 1].alive == old(plat).runs[h - 1].alive
                    &&& plat.runs@[h - 1].kernel == old(plat).runs[h - 1].kernel
                    &&& plat.runs@[h - 1].state == old(plat).runs[h - 1].state
                    &&& plat.runs@[h - 1].remaining_ms == old(plat).runs[h - 1].remaining_ms
                    &&& plat.runs@[h - 1].args@.len() == old(plat).runs[h - 1].args@.len()
                },
                !old(plat).run_ok(h) ==> plat.runs@ =~= old(plat).runs@,
                forall|k: int|
                    0 <= k < i ==> load_elem_ok(
                        *old(plat),
                        h,
                        argument_mapping@,
                        #[trigger] self.argument_data@[k],
                    ),
                old(plat).run_ok(h) ==> (forall|k: int|
                    0 <= k < i ==> plat.runs@[h - 1].args@[(#[trigger] self.argument_data@[
                    k]).0 as int] == Some(expected_bits(argument_mapping@, self.argument_data@[k]))),
                old(plat).run_ok(h) ==> (forall|s: int|
                    0 <= s < old(plat).runs[h - 1].args@.len() && (forall|k: int|
                        0 <= k < i ==> (#[trigger] self.argument_data@[k]).0 != s)
                        ==> #[trigger] plat.runs@[h - 1].args@[s] == old(plat).runs[h
                        - 1].args@[s]),
                crate::kernel::injective_buffers(argument_mapping@) ==> (forall|k: int|
                    0 <= k < i ==> ((#[trigger] self.argument_data@[k]).1 matches
                        Argument::BufferContent(bytes) ==> {
                        let bh = buffer_handle_of(
                            crate::kernel::mapping_at(argument_mapping@, self.argument_data@[k].0),
                        );
                        &&& plat.buffers@[bh - 1].host@ =~= overlay(
                            old(plat).buffers@[bh - 1].host@,
                            0,
                            bytes@,
                        )
                        &&& plat.buffers@[bh - 1].dev@ =~= overlay(
                            old(plat).buffers@[bh - 1].dev@,
                            0,
                            bytes@,
                        )
                    })),
                crate::kernel::injective_buffers(argument_mapping@) ==> (forall|b: u64|
                    1 <= b <= old(plat).buffers@.len() && #[trigger] untouched_by(
                        argument_mapping@,
                        self.argument_data@,
                        i as int,
                        b,
                    ) ==> plat.buffers@[b - 1].host@ =~= old(plat).buffers@[b - 1].host@
                        && plat.buffers@[b - 1].dev@ =~= old(plat).buffers@[b - 1].dev@),
            decreases n - i,
        {
            let slot = self.argument_data[i].0;
            let ghost elem = self.argument_data@[i as int];
            let ghost pre_iter = *plat;
            match &self.argument_data[i].1 {
                Argument::Direct(d) => {
                    let dv = *d;
                    let bits = (#[verifier::truncate] (dv as u32)) as u64;
                    if slot > 0x7fffffff {
                        proof {
                            if old(plat).run_ok(h) {
                                lemma_argc_bound(*plat, h);
                            }
                            assert(!load_elem_ok(*old(plat), h, argument_mapping@, elem));
                        }
                        return Err(Error::RunArgumentSetError(slot, bits));
                    }
                    if plat.run_set_arg(h, slot as i32, bits) != 0 {
                        proof {
                            assert(!load_elem_ok(*old(plat), h, argument_mapping@, elem));
                        }
                        return Err(Error::RunArgumentSetError(slot, bits));
                    }
                },
                Argument::BufferContent(data_bytes) => {
                    let at = match crate::kernel::mapping_find(argument_mapping, slot) {
                        Some(a) => a,
                        None => {
                            proof {
                                assert(!load_elem_ok(*old(plat), h, argument_mapping@, elem));
                            }
                            return Err(Error::InvalidArgumentIndex);
                        },
                    };
                    let bh = match at {
                        ArgumentType::Buffer(bh, _) => bh,
                        _ => {
                            proof {
                                assert(!load_elem_ok(*old(plat), h, argument_mapping@, elem));
                            }
                            return Err(Error::ExpectedBufferArgumentType);
                        },
                    };
                    if plat.bo_write(bh, data_bytes, 0) != 0 {
                        proof {
                            assert(!load_elem_ok(*old(plat), h, argument_mapping@, elem));
                        }
                        return Err(Error::FailedBOWrite);
                    }
                    if plat.bo_sync(
                        bh,
                        crate::platform::XCL_BO_SYNC_BO_TO_DEVICE,
                        data_bytes.len(),
                        0,
                    ) != 0 {
                        proof {
                            assert(false);
                        }
                        return Err(Error::FailedBOSyncToDevice);
                    }
                    if slot > 0x7fffffff {
                        proof {
                            if old(plat).run_ok(h) {
                                lemma_argc_bound(*plat, h);
                            }
                            assert(!load_elem_ok(*old(plat), h, argument_mapping@, elem));
                        }
                        return Err(Error::SetRunArgError);
                    }
                    if plat.run_set_arg(h, slot as i32, bh) != 0 {
                        proof {
                            assert(!load_elem_ok(*old(plat), h, argument_mapping@, elem));
                        }
                        return Err(Error::SetRunArgError);
                    }
                    proof {
                        if crate::kernel::injective_buffers(argument_mapping@) {
                            lemma_untouched_target(
                                argument_mapping@,
                                self.argument_data@,
                                i as int,
                                bh,
                            );
                        }
                        assert(target_of(argument_mapping@, elem) == bh);
                        assert(forall|b: int|
                            0 <= b < plat.buffers@.len() && b != bh - 1
                                ==> #[trigger] plat.buffers@[b] == pre_iter.buffers@[b]);
                    }
                },
            }
            proof {
                if elem.1 is Direct {
                    assert(target_of(argument_mapping@, elem) == 0);
                    assert(plat.buffers@ =~= pre_iter.buffers@);
                }
                if crate::kernel::injective_buffers(argument_mapping@) {
                    assert forall|b: u64|
                        1 <= b <= old(plat).buffers@.len() && #[trigger] untouched_by(
                            argument_mapping@,
                            self.argument_data@,
                            i + 1,
                            b,
                        ) implies plat.buffers@[b - 1].host@ =~= old(plat).buffers@[b - 1].host@
                        && plat.buffers@[b - 1].dev@ =~= old(plat).buffers@[b - 1].dev@ by {
                        assert(target_of(argument_mapping@, self.argument_data@[i as int]) != b);
                        assert(untouched_by(argument_mapping@, self.argument_data@, i as int, b));
                        assert(pre_iter.buffers@[b - 1].host@ =~= old(plat).buffers@[b - 1].host@);
                        assert(pre_iter.buffers@[b - 1].dev@ =~= old(plat).buffers@[b - 1].dev@);
                        assert(plat.buffers@[b - 1] == pre_iter.buffers@[b - 1]);
                    }
                }
            }
            i = i + 1;
        }
        Ok(())
    }
}

/// A live run has as many slots as its kernel declares, and that count
/// fits the native argument index type.
proof fn lemma_argc_bound(plat: Platform, h: u64)
    requires
        plat.wf(),
        plat.run_ok(h),
    ensures
        plat.runs[h - 1].args.len() <= 0x7fffffff,
{
    let e = plat.runs[h - 1];
    assert(1 <= e.kernel <= plat.kernels.len());
    let ke = plat.kernels[e.kernel - 1];
    assert(ke.image < plat.images.len() && ke.kernel < plat.images[ke.image as int].1.kernels.len());
    assert(crate::platform::image_wf((plat.images[ke.image as int]).1));
    assert(crate::platform::kernel_image_wf(plat.kernel_def(e.kernel)));
}

/// The element at position `i` is the first to write its own target: no
/// earlier element of a distinct-slot map writes the same buffer.
proof fn lemma_untouched_target(
    mapping: Seq<(u32, ArgumentType)>,
    data: Seq<(u32, Argument)>,
    i: int,
    bh: u64,
)
    requires
        distinct_slots(mapping),
        crate::kernel::injective_buffers(mapping),
        distinct_arg_slots(data),
        0 <= i < data.len(),
        crate::kernel::mapping_has(mapping, data[i].0),
        crate::kernel::mapping_at(mapping, data[i].0) is Buffer,
        bh == buffer_handle_of(crate::kernel::mapping_at(mapping, data[i].0)),
        bh != 0,
    ensures
        untouched_by(mapping, data, i, bh),
{
    let si = data[i].0;
    let wi = choose|x: int| 0 <= x < mapping.len() && (#[trigger] mapping[x]).0 == si;
    assert(crate::kernel::mapping_at(mapping, si) == mapping[wi].1);
    assert forall|k: int| 0 <= k < i implies target_of(mapping, #[trigger] data[k]) != bh by {
        let sk = data[k].0;
        assert(sk != si);
        if data[k].1 is BufferContent && crate::kernel::mapping_has(mapping, sk)
            && crate::kernel::mapping_at(mapping, sk) is Buffer {
            let wk = choose|x: int| 0 <= x < mapping.len() && (#[trigger] mapping[x]).0 == sk;
            assert(crate::kernel::mapping_at(mapping, sk) == mapping[wk].1);
            assert((mapping[wi]).0 == si);
            assert((mapping[wk]).0 == sk);
            assert(wi != wk);
            if wi < wk {
                assert(buffer_handle_of((mapping[wi]).1) != buffer_handle_of((mapping[wk]).1));
            } else {
                assert(buffer_handle_of((mapping[wk]).1) != buffer_handle_of((mapping[wi]).1));
            }
        }
    }
}

/// The raw bits a directly-passed value is carried as.
pub open spec fn bits_of_i32(d: i32) -> u64 {
    ((d as u32) as u64)
}

/// The slots of staged argument data are pairwise distinct.
pub open spec fn distinct_arg_slots(d: Seq<(u32, Argument)>) -> bool {
    forall|i: int, j: int| 0 <= i < j < d.len() ==> (#[trigger] d[i]).0 != (#[trigger] d[j]).0
}

/// The buffer a staged element writes through the map (`0` when it writes
/// none).
pub open spec fn target_of(mapping: Seq<(u32, ArgumentType)>, elem: (u32, Argument)) -> u64 {
    if elem.1 is BufferContent && crate::kernel::mapping_has(mapping, elem.0)
        && crate::kernel::mapping_at(mapping, elem.0) is Buffer {
        buffer_handle_of(crate::kernel::mapping_at(mapping, elem.0))
    } else {
        0
    }
}

/// No element before position `i` writes buffer `b`.
pub open spec fn untouched_by(
    mapping: Seq<(u32, ArgumentType)>,
    data: Seq<(u32, Argument)>,
    i: int,
    b: u64,
) -> bool {
    forall|k: int| 0 <= k < i ==> target_of(mapping, #[trigger] data[k]) != b
}

/// The word one staged element binds to its slot.
pub open spec fn expected_bits(mapping: Seq<(u32, ArgumentType)>, elem: (u32, Argument)) -> u64 {
    match elem.1 {
        Argument::Direct(d) => bits_of_i32(d),
        Argument::BufferContent(_) => buffer_handle_of(
            crate::kernel::mapping_at(mapping, elem.0),
        ),
    }
}

/// One staged element can be loaded: a direct value needs its slot to
/// accept the word; buffer content needs a concrete buffer entry for the
/// slot in the map, room for the bytes, and a slot that accepts the
/// buffer's handle.
pub open spec fn load_elem_ok(
    plat: Platform,
    h: u64,
    mapping: Seq<(u32, ArgumentType)>,
    elem: (u32, Argument),
) -> bool {
    let e = plat.runs[h - 1];
    let argc = e.args.len();
    let slot = elem.0;
    &&& plat.run_ok(h)
    &&& match elem.1 {
        Argument::Direct(d) => slot < argc && plat.arg_compatible(
            plat.kernel_def(e.kernel).args[slot as int],
            bits_of_i32(d),
        ),
        Argument::BufferContent(bytes) => {
            &&& crate::kernel::mapping_has(mapping, slot)
            &&& crate::kernel::mapping_at(mapping, slot) is Buffer
            &&& plat.buffer_ok(buffer_handle_of(crate::kernel::mapping_at(mapping, slot)))
            &&& bytes@.len() <= plat.buffers[buffer_handle_of(
                crate::kernel::mapping_at(mapping, slot),
            ) - 1].host.len()
            &&& slot < argc
            &&& plat.arg_compatible(
                plat.kernel_def(e.kernel).args[slot as int],
                buffer_handle_of(crate::kernel::mapping_at(mapping, slot)),
            )
        },
    }
}

/// Every staged element can be loaded.
pub open spec fn load_ok(
    plat: Platform,
    h: u64,
    mapping: Seq<(u32, ArgumentType)>,
    data: Seq<(u32, Argument)>,
) -> bool {
    forall|i: int| 0 <= i < data.len() ==> load_elem_ok(plat, h, mapping, #[trigger] data[i])
}

/// The kernel handle is live and the slot is buffer-backed, so the
/// memory-group lookup succeeds.
pub open spec fn group_ok(plat: Platform, kernel_handle: Option<u64>, index: i32) -> bool {
    &&& kernel_handle is Some
    &&& plat.kernel_ok(kernel_handle->Some_0)
    &&& 0 <= index < plat.kernel_def(kernel_handle->Some_0).args.len()
    &&& plat.kernel_def(kernel_handle->Some_0).args[index as int] is MemoryArg
}

/// The memory group the accelerator reports for the slot.
pub open spec fn group_at(plat: Platform, kernel_handle: Option<u64>, index: i32) -> u32 {
    crate::platform::group_of(plat.kernel_def(kernel_handle->Some_0).args[index as int])
}

/// Updating the entry at a slot's position keeps the table a map and
/// changes only that slot's buffer.
proof fn lemma_internal_update(
    pre: Seq<(i32, XRTBuffer)>,
    post: Seq<(i32, XRTBuffer)>,
    i: int,
    index: i32,
    buffer: XRTBuffer,
)
    requires
        distinct_internal(pre),
        0 <= i < pre.len(),
        pre[i].0 == index,
        post =~= pre.update(i, (index, buffer)),
    ensures
        distinct_internal(post),
        has_internal(post, index),
        internal_at(post, index) == buffer,
        forall|other: i32|
            other != index ==> #[trigger] has_internal(post, other) == has_internal(pre, other),
        forall|other: i32|
            other != index && has_internal(pre, other) ==> #[trigger] internal_at(post, other)
                == internal_at(pre, other),
{
    assert(has_internal(post, index)) by {
        assert((post[i]).0 == index);
    }
    assert(internal_at(post, index) == buffer) by {
        let w = choose|k: int| 0 <= k < post.len() && (#[trigger] post[k]).0 == index;
        assert((post[i]).0 == index);
        assert(w == i);
    }
    assert forall|other: i32| other != index implies #[trigger] has_internal(post, other)
        == has_internal(pre, other) by {
        if has_internal(pre, other) {
            let k = choose|k: int| 0 <= k < pre.len() && (#[trigger] pre[k]).0 == other;
            assert((post[k]).0 == other);
        }
        if has_internal(post, other) {
            let k = choose|k: int| 0 <= k < post.len() && (#[trigger] post[k]).0 == other;
            assert((pre[k]).0 == other);
        }
    }
    assert forall|other: i32| other != index && has_internal(pre, other) implies #[trigger]
        internal_at(post, other) == internal_at(pre, other) by {
        let kp = choose|k: int| 0 <= k < pre.len() && (#[trigger] pre[k]).0 == other;
        let kq = choose|k: int| 0 <= k < post.len() && (#[trigger] post[k]).0 == other;
        assert((post[kp]).0 == other);
        assert((pre[kq]).0 == other);
        assert(kp == kq);
    }
}

/// Appending a fresh slot keeps the table a map and adds only that slot.
proof fn lemma_internal_push(
    pre: Seq<(i32, XRTBuffer)>,
    post: Seq<(i32, XRTBuffer)>,
    index: i32,
    buffer: XRTBuffer,
)
    requires
        distinct_internal(pre),
        !has_internal(pre, index),
        post =~= pre.push((index, buffer)),
    ensures
        distinct_internal(post),
        has_internal(post, index),
        internal_at(post, index) == buffer,
        forall|other: i32|
            other != index ==> #[trigger] has_internal(post, other) == has_internal(pre, other),
        forall|other: i32|
            other != index && has_internal(pre, other) ==> #[trigger] internal_at(post, other)
                == internal_at(pre, other),
{
    let n = pre.len() as int;
    assert(distinct_internal(post)) by {
        assert forall|i: int, j: int| 0 <= i < j < post.len() implies (#[trigger] post[i]).0 != (
        #[trigger] post[j]).0 by {
            if j == n {
                assert((post[i]).0 == (pre[i]).0);
                if (pre[i]).0 == index {
                    assert(has_internal(pre, index));
                }
            }
        }
    }
    assert(has_internal(post, index)) by {
        assert((post[n]).0 == index);
    }
    assert(internal_at(post, index) == buffer) by {
        let w = choose|k: int| 0 <= k < post.len() && (#[trigger] post[k]).0 == index;
        if w != n {
            assert((pre[w]).0 == index);
            assert(has_internal(pre, index));
        }
    }
    assert forall|other: i32| other != index implies #[trigger] has_internal(post, other)
        == has_internal(pre, other) by {
        if has_internal(pre, other) {
            let k = choose|k: int| 0 <= k < pre.len() && (#[trigger] pre[k]).0 == other;
            assert((post[k]).0 == other);
        }
        if has_internal(post, other) {
            let k = choose|k: int| 0 <= k < post.len() && (#[trigger] post[k]).0 == other;
            assert(k != n);
            assert((pre[k]).0 == other);
        }
    }
    assert forall|other: i32| other != index && has_internal(pre, other) implies #[trigger]
        internal_at(post, other) == internal_at(pre, other) by {
        let kp = choose|k: int| 0 <= k < pre.len() && (#[trigger] pre[k]).0 == other;
        let kq = choose|k: int| 0 <= k < post.len() && (#[trigger] post[k]).0 == other;
        assert((post[kp]).0 == other);
        assert(kq != n);
        assert((pre[kq]).0 == other);
        assert(kp == kq);
    }
}

/// What waiting on a live run with a timeout does: nothing on a run that
/// is not running; `Timeout` and the time debited when the timeout is
/// positive and too short; otherwise the kernel executes and the run
/// completes, or moves to `Error` when its bindings or resources do not
/// fit.
pub open spec fn wait_outcome(
    pre: Platform,
    post: Platform,
    h: u64,
    timeout_ms: u32,
    st: ERTCommandState,
) -> bool {
    &&& (!pre.run_ok(h) ==> st == ERTCommandState::InvalidState(0u32) && post == pre)
    &&& (pre.run_ok(h) && pre.runs[h - 1].state != ERT_CMD_STATE_RUNNING ==> st == state_of_code(
        pre.runs[h - 1].state,
    ) && post == pre)
    &&& (pre.run_ok(h) && pre.runs[h - 1].state == ERT_CMD_STATE_RUNNING ==> {
        let e = pre.runs[h - 1];
        &&& (timeout_ms != 0 && timeout_ms < e.remaining_ms ==> {
            &&& st == ERTCommandState::Timeout
            &&& post.buffers@ =~= pre.buffers@
            &&& crate::platform::run_updated(
                pre.runs@,
                post.runs@,
                h,
                ERT_CMD_STATE_RUNNING,
                (e.remaining_ms - timeout_ms) as u32,
            )
        })
        &&& (timeout_ms == 0 || timeout_ms >= e.remaining_ms ==> {
            &&& (pre.run_exec_ok(h) ==> {
                &&& st == ERTCommandState::Completed
                &&& crate::platform::run_updated(
                    pre.runs@,
                    post.runs@,
                    h,
                    ERT_CMD_STATE_COMPLETED,
                    0,
                )
                &&& pre.run_exec_effect(post.buffers@, h)
            })
            &&& (!pre.run_exec_ok(h) ==> {
                &&& st == ERTCommandState::Error
                &&& crate::platform::run_updated(pre.runs@, post.runs@, h, ERT_CMD_STATE_ERROR, 0)
                &&& post.buffers@ =~= pre.buffers@
            })
        })
    })
}

} // verus!
