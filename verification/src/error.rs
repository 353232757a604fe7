//! The error taxonomy of the accelerator lifecycle layer.

use vstd::prelude::*;

verus! {

/// Every failure the lifecycle layer can report. Each fallible native-style
/// call is checked immediately and mapped to exactly one of these; teardown
/// never fails observably.
#[derive(Debug)]
pub enum Error {
    /// A path or name could not take the native string form (embedded NUL).
    CStringCreationError,
    /// Opening the device connection returned an invalid handle.
    DeviceOpenError,
    /// An operation needed an open connection but the device has none.
    UnopenedDeviceError,
    /// An operation needed a ready device (connection, bitstream, identity).
    DeviceNotReadyError,
    /// Allocating the bitstream object from the given path failed.
    XclbinFileAllocError,
    /// Loading the allocated bitstream onto the device failed.
    XclbinLoadError,
    /// Retrieving the 16-byte identity of the loaded bitstream failed.
    XclbinUUIDRetrievalError,
    /// The bitstream was required but has not been loaded.
    XclbinNotLoadedError,
    /// Opening the named kernel entry point returned an invalid handle.
    KernelCreationError,
    /// A kernel was required but has not been opened.
    KernelNotLoadedYetError,
    /// The accelerator reported no memory group for the argument slot.
    KernelArgRtrvError,
    /// Allocating a buffer object returned an invalid handle.
    BOCreationError,
    /// Opening a run resource returned an invalid handle.
    RunCreationError,
    /// A run was required but has not been created.
    RunNotCreatedYetError,
    /// The accelerator rejected binding an argument to a run slot.
    SetRunArgError,
    /// A buffer was required but has not been created.
    BONotCreatedYet,
    /// Copying host data into the buffer's staging memory failed.
    BOWriteError,
    /// Copying the buffer's staging memory back to the host failed.
    BOReadError,
    /// Moving bytes across the host/device boundary failed.
    BOSyncError,
    /// A kernel argument map still holds an unresolved buffer entry.
    UnrealizedBufferError,
    /// The accelerator reported a negative memory group id.
    InvalidGroupIDError,
    /// Allocating a buffer during argument resolution failed.
    FailedBOAllocError,
    /// A run's argument values and its kernel's argument map differ in length.
    NonMatchingArgumentLists,
    /// An argument index had no entry in the kernel's argument map.
    InvalidArgumentIndex,
    /// Buffer content was supplied for a slot the map marks as passed directly.
    ExpectedBufferArgumentType,
    /// The accelerator rejected a scalar binding; carries the slot and the
    /// value's raw bits so the caller can diagnose which binding failed.
    RunArgumentSetError(u32, u64),
    /// Writing buffer content during argument loading failed.
    FailedBOWrite,
    /// Synchronizing buffer content to the device during loading failed.
    FailedBOSyncToDevice,
    /// A kernel of the given name was not found in an internal map.
    NoSuchKernelError,
    /// The number of provided arguments does not match the kernel's count.
    ArgumentNumberMismatchError,
    /// Vector content was provided for a slot that takes a scalar.
    PassVecToScalarArgumentError,
    /// An operation needed an in-flight run but none is open.
    NoOpenRunsError,
    /// The bitstream container does not begin with the magic string; carries
    /// what was found instead.
    XclbinInvalidMagicString(String),
    /// A fixed-width field of the container could not be read; carries the
    /// byte range that was out of reach.
    XclbinByteReadingError(usize, usize),
    /// The container holds no build-metadata section.
    XclbinNoBuildMetadataSection,
    /// The build metadata lists no kernel of the given name.
    XclbinNoKernelOfSuchName(String),
}

impl Error {
    /// A short stable name for the error, for display by callers.
    pub fn describe(&self) -> (r: &'static str)
        ensures
            r@.len() > 0,
    {
        let r = match self {
            Error::CStringCreationError => "CStringCreationError",
            Error::DeviceOpenError => "DeviceOpenError",
            Error::UnopenedDeviceError => "UnopenedDeviceError",
            Error::DeviceNotReadyError => "DeviceNotReadyError",
            Error::XclbinFileAllocError => "XclbinFileAllocError",
            Error::XclbinLoadError => "XclbinLoadError",
            Error::XclbinUUIDRetrievalError => "XclbinUUIDRetrievalError",
            Error::XclbinNotLoadedError => "XclbinNotLoadedError",
            Error::KernelCreationError => "KernelCreationError",
            Error::KernelNotLoadedYetError => "KernelNotLoadedYetError",
            Error::KernelArgRtrvError => "KernelArgRtrvError",
            Error::BOCreationError => "BOCreationError",
            Error::RunCreationError => "RunCreationError",
            Error::RunNotCreatedYetError => "RunNotCreatedYetError",
            Error::SetRunArgError => "SetRunArgError",
            Error::BONotCreatedYet => "BONotCreatedYet",
            Error::BOWriteError => "BOWriteError",
            Error::BOReadError => "BOReadError",
            Error::BOSyncError => "BOSyncError",
            Error::UnrealizedBufferError => "UnrealizedBufferError",
            Error::InvalidGroupIDError => "InvalidGroupIDError",
            Error::FailedBOAllocError => "FailedBOAllocError",
            Error::NonMatchingArgumentLists => "NonMatchingArgumentLists",
            Error::InvalidArgumentIndex => "InvalidArgumentIndex",
            Error::ExpectedBufferArgumentType => "ExpectedBufferArgumentType",
            Error::RunArgumentSetError(_, _) => "RunArgumentSetError",
            Error::FailedBOWrite => "FailedBOWrite",
            Error::FailedBOSyncToDevice => "FailedBOSyncToDevice",
            Error::NoSuchKernelError => "NoSuchKernelError",
            Error::ArgumentNumberMismatchError => "ArgumentNumberMismatchError",
            Error::PassVecToScalarArgumentError => "PassVecToScalarArgumentError",
            Error::NoOpenRunsError => "NoOpenRunsError",
            Error::XclbinInvalidMagicString(_) => "XclbinInvalidMagicString",
            Error::XclbinByteReadingError(_, _) => "XclbinByteReadingError",
            Error::XclbinNoBuildMetadataSection => "XclbinNoBuildMetadataSection",
            Error::XclbinNoKernelOfSuchName(_) => "XclbinNoKernelOfSuchName",
        };
        proof {
            reveal_strlit("CStringCreationError");
            reveal_strlit("DeviceOpenError");
            reveal_strlit("UnopenedDeviceError");
            reveal_strlit("DeviceNotReadyError");
            reveal_strlit("XclbinFileAllocError");
            reveal_strlit("XclbinLoadError");
            reveal_strlit("XclbinUUIDRetrievalError");
            reveal_strlit("XclbinNotLoadedError");
            reveal_strlit("KernelCreationError");
            reveal_strlit("KernelNotLoadedYetError");
            reveal_strlit("KernelArgRtrvError");
            reveal_strlit("BOCreationError");
            reveal_strlit("RunCreationError");
            reveal_strlit("RunNotCreatedYetError");
            reveal_strlit("SetRunArgError");
            reveal_strlit("BONotCreatedYet");
            reveal_strlit("BOWriteError");
            reveal_strlit("BOReadError");
            reveal_strlit("BOSyncError");
            reveal_strlit("UnrealizedBufferError");
            reveal_strlit("InvalidGroupIDError");
            reveal_strlit("FailedBOAllocError");
            reveal_strlit("NonMatchingArgumentLists");
            reveal_strlit("InvalidArgumentIndex");
            reveal_strlit("ExpectedBufferArgumentType");
            reveal_strlit("RunArgumentSetError");
            reveal_strlit("FailedBOWrite");
            reveal_strlit("FailedBOSyncToDevice");
            reveal_strlit("NoSuchKernelError");
            reveal_strlit("ArgumentNumberMismatchError");
            reveal_strlit("PassVecToScalarArgumentError");
            reveal_strlit("NoOpenRunsError");
            reveal_strlit("XclbinInvalidMagicString");
            reveal_strlit("XclbinByteReadingError");
            reveal_strlit("XclbinNoBuildMetadataSection");
            reveal_strlit("XclbinNoKernelOfSuchName");
        }
        r
    }
}

} // verus!
