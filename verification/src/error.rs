//! The layered error taxonomy.
//!
//! Three layers, each wrapping the one below it: platform-level status
//! failures ([`WinError`]), runtime-context acquisition failures
//! ([`ComError`]), service-connection failures ([`TaskServiceError`]), and
//! the top-level union [`TaskError`] that every fallible operation returns.

use vstd::prelude::*;

use crate::wire::{hex_code, hex_digits};

verus! {

/// A previous initialization chose a different concurrency model.
pub const RPC_E_CHANGED_MODE: u32 = 0x8001_0106;

/// The security policy has already been initialized.
pub const RPC_E_TOO_LATE: u32 = 0x8001_0119;

/// No requested authentication service could be registered.
pub const RPC_E_NO_GOOD_SECURITY_PACKAGES: u32 = 0x8001_011A;

/// The requested class is not registered.
pub const REGDB_E_CLASSNOTREG: u32 = 0x8004_0154;

/// The class cannot be aggregated.
pub const CLASS_E_NOAGGREGATION: u32 = 0x8004_0110;

/// The requested interface is not supported.
pub const E_NOINTERFACE: u32 = 0x8000_4002;

/// An invalid pointer was passed.
pub const E_POINTER: u32 = 0x8000_4003;

/// One or more arguments are invalid.
pub const E_INVALIDARG: u32 = 0x8007_0057;

/// Memory could not be allocated.
pub const E_OUTOFMEMORY: u32 = 0x8007_000E;

/// Unexpected failure.
pub const E_UNEXPECTED: u32 = 0x8000_FFFF;

/// The operation was aborted.
pub const E_ABORT: u32 = 0x8000_4004;

/// General access-denied error.
pub const E_ACCESSDENIED: u32 = 0x8007_0005;

/// Unspecified failure.
pub const E_FAIL: u32 = 0x8000_4005;

/// An invalid handle was used.
pub const E_HANDLE: u32 = 0x8007_0006;

/// The operation is not implemented.
pub const E_NOTIMPL: u32 = 0x8000_4001;

/// The scheduling service is not running.
pub const SCHED_E_SERVICE_NOT_RUNNING: u32 = 0x8004_1315;

/// The network path was not found.
pub const ERROR_BAD_NETPATH_HRESULT: u32 = 0x8007_0035;

/// The request is not supported.
pub const ERROR_NOT_SUPPORTED_HRESULT: u32 = 0x8007_0032;

/// Top-level error union returned by every fallible operation of this crate.
#[derive(Debug, Clone, PartialEq, Eq)]
pub enum TaskError {
    WinError(WinError),
    ComError(ComError),
    TaskServiceError(TaskServiceError),
    Error(String),
}

/// Failures while initializing the runtime context or constructing the
/// service class object.
#[derive(Debug, Clone, PartialEq, Eq)]
pub enum ComError {
    /// A previous initialization chose a different concurrency model for
    /// this thread.
    RpcChangedMode,
    /// The security policy has already been initialized.
    RpcTooLate,
    /// None of the requested authentication services could be registered.
    NoGoodSecurityPackages,
    /// The requested class is not registered in the registration database.
    RegdbClassNotReg,
    /// The class cannot be created as part of an aggregate.
    ClassNoAggregation,
    /// The class does not implement the requested interface.
    NoInterface,
    GeneralError(WinError),
}

/// Common platform status failures.
#[derive(Debug, Clone, PartialEq, Eq)]
pub enum WinError {
    InvalidArg(String),
    OutOfMemory,
    Unexpected,
    Abort,
    AccessDenied,
    Fail,
    Handle,
    NoInterface,
    NotImpl,
    Pointer(String),
    UnknownError(String),
}

/// Failures while connecting to the scheduling service.
#[derive(Debug, Clone, PartialEq, Eq)]
pub enum TaskServiceError {
    /// Access is denied to connect to the scheduling service.
    AccessDenied,
    /// The scheduling service is not running.
    SchedulerServiceNotRunning,
    /// The server name could not be reached.
    BadNetPath,
    /// Remote-connection parameters are not supported for the target host.
    NotSupported,
    /// Common platform failures, see [`WinError`].
    WinError(WinError),
    /// Context-acquisition failures, see [`ComError`].
    ComError(ComError),
}

impl From<WinError> for TaskError {
    fn from(error: WinError) -> (r: Self) {
        TaskError::WinError(error)
    }
}

impl vstd::std_specs::convert::FromSpecImpl<WinError> for TaskError {
    open spec fn obeys_from_spec() -> bool {
        true
    }

    open spec fn from_spec(error: WinError) -> Self {
        TaskError::WinError(error)
    }
}

impl From<ComError> for TaskError {
    fn from(error: ComError) -> (r: Self) {
        TaskError::ComError(error)
    }
}

impl vstd::std_specs::convert::FromSpecImpl<ComError> for TaskError {
    open spec fn obeys_from_spec() -> bool {
        true
    }

    open spec fn from_spec(error: ComError) -> Self {
        TaskError::ComError(error)
    }
}

impl From<TaskServiceError> for TaskError {
    fn from(error: TaskServiceError) -> (r: Self) {
        TaskError::TaskServiceError(error)
    }
}

impl vstd::std_specs::convert::FromSpecImpl<TaskServiceError> for TaskError {
    open spec fn obeys_from_spec() -> bool {
        true
    }

    open spec fn from_spec(error: TaskServiceError) -> Self {
        TaskError::TaskServiceError(error)
    }
}

impl From<String> for TaskError {
    fn from(error: String) -> (r: Self) {
        TaskError::Error(error)
    }
}

impl vstd::std_specs::convert::FromSpecImpl<String> for TaskError {
    open spec fn obeys_from_spec() -> bool {
        true
    }

    open spec fn from_spec(error: String) -> Self {
        TaskError::Error(error)
    }
}

impl From<WinError> for ComError {
    fn from(error: WinError) -> (r: Self) {
        ComError::GeneralError(error)
    }
}

impl vstd::std_specs::convert::FromSpecImpl<WinError> for ComError {
    open spec fn obeys_from_spec() -> bool {
        true
    }

    open spec fn from_spec(error: WinError) -> Self {
        ComError::GeneralError(error)
    }
}

impl WinError {
    /// The text of this error, one fixed sentence per variant, with the
    /// free-form description appended where the variant carries one.
    pub open spec fn message_spec(self) -> Seq<char> {
        match self {
            WinError::InvalidArg(d) => "One or more arguments are not valid: "@ + d@,
            WinError::OutOfMemory => "Failed to allocate necessary memory"@,
            WinError::Unexpected => "Unexpected failure"@,
            WinError::Abort => "Operation aborted"@,
            WinError::AccessDenied => "General access denied error"@,
            WinError::Fail => "Unspecified failure"@,
            WinError::Handle => "Handle that is not valid"@,
            WinError::NoInterface => "No such interface supported"@,
            WinError::NotImpl => "Not implemented"@,
            WinError::Pointer(d) => "Pointer that is not valid: "@ + d@,
            WinError::UnknownError(d) => d@,
        }
    }

    /// A human-readable description of this error.
    pub fn message(&self) -> (r: String)
        ensures
            r@ == self.message_spec(),
    {
        match self {
            WinError::InvalidArg(d) => {
                let mut s = String::from_str("One or more arguments are not valid: ");
                s.append(d.as_str());
                proof {
                    assert(s@ =~= self.message_spec());
                }
                s
            },
            WinError::OutOfMemory => "Failed to allocate necessary memory".to_owned(),
            WinError::Unexpected => "Unexpected failure".to_owned(),
            WinError::Abort => "Operation aborted".to_owned(),
            WinError::AccessDenied => "General access denied error".to_owned(),
            WinError::Fail => "Unspecified failure".to_owned(),
            WinError::Handle => "Handle that is not valid".to_owned(),
            WinError::NoInterface => "No such interface supported".to_owned(),
            WinError::NotImpl => "Not implemented".to_owned(),
            WinError::Pointer(d) => {
                let mut s = String::from_str("Pointer that is not valid: ");
                s.append(d.as_str());
                proof {
                    assert(s@ =~= self.message_spec());
                }
                s
            },
            WinError::UnknownError(d) => d.clone(),
        }
    }
}

impl ComError {
    /// The text of this error, one fixed sentence per variant; the general
    /// variant reports the wrapped platform error's own text.
    pub open spec fn message_spec(self) -> Seq<char> {
        match self {
            ComError::RpcChangedMode => "A previous call to CoInitializeEx specified the concurrency model for this thread as multithread apartment (MTA). This could also indicate that a change from neutral-threaded apartment to single-threaded apartment has occurred."@,
            ComError::RpcTooLate => "CoInitializeSecurity has already been called."@,
            ComError::NoGoodSecurityPackages => "The asAuthSvc parameter was not NULL, and none of the authentication services in the list could be registered. Check the results saved in asAuthSvc for authentication service\u{2013}specific error codes."@,
            ComError::RegdbClassNotReg => "A specified class is not registered in the registration database. Also can indicate that the type of server you requested in the CLSCTX enumeration is not registered or the values for the server types in the registry are corrupt."@,
            ComError::ClassNoAggregation => "This class cannot be created as part of an aggregate."@,
            ComError::NoInterface => "The specified class does not implement the requested interface, or the controlling IUnknown does not expose the requested interface."@,
            ComError::GeneralError(w) => w.message_spec(),
        }
    }

    /// A human-readable description of this error.
    pub fn message(&self) -> (r: String)
        ensures
            r@ == self.message_spec(),
    {
        match self {
            ComError::RpcChangedMode => "A previous call to CoInitializeEx specified the concurrency model for this thread as multithread apartment (MTA). This could also indicate that a change from neutral-threaded apartment to single-threaded apartment has occurred.".to_owned(),
            ComError::RpcTooLate => "CoInitializeSecurity has already been called.".to_owned(),
            ComError::NoGoodSecurityPackages => "The asAuthSvc parameter was not NULL, and none of the authentication services in the list could be registered. Check the results saved in asAuthSvc for authentication service\u{2013}specific error codes.".to_owned(),
            ComError::RegdbClassNotReg => "A specified class is not registered in the registration database. Also can indicate that the type of server you requested in the CLSCTX enumeration is not registered or the values for the server types in the registry are corrupt.".to_owned(),
            ComError::ClassNoAggregation => "This class cannot be created as part of an aggregate.".to_owned(),
            ComError::NoInterface => "The specified class does not implement the requested interface, or the controlling IUnknown does not expose the requested interface.".to_owned(),
            ComError::GeneralError(w) => w.message(),
        }
    }
}

/// Whether a status code signals failure: failure codes have the high bit
/// set.
pub open spec fn spec_code_failed(code: u32) -> bool {
    code >= 0x8000_0000
}

/// Whether a status code signals failure, the severity test applied to
/// every raw code that comes back from the engine.
pub fn code_failed(code: u32) -> (r: bool)
    ensures
        r == spec_code_failed(code),
{
    code >= 0x8000_0000
}

/// Whether a failure code belongs to the closed set of common platform
/// codes that map to a dedicated [`WinError`] variant.
pub open spec fn is_common_code(code: u32) -> bool {
    ||| code == E_INVALIDARG
    ||| code == E_OUTOFMEMORY
    ||| code == E_UNEXPECTED
    ||| code == E_ABORT
    ||| code == E_ACCESSDENIED
    ||| code == E_FAIL
    ||| code == E_HANDLE
    ||| code == E_NOINTERFACE
    ||| code == E_NOTIMPL
    ||| code == E_POINTER
}

/// The text carried by the fallback variant for a code outside the closed
/// taxonomy: the raw code in hexadecimal.
pub open spec fn unknown_code_message(code: u32) -> Seq<char> {
    "Unrecognized status code 0x"@ + hex_digits(code)
}

/// How a raw platform status code maps to [`WinError`]: each code of the
/// common set to its dedicated variant, anything else preserved in the
/// fallback variant together with its raw code.
pub open spec fn is_win_error_of(code: u32, r: WinError) -> bool {
    if code == E_INVALIDARG {
        r matches WinError::InvalidArg(d) && d@ == Seq::<char>::empty()
    } else if code == E_OUTOFMEMORY {
        r == WinError::OutOfMemory
    } else if code == E_UNEXPECTED {
        r == WinError::Unexpected
    } else if code == E_ABORT {
        r == WinError::Abort
    } else if code == E_ACCESSDENIED {
        r == WinError::AccessDenied
    } else if code == E_FAIL {
        r == WinError::Fail
    } else if code == E_HANDLE {
        r == WinError::Handle
    } else if code == E_NOINTERFACE {
        r == WinError::NoInterface
    } else if code == E_NOTIMPL {
        r == WinError::NotImpl
    } else if code == E_POINTER {
        r matches WinError::Pointer(d) && d@ == Seq::<char>::empty()
    } else {
        r matches WinError::UnknownError(d) && d@ == unknown_code_message(code)
    }
}

/// Maps a raw platform status code to the platform layer of the taxonomy.
pub fn win_error_of(code: u32) -> (r: WinError)
    ensures
        is_win_error_of(code, r),
{
    if code == E_INVALIDARG {
        WinError::InvalidArg(String::new())
    } else if code == E_OUTOFMEMORY {
        WinError::OutOfMemory
    } else if code == E_UNEXPECTED {
        WinError::Unexpected
    } else if code == E_ABORT {
        WinError::Abort
    } else if code == E_ACCESSDENIED {
        WinError::AccessDenied
    } else if code == E_FAIL {
        WinError::Fail
    } else if code == E_HANDLE {
        WinError::Handle
    } else if code == E_NOINTERFACE {
        WinError::NoInterface
    } else if code == E_NOTIMPL {
        WinError::NotImpl
    } else if code == E_POINTER {
        WinError::Pointer(String::new())
    } else {
        let mut s = String::from_str("Unrecognized status code 0x");
        let h = hex_code(code);
        s.append(h.as_str());
        proof {
            assert(s@ =~= unknown_code_message(code));
        }
        WinError::UnknownError(s)
    }
}

/// How a failure of runtime-context initialization maps to [`ComError`]:
/// the concurrency-model conflict to its own variant, anything else to the
/// platform layer.
pub open spec fn is_com_init_error_of(code: u32, r: ComError) -> bool {
    if code == RPC_E_CHANGED_MODE {
        r == ComError::RpcChangedMode
    } else {
        r matches ComError::GeneralError(w) && is_win_error_of(code, w)
    }
}

/// Maps a failure code of runtime-context initialization.
pub fn com_init_error_of(code: u32) -> (r: ComError)
    ensures
        is_com_init_error_of(code, r),
{
    if code == RPC_E_CHANGED_MODE {
        ComError::RpcChangedMode
    } else {
        ComError::GeneralError(win_error_of(code))
    }
}

/// How a failure of security-policy initialization maps to [`ComError`].
pub open spec fn is_security_init_error_of(code: u32, r: ComError) -> bool {
    if code == RPC_E_TOO_LATE {
        r == ComError::RpcTooLate
    } else if code == RPC_E_NO_GOOD_SECURITY_PACKAGES {
        r == ComError::NoGoodSecurityPackages
    } else {
        r matches ComError::GeneralError(w) && is_win_error_of(code, w)
    }
}

/// Maps a failure code of security-policy initialization.
pub fn security_init_error_of(code: u32) -> (r: ComError)
    ensures
        is_security_init_error_of(code, r),
{
    if code == RPC_E_TOO_LATE {
        ComError::RpcTooLate
    } else if code == RPC_E_NO_GOOD_SECURITY_PACKAGES {
        ComError::NoGoodSecurityPackages
    } else {
        ComError::GeneralError(win_error_of(code))
    }
}

/// How a failure of service-class construction maps to [`ComError`]:
/// class-not-registered, cannot-aggregate and interface-not-supported each
/// to their own variant, anything else to the platform layer.
pub open spec fn is_create_instance_error_of(code: u32, r: ComError) -> bool {
    if code == REGDB_E_CLASSNOTREG {
        r == ComError::RegdbClassNotReg
    } else if code == CLASS_E_NOAGGREGATION {
        r == ComError::ClassNoAggregation
    } else if code == E_NOINTERFACE {
        r == ComError::NoInterface
    } else {
        r matches ComError::GeneralError(w) && is_win_error_of(code, w)
    }
}

/// Maps a failure code of service-class construction.
pub fn create_instance_error_of(code: u32) -> (r: ComError)
    ensures
        is_create_instance_error_of(code, r),
{
    if code == REGDB_E_CLASSNOTREG {
        ComError::RegdbClassNotReg
    } else if code == CLASS_E_NOAGGREGATION {
        ComError::ClassNoAggregation
    } else if code == E_NOINTERFACE {
        ComError::NoInterface
    } else {
        ComError::GeneralError(win_error_of(code))
    }
}

/// How a failure of the service-connection handshake maps to
/// [`TaskServiceError`]: the four connection-specific codes each to their
/// own variant, anything else to the platform layer.
pub open spec fn is_connect_error_of(code: u32, r: TaskServiceError) -> bool {
    if code == E_ACCESSDENIED {
        r == TaskServiceError::AccessDenied
    } else if code == SCHED_E_SERVICE_NOT_RUNNING {
        r == TaskServiceError::SchedulerServiceNotRunning
    } else if code == ERROR_BAD_NETPATH_HRESULT {
        r == TaskServiceError::BadNetPath
    } else if code == ERROR_NOT_SUPPORTED_HRESULT {
        r == TaskServiceError::NotSupported
    } else {
        r matches TaskServiceError::WinError(w) && is_win_error_of(code, w)
    }
}

/// Maps a failure code of the service-connection handshake.
pub fn connect_error_of(code: u32) -> (r: TaskServiceError)
    ensures
        is_connect_error_of(code, r),
{
    if code == E_ACCESSDENIED {
        TaskServiceError::AccessDenied
    } else if code == SCHED_E_SERVICE_NOT_RUNNING {
        TaskServiceError::SchedulerServiceNotRunning
    } else if code == ERROR_BAD_NETPATH_HRESULT {
        TaskServiceError::BadNetPath
    } else if code == ERROR_NOT_SUPPORTED_HRESULT {
        TaskServiceError::NotSupported
    } else {
        TaskServiceError::WinError(win_error_of(code))
    }
}

} // verus!
