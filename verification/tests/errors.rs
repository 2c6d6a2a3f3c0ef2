use task_scheduler::error::{
    com_init_error_of, connect_error_of, create_instance_error_of, security_init_error_of,
    win_error_of, ComError, TaskError, TaskServiceError, WinError, CLASS_E_NOAGGREGATION,
    E_ABORT, E_ACCESSDENIED, E_FAIL, E_INVALIDARG, E_NOINTERFACE, E_NOTIMPL, E_OUTOFMEMORY,
    E_POINTER, E_UNEXPECTED, REGDB_E_CLASSNOTREG, RPC_E_CHANGED_MODE,
    RPC_E_NO_GOOD_SECURITY_PACKAGES, RPC_E_TOO_LATE, SCHED_E_SERVICE_NOT_RUNNING,
};
use task_scheduler::wire::hex_code;

#[test]
fn win_error_common_codes() {
    assert_eq!(win_error_of(E_OUTOFMEMORY), WinError::OutOfMemory);
    assert_eq!(win_error_of(E_UNEXPECTED), WinError::Unexpected);
    assert_eq!(win_error_of(E_ABORT), WinError::Abort);
    assert_eq!(win_error_of(E_ACCESSDENIED), WinError::AccessDenied);
    assert_eq!(win_error_of(E_FAIL), WinError::Fail);
    assert_eq!(win_error_of(E_NOINTERFACE), WinError::NoInterface);
    assert_eq!(win_error_of(E_NOTIMPL), WinError::NotImpl);
    assert_eq!(win_error_of(E_INVALIDARG), WinError::InvalidArg(String::new()));
    assert_eq!(win_error_of(E_POINTER), WinError::Pointer(String::new()));
}

#[test]
fn win_error_unknown_code_carries_hex() {
    match win_error_of(0x8004_1315) {
        WinError::UnknownError(m) => {
            assert_eq!(m, "Unrecognized status code 0x80041315");
        }
        other => panic!("expected the fallback variant, got {:?}", other),
    }
}

#[test]
fn com_init_error_mapping() {
    assert_eq!(com_init_error_of(RPC_E_CHANGED_MODE), ComError::RpcChangedMode);
    assert_eq!(
        com_init_error_of(E_OUTOFMEMORY),
        ComError::GeneralError(WinError::OutOfMemory)
    );
}

#[test]
fn security_init_error_mapping() {
    assert_eq!(security_init_error_of(RPC_E_TOO_LATE), ComError::RpcTooLate);
    assert_eq!(
        security_init_error_of(RPC_E_NO_GOOD_SECURITY_PACKAGES),
        ComError::NoGoodSecurityPackages
    );
    assert_eq!(
        security_init_error_of(E_OUTOFMEMORY),
        ComError::GeneralError(WinError::OutOfMemory)
    );
}

#[test]
fn create_instance_error_mapping() {
    assert_eq!(
        create_instance_error_of(REGDB_E_CLASSNOTREG),
        ComError::RegdbClassNotReg
    );
    assert_eq!(
        create_instance_error_of(CLASS_E_NOAGGREGATION),
        ComError::ClassNoAggregation
    );
    assert_eq!(create_instance_error_of(E_NOINTERFACE), ComError::NoInterface);
    assert_eq!(
        create_instance_error_of(E_POINTER),
        ComError::GeneralError(WinError::Pointer(String::new()))
    );
}

#[test]
fn connect_error_mapping() {
    assert_eq!(connect_error_of(E_ACCESSDENIED), TaskServiceError::AccessDenied);
    assert_eq!(
        connect_error_of(SCHED_E_SERVICE_NOT_RUNNING),
        TaskServiceError::SchedulerServiceNotRunning
    );
    assert_eq!(connect_error_of(0x8007_0035), TaskServiceError::BadNetPath);
    assert_eq!(connect_error_of(0x8007_0032), TaskServiceError::NotSupported);
    assert_eq!(
        connect_error_of(E_OUTOFMEMORY),
        TaskServiceError::WinError(WinError::OutOfMemory)
    );
}

#[test]
fn win_error_messages() {
    assert_eq!(
        WinError::OutOfMemory.message(),
        "Failed to allocate necessary memory"
    );
    assert_eq!(WinError::Unexpected.message(), "Unexpected failure");
    assert_eq!(WinError::Abort.message(), "Operation aborted");
    assert_eq!(WinError::AccessDenied.message(), "General access denied error");
    assert_eq!(WinError::Fail.message(), "Unspecified failure");
    assert_eq!(WinError::Handle.message(), "Handle that is not valid");
    assert_eq!(WinError::NoInterface.message(), "No such interface supported");
    assert_eq!(WinError::NotImpl.message(), "Not implemented");
    assert_eq!(
        WinError::InvalidArg("flags".to_string()).message(),
        "One or more arguments are not valid: flags"
    );
    assert_eq!(
        WinError::Pointer("null output".to_string()).message(),
        "Pointer that is not valid: null output"
    );
    assert_eq!(WinError::UnknownError("raw".to_string()).message(), "raw");
}

#[test]
fn com_error_messages() {
    assert_eq!(
        ComError::RpcTooLate.message(),
        "CoInitializeSecurity has already been called."
    );
    assert_eq!(
        ComError::RpcChangedMode.message(),
        "A previous call to CoInitializeEx specified the concurrency model for this thread as multithread apartment (MTA). This could also indicate that a change from neutral-threaded apartment to single-threaded apartment has occurred."
    );
    assert_eq!(
        ComError::NoGoodSecurityPackages.message(),
        "The asAuthSvc parameter was not NULL, and none of the authentication services in the list could be registered. Check the results saved in asAuthSvc for authentication service\u{2013}specific error codes."
    );
    assert_eq!(
        ComError::RegdbClassNotReg.message(),
        "A specified class is not registered in the registration database. Also can indicate that the type of server you requested in the CLSCTX enumeration is not registered or the values for the server types in the registry are corrupt."
    );
    assert_eq!(
        ComError::ClassNoAggregation.message(),
        "This class cannot be created as part of an aggregate."
    );
    assert_eq!(
        ComError::NoInterface.message(),
        "The specified class does not implement the requested interface, or the controlling IUnknown does not expose the requested interface."
    );
    assert_eq!(
        ComError::GeneralError(WinError::OutOfMemory).message(),
        "Failed to allocate necessary memory"
    );
}

#[test]
fn task_error_from_conversions() {
    assert_eq!(
        TaskError::from(WinError::Fail),
        TaskError::WinError(WinError::Fail)
    );
    assert_eq!(
        TaskError::from(ComError::RpcChangedMode),
        TaskError::ComError(ComError::RpcChangedMode)
    );
    assert_eq!(
        TaskError::from(TaskServiceError::BadNetPath),
        TaskError::TaskServiceError(TaskServiceError::BadNetPath)
    );
    assert_eq!(
        TaskError::from("free-form".to_string()),
        TaskError::Error("free-form".to_string())
    );
    assert_eq!(
        ComError::from(WinError::Abort),
        ComError::GeneralError(WinError::Abort)
    );
}

#[test]
fn hex_code_renders_all_nibbles() {
    assert_eq!(hex_code(0x8004_1315), "80041315");
    assert_eq!(hex_code(0), "00000000");
    assert_eq!(hex_code(0xDEAD_BEEF), "DEADBEEF");
    assert_eq!(hex_code(u32::MAX), "FFFFFFFF");
}
