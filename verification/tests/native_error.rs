use jvmti::error::to_failure;
use jvmti::error::to_result;
use jvmti::error::translate_error;
use jvmti::error::wrap_error;
use jvmti::error::JvmtiErrorTranslator;
use jvmti::error::NativeError;
use jvmti::error::NativeErrorTranslator;

#[test]
fn wrap_error_knows_the_codes_of_the_interface() {
    assert_eq!(wrap_error(0), NativeError::NoError);
    assert_eq!(wrap_error(10), NativeError::InvalidThread);
    assert_eq!(wrap_error(15), NativeError::ThreadNotAlive);
    assert_eq!(wrap_error(20), NativeError::InvalidObject);
    assert_eq!(wrap_error(25), NativeError::InvalidFieldId);
    assert_eq!(wrap_error(31), NativeError::NoMoreFrames);
    assert_eq!(wrap_error(35), NativeError::InvalidSlot);
    assert_eq!(wrap_error(41), NativeError::NotFound);
    assert_eq!(wrap_error(52), NativeError::Interrupt);
    assert_eq!(wrap_error(60), NativeError::InvalidClassFormat);
    assert_eq!(wrap_error(71), NativeError::UnsupportedRedefinitionMethodModifiersChanged);
    assert_eq!(wrap_error(79), NativeError::UnmodifiableClass);
    assert_eq!(wrap_error(98), NativeError::NotAvailable);
    assert_eq!(wrap_error(99), NativeError::MustPossessCapability);
    assert_eq!(wrap_error(100), NativeError::NullPointer);
    assert_eq!(wrap_error(106), NativeError::ClassLoaderUnsupported);
    assert_eq!(wrap_error(110), NativeError::OutOfMemory);
    assert_eq!(wrap_error(113), NativeError::UnexpectedInternalError);
    assert_eq!(wrap_error(115), NativeError::ThreadNotAttached);
    assert_eq!(wrap_error(116), NativeError::Disconnected);
    assert_eq!(wrap_error(999999), NativeError::NotImplemented);
}

#[test]
fn wrap_error_gives_unknown_for_other_codes() {
    for code in [1u32, 9, 16, 30, 33, 36, 42, 72, 97, 105, 107, 114, 117, 1000, u32::MAX] {
        assert_eq!(wrap_error(code), NativeError::UnknownError);
    }
}

#[test]
fn translate_error_says_what_the_error_means() {
    assert_eq!(translate_error(&NativeError::NoError), "No error has occurred.");
    assert_eq!(translate_error(&NativeError::InvalidThread), "The passed thread is not a valid thread.");
    assert_eq!(translate_error(&NativeError::InvalidSlot), "Invalid slot.");
    assert_eq!(
        translate_error(&NativeError::NotMonitorOwner),
        "This thread doesn't own the raw monitor."
    );
    assert_eq!(translate_error(&NativeError::NullPointer), "Pointer is unexpectedly NULL.");
    assert_eq!(
        translate_error(&NativeError::NotImplemented),
        "This function is not implemented yet"
    );
    assert_eq!(translate_error(&NativeError::UnknownError), "Unknown error.");
}

#[test]
fn codes_translate_through_the_traits() {
    let code: u32 = 112;
    let error = code.translate();
    assert_eq!(error, NativeError::WrongPhase);
    assert_eq!(
        NativeErrorTranslator::translate(&error),
        "The desired functionality is not available in the current phase. Always returned if the virtual machine has completed running."
    );
    let unknown: u32 = 7;
    assert_eq!(JvmtiErrorTranslator::translate(&unknown), NativeError::UnknownError);
}

#[test]
fn code_zero_is_success_and_every_other_code_an_error() {
    assert_eq!(to_result(0, 17), Ok(17));
    assert_eq!(to_result(0, "name"), Ok("name"));
    assert_eq!(to_result(23, 17), Err(NativeError::InvalidMethodId));
    assert_eq!(to_result(101, ()), Err(NativeError::AbsentInformation));
    assert_eq!(to_result(5, 17), Err(NativeError::UnknownError));
    assert_eq!(to_failure(0), None);
    assert_eq!(to_failure(103), Some(NativeError::IllegalArgument));
    assert_eq!(to_failure(111), Some(NativeError::NotEnabled));
    assert_eq!(to_failure(8), Some(NativeError::UnknownError));
}
