//! The errors of the JVM tool interface: their numeric codes and what they
//! mean.
use vstd::prelude::*;

verus! {

/// An error of the JVM tool interface.
#[derive(Clone, Copy, Debug, PartialEq, Eq, Structural)]
pub enum NativeError {
    NoError,
    InvalidThread,
    InvalidThreadGroup,
    InvalidPriority,
    ThreadNotSuspended,
    ThreadSuspended,
    ThreadNotAlive,
    InvalidObject,
    InvalidClass,
    ClassNotPrepared,
    InvalidMethodId,
    InvalidLocation,
    InvalidFieldId,
    NoMoreFrames,
    OpaqueFrame,
    TypeMismatch,
    InvalidSlot,
    Duplicate,
    NotFound,
    InvalidMonitor,
    NotMonitorOwner,
    Interrupt,
    InvalidClassFormat,
    CircularClassDefinition,
    FailsVerification,
    UnsupportedRedefinitionMethodAdded,
    UnsupportedRedefinitionSchemaChanged,
    InvalidTypestate,
    UnsupportedRedefinitionHierarchyChanged,
    UnsupportedRedefinitionMethodDeleted,
    UnsupportedVersion,
    NamesDontMatch,
    UnsupportedRedefinitionClassModifiersChanged,
    UnsupportedRedefinitionMethodModifiersChanged,
    UnmodifiableClass,
    NotAvailable,
    MustPossessCapability,
    NullPointer,
    AbsentInformation,
    InvalidEventType,
    IllegalArgument,
    NativeMethod,
    ClassLoaderUnsupported,
    OutOfMemory,
    NotEnabled,
    WrongPhase,
    UnexpectedInternalError,
    ThreadNotAttached,
    Disconnected,
    /// A function of this library that is not written yet.
    NotImplemented,
    /// A code that the interface does not define.
    UnknownError,
}

impl NativeError {
    /// The code of the error, if the interface defines one for it.
    pub open spec fn code(self) -> Option<u32> {
        match self {
            NativeError::NoError => Some(0u32),
            NativeError::InvalidThread => Some(10u32),
            NativeError::InvalidThreadGroup => Some(11u32),
            NativeError::InvalidPriority => Some(12u32),
            NativeError::ThreadNotSuspended => Some(13u32),
            NativeError::ThreadSuspended => Some(14u32),
            NativeError::ThreadNotAlive => Some(15u32),
            NativeError::InvalidObject => Some(20u32),
            NativeError::InvalidClass => Some(21u32),
            NativeError::ClassNotPrepared => Some(22u32),
            NativeError::InvalidMethodId => Some(23u32),
            NativeError::InvalidLocation => Some(24u32),
            NativeError::InvalidFieldId => Some(25u32),
            NativeError::NoMoreFrames => Some(31u32),
            NativeError::OpaqueFrame => Some(32u32),
            NativeError::TypeMismatch => Some(34u32),
            NativeError::InvalidSlot => Some(35u32),
            NativeError::Duplicate => Some(40u32),
            NativeError::NotFound => Some(41u32),
            NativeError::InvalidMonitor => Some(50u32),
            NativeError::NotMonitorOwner => Some(51u32),
            NativeError::Interrupt => Some(52u32),
            NativeError::InvalidClassFormat => Some(60u32),
            NativeError::CircularClassDefinition => Some(61u32),
            NativeError::FailsVerification => Some(62u32),
            NativeError::UnsupportedRedefinitionMethodAdded => Some(63u32),
            NativeError::UnsupportedRedefinitionSchemaChanged => Some(64u32),
            NativeError::InvalidTypestate => Some(65u32),
            NativeError::UnsupportedRedefinitionHierarchyChanged => Some(66u32),
            NativeError::UnsupportedRedefinitionMethodDeleted => Some(67u32),
            NativeError::UnsupportedVersion => Some(68u32),
            NativeError::NamesDontMatch => Some(69u32),
            NativeError::UnsupportedRedefinitionClassModifiersChanged => Some(70u32),
            NativeError::UnsupportedRedefinitionMethodModifiersChanged => Some(71u32),
            NativeError::UnmodifiableClass => Some(79u32),
            NativeError::NotAvailable => Some(98u32),
            NativeError::MustPossessCapability => Some(99u32),
            NativeError::NullPointer => Some(100u32),
            NativeError::AbsentInformation => Some(101u32),
            NativeError::InvalidEventType => Some(102u32),
            NativeError::IllegalArgument => Some(103u32),
            NativeError::NativeMethod => Some(104u32),
            NativeError::ClassLoaderUnsupported => Some(106u32),
            NativeError::OutOfMemory => Some(110u32),
            NativeError::NotEnabled => Some(111u32),
            NativeError::WrongPhase => Some(112u32),
            NativeError::UnexpectedInternalError => Some(113u32),
            NativeError::ThreadNotAttached => Some(115u32),
            NativeError::Disconnected => Some(116u32),
            NativeError::NotImplemented => Some(999999u32),
            NativeError::UnknownError => None,
        }
    }
}

/// The error with the code `code`; `UnknownError` where there is none.
pub open spec fn error_of_code(code: u32) -> NativeError {
    match code {
        0 => NativeError::NoError,
        10 => NativeError::InvalidThread,
        11 => NativeError::InvalidThreadGroup,
        12 => NativeError::InvalidPriority,
        13 => NativeError::ThreadNotSuspended,
        14 => NativeError::ThreadSuspended,
        15 => NativeError::ThreadNotAlive,
        20 => NativeError::InvalidObject,
        21 => NativeError::InvalidClass,
        22 => NativeError::ClassNotPrepared,
        23 => NativeError::InvalidMethodId,
        24 => NativeError::InvalidLocation,
        25 => NativeError::InvalidFieldId,
        31 => NativeError::NoMoreFrames,
        32 => NativeError::OpaqueFrame,
        34 => NativeError::TypeMismatch,
        35 => NativeError::InvalidSlot,
        40 => NativeError::Duplicate,
        41 => NativeError::NotFound,
        50 => NativeError::InvalidMonitor,
        51 => NativeError::NotMonitorOwner,
        52 => NativeError::Interrupt,
        60 => NativeError::InvalidClassFormat,
        61 => NativeError::CircularClassDefinition,
        62 => NativeError::FailsVerification,
        63 => NativeError::UnsupportedRedefinitionMethodAdded,
        64 => NativeError::UnsupportedRedefinitionSchemaChanged,
        65 => NativeError::InvalidTypestate,
        66 => NativeError::UnsupportedRedefinitionHierarchyChanged,
        67 => NativeError::UnsupportedRedefinitionMethodDeleted,
        68 => NativeError::UnsupportedVersion,
        69 => NativeError::NamesDontMatch,
        70 => NativeError::UnsupportedRedefinitionClassModifiersChanged,
        71 => NativeError::UnsupportedRedefinitionMethodModifiersChanged,
        79 => NativeError::UnmodifiableClass,
        98 => NativeError::NotAvailable,
        99 => NativeError::MustPossessCapability,
        100 => NativeError::NullPointer,
        101 => NativeError::AbsentInformation,
        102 => NativeError::InvalidEventType,
        103 => NativeError::IllegalArgument,
        104 => NativeError::NativeMethod,
        106 => NativeError::ClassLoaderUnsupported,
        110 => NativeError::OutOfMemory,
        111 => NativeError::NotEnabled,
        112 => NativeError::WrongPhase,
        113 => NativeError::UnexpectedInternalError,
        115 => NativeError::ThreadNotAttached,
        116 => NativeError::Disconnected,
        999999 => NativeError::NotImplemented,
        _ => NativeError::UnknownError,
    }
}

/// What the error means, in words.
pub open spec fn message_of(e: NativeError) -> Seq<char> {
    match e {
        NativeError::NoError => "No error has occurred."@,
        NativeError::InvalidThread => "The passed thread is not a valid thread."@,
        NativeError::InvalidThreadGroup => "Thread group invalid."@,
        NativeError::InvalidPriority => "Invalid priority."@,
        NativeError::ThreadNotSuspended => "Thread was not suspended."@,
        NativeError::ThreadSuspended => "Thread already suspended."@,
        NativeError::ThreadNotAlive => "This operation requires the thread to be alive--that is, it must be started and not yet have died."@,
        NativeError::InvalidObject => "Invalid object."@,
        NativeError::InvalidClass => "Invalid class."@,
        NativeError::ClassNotPrepared => "The class has been loaded but not yet prepared."@,
        NativeError::InvalidMethodId => "Invalid method."@,
        NativeError::InvalidLocation => "Invalid location."@,
        NativeError::InvalidFieldId => "Invalid field."@,
        NativeError::NoMoreFrames => "There are no Java programming language or JNI stack frames at the specified depth."@,
        NativeError::OpaqueFrame => "Information about the frame is not available (e.g. for native frames)."@,
        NativeError::TypeMismatch => "The variable is not an appropriate type for the function used."@,
        NativeError::InvalidSlot => "Invalid slot."@,
        NativeError::Duplicate => "Item already set."@,
        NativeError::NotFound => "Desired element (e.g. field or breakpoint) not found."@,
        NativeError::InvalidMonitor => "Invalid raw monitor."@,
        NativeError::NotMonitorOwner => "This thread doesn't own the raw monitor."@,
        NativeError::Interrupt => "The call has been interrupted before completion."@,
        NativeError::InvalidClassFormat => "A new class file is malformed (the VM would return a ClassFormatError)."@,
        NativeError::CircularClassDefinition => "The new class file definitions would lead to a circular definition (the VM would return a ClassCircularityError)."@,
        NativeError::FailsVerification => "The class bytes fail verification."@,
        NativeError::UnsupportedRedefinitionMethodAdded => "A new class file would require adding a method."@,
        NativeError::UnsupportedRedefinitionSchemaChanged => "A new class version changes a field."@,
        NativeError::InvalidTypestate => "The state of the thread has been modified, and is now inconsistent."@,
        NativeError::UnsupportedRedefinitionHierarchyChanged => "A direct superclass is different for the new class version, or the set of directly implemented interfaces is different."@,
        NativeError::UnsupportedRedefinitionMethodDeleted => "A new class version does not declare a method declared in the old class version."@,
        NativeError::UnsupportedVersion => "A new class file has a version number not supported by this VM."@,
        NativeError::NamesDontMatch => "The class name defined in the new class file is different from the name in the old class object."@,
        NativeError::UnsupportedRedefinitionClassModifiersChanged => "A new class version has different modifiers."@,
        NativeError::UnsupportedRedefinitionMethodModifiersChanged => "A method in the new class version has different modifiers than its counterpart in the old class version."@,
        NativeError::UnmodifiableClass => "The class cannot be modified."@,
        NativeError::NotAvailable => "The functionality is not available in this virtual machine."@,
        NativeError::MustPossessCapability => "The capability being used is false in this environment."@,
        NativeError::NullPointer => "Pointer is unexpectedly NULL."@,
        NativeError::AbsentInformation => "The requested information is not available."@,
        NativeError::InvalidEventType => "The specified event type ID is not recognized."@,
        NativeError::IllegalArgument => "Illegal argument."@,
        NativeError::NativeMethod => "The requested information is not available for native method."@,
        NativeError::ClassLoaderUnsupported => "The class loader does not support this operation."@,
        NativeError::OutOfMemory => "The function attempted to allocate memory and no more memory was available for allocation."@,
        NativeError::NotEnabled => "The desired functionality has not been enabled in this virtual machine."@,
        NativeError::WrongPhase => "The desired functionality is not available in the current phase. Always returned if the virtual machine has completed running."@,
        NativeError::UnexpectedInternalError => "An unexpected internal error has occurred."@,
        NativeError::ThreadNotAttached => "The thread being used to call this function is not attached to the virtual machine. Calls must be made from attached threads."@,
        NativeError::Disconnected => "The JVM TI environment provided is no longer connected or is not an environment."@,
        NativeError::NotImplemented => "This function is not implemented yet"@,
        NativeError::UnknownError => "Unknown error."@,
    }
}

/// Turns a native error code into an error.
pub fn wrap_error(code: u32) -> (r: NativeError)
    ensures
        r == error_of_code(code),
{
    match code {
        0 => NativeError::NoError,
        10 => NativeError::InvalidThread,
        11 => NativeError::InvalidThreadGroup,
        12 => NativeError::InvalidPriority,
        13 => NativeError::ThreadNotSuspended,
        14 => NativeError::ThreadSuspended,
        15 => NativeError::ThreadNotAlive,
        20 => NativeError::InvalidObject,
        21 => NativeError::InvalidClass,
        22 => NativeError::ClassNotPrepared,
        23 => NativeError::InvalidMethodId,
        24 => NativeError::InvalidLocation,
        25 => NativeError::InvalidFieldId,
        31 => NativeError::NoMoreFrames,
        32 => NativeError::OpaqueFrame,
        34 => NativeError::TypeMismatch,
        35 => NativeError::InvalidSlot,
        40 => NativeError::Duplicate,
        41 => NativeError::NotFound,
        50 => NativeError::InvalidMonitor,
        51 => NativeError::NotMonitorOwner,
        52 => NativeError::Interrupt,
        60 => NativeError::InvalidClassFormat,
        61 => NativeError::CircularClassDefinition,
        62 => NativeError::FailsVerification,
        63 => NativeError::UnsupportedRedefinitionMethodAdded,
        64 => NativeError::UnsupportedRedefinitionSchemaChanged,
        65 => NativeError::InvalidTypestate,
        66 => NativeError::UnsupportedRedefinitionHierarchyChanged,
        67 => NativeError::UnsupportedRedefinitionMethodDeleted,
        68 => NativeError::UnsupportedVersion,
        69 => NativeError::NamesDontMatch,
        70 => NativeError::UnsupportedRedefinitionClassModifiersChanged,
        71 => NativeError::UnsupportedRedefinitionMethodModifiersChanged,
        79 => NativeError::UnmodifiableClass,
        98 => NativeError::NotAvailable,
        99 => NativeError::MustPossessCapability,
        100 => NativeError::NullPointer,
        101 => NativeError::AbsentInformation,
        102 => NativeError::InvalidEventType,
        103 => NativeError::IllegalArgument,
        104 => NativeError::NativeMethod,
        106 => NativeError::ClassLoaderUnsupported,
        110 => NativeError::OutOfMemory,
        111 => NativeError::NotEnabled,
        112 => NativeError::WrongPhase,
        113 => NativeError::UnexpectedInternalError,
        115 => NativeError::ThreadNotAttached,
        116 => NativeError::Disconnected,
        999999 => NativeError::NotImplemented,
        _ => NativeError::UnknownError,
    }
}

/// Turns an error into a sentence that says what it means.
pub fn translate_error(code: &NativeError) -> (r: String)
    ensures
        r@ == message_of(*code),
{
    let text: &str = match code {
        NativeError::NoError => "No error has occurred.",
        NativeError::InvalidThread => "The passed thread is not a valid thread.",
        NativeError::InvalidThreadGroup => "Thread group invalid.",
        NativeError::InvalidPriority => "Invalid priority.",
        NativeError::ThreadNotSuspended => "Thread was not suspended.",
        NativeError::ThreadSuspended => "Thread already suspended.",
        NativeError::ThreadNotAlive => "This operation requires the thread to be alive--that is, it must be started and not yet have died.",
        NativeError::InvalidObject => "Invalid object.",
        NativeError::InvalidClass => "Invalid class.",
        NativeError::ClassNotPrepared => "The class has been loaded but not yet prepared.",
        NativeError::InvalidMethodId => "Invalid method.",
        NativeError::InvalidLocation => "Invalid location.",
        NativeError::InvalidFieldId => "Invalid field.",
        NativeError::NoMoreFrames => "There are no Java programming language or JNI stack frames at the specified depth.",
        NativeError::OpaqueFrame => "Information about the frame is not available (e.g. for native frames).",
        NativeError::TypeMismatch => "The variable is not an appropriate type for the function used.",
        NativeError::InvalidSlot => "Invalid slot.",
        NativeError::Duplicate => "Item already set.",
        NativeError::NotFound => "Desired element (e.g. field or breakpoint) not found.",
        NativeError::InvalidMonitor => "Invalid raw monitor.",
        NativeError::NotMonitorOwner => "This thread doesn't own the raw monitor.",
        NativeError::Interrupt => "The call has been interrupted before completion.",
        NativeError::InvalidClassFormat => "A new class file is malformed (the VM would return a ClassFormatError).",
        NativeError::CircularClassDefinition => "The new class file definitions would lead to a circular definition (the VM would return a ClassCircularityError).",
        NativeError::FailsVerification => "The class bytes fail verification.",
        NativeError::UnsupportedRedefinitionMethodAdded => "A new class file would require adding a method.",
        NativeError::UnsupportedRedefinitionSchemaChanged => "A new class version changes a field.",
        NativeError::InvalidTypestate => "The state of the thread has been modified, and is now inconsistent.",
        NativeError::UnsupportedRedefinitionHierarchyChanged => "A direct superclass is different for the new class version, or the set of directly implemented interfaces is different.",
        NativeError::UnsupportedRedefinitionMethodDeleted => "A new class version does not declare a method declared in the old class version.",
        NativeError::UnsupportedVersion => "A new class file has a version number not supported by this VM.",
        NativeError::NamesDontMatch => "The class name defined in the new class file is different from the name in the old class object.",
        NativeError::UnsupportedRedefinitionClassModifiersChanged => "A new class version has different modifiers.",
        NativeError::UnsupportedRedefinitionMethodModifiersChanged => "A method in the new class version has different modifiers than its counterpart in the old class version.",
        NativeError::UnmodifiableClass => "The class cannot be modified.",
        NativeError::NotAvailable => "The functionality is not available in this virtual machine.",
        NativeError::MustPossessCapability => "The capability being used is false in this environment.",
        NativeError::NullPointer => "Pointer is unexpectedly NULL.",
        NativeError::AbsentInformation => "The requested information is not available.",
        NativeError::InvalidEventType => "The specified event type ID is not recognized.",
        NativeError::IllegalArgument => "Illegal argument.",
        NativeError::NativeMethod => "The requested information is not available for native method.",
        NativeError::ClassLoaderUnsupported => "The class loader does not support this operation.",
        NativeError::OutOfMemory => "The function attempted to allocate memory and no more memory was available for allocation.",
        NativeError::NotEnabled => "The desired functionality has not been enabled in this virtual machine.",
        NativeError::WrongPhase => "The desired functionality is not available in the current phase. Always returned if the virtual machine has completed running.",
        NativeError::UnexpectedInternalError => "An unexpected internal error has occurred.",
        NativeError::ThreadNotAttached => "The thread being used to call this function is not attached to the virtual machine. Calls must be made from attached threads.",
        NativeError::Disconnected => "The JVM TI environment provided is no longer connected or is not an environment.",
        NativeError::NotImplemented => "This function is not implemented yet",
        NativeError::UnknownError => "Unknown error.",
    };
    text.to_owned()
}

/// What a native function gave: `value` where its code says that no error
/// has occurred, and else the error of the code.
pub open spec fn result_of_code<T>(code: u32, value: T) -> Result<T, NativeError> {
    if code == 0 {
        Ok(value)
    } else {
        Err(error_of_code(code))
    }
}

/// Turns the code that a native function returned, and the value that it
/// filled in, into a result.
pub fn to_result<T>(code: u32, value: T) -> (r: Result<T, NativeError>)
    ensures
        r == result_of_code(code, value),
{
    match wrap_error(code) {
        NativeError::NoError => Ok(value),
        err => Err(err),
    }
}

/// Turns the code that a native function returned into the error that it
/// reports, if it reports one.
pub fn to_failure(code: u32) -> (r: Option<NativeError>)
    ensures
        r is None <==> code == 0,
        r matches Some(e) ==> e == error_of_code(code),
{
    match wrap_error(code) {
        NativeError::NoError => None,
        err => Some(err),
    }
}

/// An error with a code comes back from its code, and a code that the
/// interface does not define gives `UnknownError`.
pub proof fn lemma_error_code_round_trip(e: NativeError, code: u32)
    ensures
        e.code() matches Some(c) ==> error_of_code(c) == e,
        error_of_code(code) != NativeError::UnknownError ==> error_of_code(code).code() == Some(code),
{
}

/// A native error code that can be turned into an error.
pub trait JvmtiErrorTranslator {
    /// The error that the code stands for.
    spec fn translated(&self) -> NativeError;

    fn translate(&self) -> (r: NativeError)
        ensures
            r == self.translated(),
    ;
}

/// An error that can be turned into words.
pub trait NativeErrorTranslator {
    /// What the error means.
    spec fn translated(&self) -> Seq<char>;

    fn translate(&self) -> (r: String)
        ensures
            r@ == self.translated(),
    ;
}

impl JvmtiErrorTranslator for u32 {
    open spec fn translated(&self) -> NativeError {
        error_of_code(*self)
    }

    fn translate(&self) -> (r: NativeError) {
        wrap_error(*self)
    }
}

impl NativeErrorTranslator for NativeError {
    open spec fn translated(&self) -> Seq<char> {
        message_of(*self)
    }

    fn translate(&self) -> (r: String) {
        translate_error(self)
    }
}

} // verus!
