//! The status/error bridge: native result codes become structured errors.

use vstd::prelude::*;
use vstd::string::*;

use crate::allocator::IreeAllocator;
use crate::engine::Engine;
use crate::string::IreeStringBuilder;

verus! {

/// The native success code.
pub const STATUS_OK: u32 = 0;

/// The operation was cancelled.
pub const STATUS_CANCELLED: u32 = 1;

/// An unclassified engine failure.
pub const STATUS_UNKNOWN: u32 = 2;

/// The engine rejected an argument.
pub const STATUS_INVALID_ARGUMENT: u32 = 3;

/// The supplied timeout elapsed before the operation completed.
pub const STATUS_DEADLINE_EXCEEDED: u32 = 4;

/// A looked-up entity does not exist.
pub const STATUS_NOT_FOUND: u32 = 5;

/// The engine ran out of a resource (memory, handles).
pub const STATUS_RESOURCE_EXHAUSTED: u32 = 8;

/// A native operation result: a status code plus whatever diagnostic text
/// the engine attached to it.  Once the message has been extracted the
/// status is considered freed; consuming it by value guarantees a single
/// extraction-then-release on every path.
pub struct IreeStatus {
    pub code: u32,
    pub message: String,
}

impl IreeStatus {
    /// Wrap a native result code with its attached text.
    pub fn new(code: u32, message: String) -> (r: IreeStatus)
        ensures
            r.code == code,
            r.message == message,
    {
        IreeStatus { code, message }
    }

    /// Whether the code denotes success.
    pub fn is_ok(&self) -> (r: bool)
        ensures
            r == (self.code == STATUS_OK),
    {
        self.code == STATUS_OK
    }
}

/// The structured error callers receive.
///
/// `Engine` carries a non-success native code and the engine-supplied
/// message extracted from the status.  `NotFound` is a lookup failure (a
/// driver or exported function name that does not exist), `EmptyPop` an
/// attempt to pop more outputs than a call produced, and `Misuse` an
/// operation against the call lifecycle, such as invoking twice.
#[derive(Debug)]
pub enum IreeError {
    Engine { code: u32, message: String },
    NotFound,
    EmptyPop,
    Misuse,
}

impl IreeError {
    /// The sole conversion from a native status into the error type: the
    /// diagnostic text is extracted through a string builder bound to the
    /// supplied allocator before the status is freed, and the resulting
    /// error carries that text.
    pub fn from_status(status: IreeStatus, allocator: &IreeAllocator, engine: &mut Engine) -> (r:
        IreeError)
        requires
            old(engine).wf(),
            old(engine).next_id() < u64::MAX,
            old(engine).acquire_count() < u64::MAX,
        ensures
            final(engine).wf(),
            (r matches IreeError::Engine { code, message } && code == status.code && message@
                == status.message@),
            forall|x: u64| #[trigger] final(engine).count_of(x) == old(engine).count_of(x),
            forall|x: u64|
                old(engine).is_live(x) ==> #[trigger] final(engine).kind_of(x) == old(
                    engine,
                ).kind_of(x),
            forall|x: u64|
                old(engine).is_live(x) ==> #[trigger] final(engine).data_of(x) == old(
                    engine,
                ).data_of(x),
            final(engine).acquire_count() == old(engine).acquire_count() + 1,
            final(engine).release_count() == old(engine).release_count() + 1,
            final(engine).live_total() == old(engine).live_total(),
            final(engine).next_id() == old(engine).next_id() + 1,
            final(engine).script_len() == old(engine).script_len(),
            final(engine).peek_code() == old(engine).peek_code(),
            final(engine).peek_message() == old(engine).peek_message(),
            final(engine).peek_detail() == old(engine).peek_detail(),
            final(engine).peek_outputs() == old(engine).peek_outputs(),
            final(engine).drivers_view() == old(engine).drivers_view(),
    {
        let mut builder = IreeStringBuilder::initialize(*allocator, engine);
        builder.append(status.message.as_str());
        let message = builder.buffer();
        builder.release(engine);
        proof {
            assert(message@ =~= status.message@);
        }
        IreeError::Engine { code: status.code, message }
    }

    /// The human-readable text carried by the error.
    pub fn message(&self) -> (r: String)
        ensures
            self matches IreeError::Engine { message, .. } ==> r@ == message@,
            self is NotFound ==> r@ == "not found"@,
            self is EmptyPop ==> r@ == "no pending output"@,
            self is Misuse ==> r@ == "call already invoked"@,
    {
        match self {
            IreeError::Engine { message, .. } => message.clone(),
            IreeError::NotFound => String::from_str("not found"),
            IreeError::EmptyPop => String::from_str("no pending output"),
            IreeError::Misuse => String::from_str("call already invoked"),
        }
    }
}

} // verus!
