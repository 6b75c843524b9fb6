//! Device-resident buffers and shaped views over them.

use vstd::prelude::*;

use crate::allocator::IreeAllocator;
use crate::engine::{Engine, HandleKind};
use crate::status::{IreeError, IreeStatus};

verus! {

/// Exclusive ownership of one device-resident allocation handle.  The
/// wrapper is move-only and gives the reference back exactly once, through
/// [`IreeHalBuffer::release`].
pub struct IreeHalBuffer {
    pub(crate) handle: u64,
}

impl IreeHalBuffer {
    /// The native handle this wrapper owns.
    pub closed spec fn handle_id(self) -> u64 {
        self.handle
    }

    /// The native handle, for staging a view or a transfer against it.
    pub fn handle(&self) -> (r: u64)
        ensures
            r == self.handle_id(),
    {
        self.handle
    }

    /// Allocate a zero-filled device buffer of `byte_length` bytes.  The
    /// engine decides: a non-success outcome becomes a structured error and
    /// no handle is acquired.
    pub fn allocate(byte_length: usize, allocator: &IreeAllocator, engine: &mut Engine) -> (r:
        Result<IreeHalBuffer, IreeError>)
        requires
            old(engine).wf(),
            old(engine).next_id() < u64::MAX,
            old(engine).acquire_count() < u64::MAX,
        ensures
            final(engine).wf(),
            old(engine).peek_code() == 0 ==> (r matches Ok(b) && {
                &&& b.handle_id() == old(engine).next_id()
                &&& !old(engine).is_live(b.handle_id())
                &&& final(engine).count_of(b.handle_id()) == 1
                &&& final(engine).kind_of(b.handle_id()) == Some(HandleKind::Buffer)
                &&& final(engine).data_of(b.handle_id()) == Some(
                    Seq::new(byte_length as nat, |i: int| 0u8),
                )
                &&& forall|x: u64|
                    x != b.handle_id() ==> #[trigger] final(engine).count_of(x) == old(
                        engine,
                    ).count_of(x)
                &&& forall|x: u64|
                    x != b.handle_id() ==> #[trigger] final(engine).data_of(x) == old(
                        engine,
                    ).data_of(x)
                &&& final(engine).live_total() == old(engine).live_total() + 1
            }),
            old(engine).peek_code() != 0 ==> (r matches Err(e) && {
                &&& (e matches IreeError::Engine { code, message } && code == old(
                    engine,
                ).peek_code() && message@ == old(engine).peek_message())
                &&& forall|x: u64|
                    #[trigger] final(engine).count_of(x) == old(engine).count_of(x)
                &&& forall|x: u64|
                    old(engine).is_live(x) ==> #[trigger] final(engine).data_of(x) == old(
                        engine,
                    ).data_of(x)
                &&& final(engine).live_total() == old(engine).live_total()
            }),
            crate::engine::script_popped(*old(engine), *final(engine)),
    {
        let outcome = engine.take_outcome();
        if outcome.code != 0 {
            let status = IreeStatus::new(outcome.code, outcome.message);
            return Err(IreeError::from_status(status, allocator, engine));
        }
        let mut zeros: Vec<u8> = Vec::new();
        let mut i: usize = 0;
        while i < byte_length
            invariant
                i <= byte_length,
                zeros@.len() == i,
                forall|k: int| 0 <= k < i ==> #[trigger] zeros@[k] == 0u8,
            decreases byte_length - i,
        {
            zeros.push(0);
            i = i + 1;
        }
        proof {
            assert(zeros@ =~= Seq::new(byte_length as nat, |i: int| 0u8));
        }
        let handle = engine.create_handle(HandleKind::Buffer, zeros);
        Ok(IreeHalBuffer { handle })
    }

    /// Give the buffer's reference back.  Consuming the wrapper makes a
    /// second release impossible; the allocation is freed by the engine when
    /// its last reference goes.
    pub fn release(self, engine: &mut Engine)
        requires
            old(engine).wf(),
            old(engine).is_live(self.handle_id()),
        ensures
            final(engine).wf(),
            final(engine).count_of(self.handle_id()) == old(engine).count_of(self.handle_id())
                - 1,
            forall|x: u64|
                x != self.handle_id() ==> #[trigger] final(engine).count_of(x) == old(
                    engine,
                ).count_of(x),
            forall|x: u64| #[trigger] final(engine).kind_of(x) == old(engine).kind_of(x),
            forall|x: u64| #[trigger] final(engine).data_of(x) == old(engine).data_of(x),
            final(engine).acquire_count() == old(engine).acquire_count(),
            final(engine).release_count() == old(engine).release_count() + 1,
            final(engine).live_total() == old(engine).live_total() - 1,
            final(engine).next_id() == old(engine).next_id(),
            final(engine).script_len() == old(engine).script_len(),
            final(engine).peek_code() == old(engine).peek_code(),
            final(engine).peek_message() == old(engine).peek_message(),
            final(engine).peek_detail() == old(engine).peek_detail(),
            final(engine).peek_outputs() == old(engine).peek_outputs(),
            final(engine).drivers_view() == old(engine).drivers_view(),
    {
        engine.release(self.handle);
    }
}

/// A reference-counted, shaped view over a buffer (or over memory the
/// engine otherwise exposes, as with invocation outputs).  Creating a view
/// over a buffer retains one extra reference on that buffer, so the view
/// can outlive the creator's ownership; releasing the view gives both
/// references back.
pub struct IreeHalBufferView {
    pub(crate) handle: u64,
    pub(crate) buffer: u64,
}

impl IreeHalBufferView {
    /// The native view handle this wrapper owns.
    pub closed spec fn handle_id(self) -> u64 {
        self.handle
    }

    /// The handle of the storage the view reads: its backing buffer, or the
    /// view's own handle where the engine exposes the memory directly.
    pub closed spec fn buffer_id(self) -> u64 {
        self.buffer
    }

    /// Wrap a view handle the engine handed back, reading the given
    /// storage handle.
    pub(crate) fn from_raw_parts(handle: u64, buffer: u64) -> (r: IreeHalBufferView)
        ensures
            r.handle_id() == handle,
            r.buffer_id() == buffer,
    {
        IreeHalBufferView { handle, buffer }
    }

    /// The native view handle.
    pub fn handle(&self) -> (r: u64)
        ensures
            r == self.handle_id(),
    {
        self.handle
    }

    /// The handle of the storage the view reads.
    pub fn buffer_handle(&self) -> (r: u64)
        ensures
            r == self.buffer_id(),
    {
        self.buffer
    }

    /// Create a view over `buffer`, retaining one extra reference on it.
    /// The engine decides: a non-success outcome becomes a structured error,
    /// and then nothing is acquired or retained.
    pub fn create(buffer: &IreeHalBuffer, allocator: &IreeAllocator, engine: &mut Engine) -> (r:
        Result<IreeHalBufferView, IreeError>)
        requires
            old(engine).wf(),
            old(engine).is_live(buffer.handle_id()),
            old(engine).next_id() < u64::MAX,
            old(engine).acquire_count() + 2 <= u64::MAX,
        ensures
            final(engine).wf(),
            old(engine).peek_code() == 0 ==> (r matches Ok(v) && {
                &&& v.handle_id() == old(engine).next_id()
                &&& v.buffer_id() == buffer.handle_id()
                &&& !old(engine).is_live(v.handle_id())
                &&& final(engine).count_of(v.handle_id()) == 1
                &&& final(engine).kind_of(v.handle_id()) == Some(HandleKind::BufferView)
                &&& final(engine).count_of(buffer.handle_id()) == old(engine).count_of(
                    buffer.handle_id(),
                ) + 1
                &&& forall|x: u64|
                    x != v.handle_id() && x != buffer.handle_id()
                        ==> #[trigger] final(engine).count_of(x) == old(engine).count_of(x)
                &&& forall|x: u64|
                    x != v.handle_id() ==> #[trigger] final(engine).data_of(x) == old(
                        engine,
                    ).data_of(x)
                &&& forall|x: u64|
                    x != v.handle_id() ==> #[trigger] final(engine).kind_of(x) == old(
                        engine,
                    ).kind_of(x)
                &&& final(engine).live_total() == old(engine).live_total() + 2
            }),
            old(engine).peek_code() != 0 ==> (r matches Err(e) && {
                &&& (e matches IreeError::Engine { code, message } && code == old(
                    engine,
                ).peek_code() && message@ == old(engine).peek_message())
                &&& forall|x: u64|
                    #[trigger] final(engine).count_of(x) == old(engine).count_of(x)
                &&& forall|x: u64|
                    old(engine).is_live(x) ==> #[trigger] final(engine).data_of(x) == old(
                        engine,
                    ).data_of(x)
                &&& final(engine).live_total() == old(engine).live_total()
            }),
            crate::engine::script_popped(*old(engine), *final(engine)),
    {
        let outcome = engine.take_outcome();
        if outcome.code != 0 {
            let status = IreeStatus::new(outcome.code, outcome.message);
            return Err(IreeError::from_status(status, allocator, engine));
        }
        let handle = engine.create_handle(HandleKind::BufferView, Vec::new());
        engine.retain(buffer.handle);
        Ok(IreeHalBufferView { handle, buffer: buffer.handle })
    }

    /// Give the view's references back: one on the view handle, and — where
    /// the view was staged over a separate buffer — one on that buffer.
    /// Consuming the wrapper makes a second release impossible.
    pub fn release(self, engine: &mut Engine)
        requires
            old(engine).wf(),
            old(engine).is_live(self.handle_id()),
            self.buffer_id() != self.handle_id() ==> old(engine).is_live(self.buffer_id()),
        ensures
            final(engine).wf(),
            self.buffer_id() != self.handle_id() ==> {
                &&& final(engine).count_of(self.handle_id()) == old(engine).count_of(
                    self.handle_id(),
                ) - 1
                &&& final(engine).count_of(self.buffer_id()) == old(engine).count_of(
                    self.buffer_id(),
                ) - 1
                &&& final(engine).live_total() == old(engine).live_total() - 2
                &&& final(engine).release_count() == old(engine).release_count() + 2
            },
            self.buffer_id() == self.handle_id() ==> {
                &&& final(engine).count_of(self.handle_id()) == old(engine).count_of(
                    self.handle_id(),
                ) - 1
                &&& final(engine).live_total() == old(engine).live_total() - 1
                &&& final(engine).release_count() == old(engine).release_count() + 1
            },
            forall|x: u64|
                x != self.handle_id() && x != self.buffer_id()
                    ==> #[trigger] final(engine).count_of(x) == old(engine).count_of(x),
            forall|x: u64| #[trigger] final(engine).kind_of(x) == old(engine).kind_of(x),
            forall|x: u64| #[trigger] final(engine).data_of(x) == old(engine).data_of(x),
            final(engine).acquire_count() == old(engine).acquire_count(),
            final(engine).next_id() == old(engine).next_id(),
            final(engine).script_len() == old(engine).script_len(),
            final(engine).peek_code() == old(engine).peek_code(),
            final(engine).peek_message() == old(engine).peek_message(),
            final(engine).peek_detail() == old(engine).peek_detail(),
            final(engine).peek_outputs() == old(engine).peek_outputs(),
            final(engine).drivers_view() == old(engine).drivers_view(),
    {
        engine.release(self.handle);
        if self.buffer != self.handle {
            engine.release(self.buffer);
        }
    }
}

} // verus!
