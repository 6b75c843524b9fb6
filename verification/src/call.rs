//! Typed value lists and the single-shot runtime call lifecycle.

use core::marker::PhantomData;
use vstd::prelude::*;

use crate::allocator::IreeAllocator;
use crate::engine::{Engine, HandleKind};
use crate::hal_buffer::IreeHalBufferView;
use crate::status::{IreeError, IreeStatus};

verus! {

/// The element shape a typed value list accepts, fixed at creation: either
/// a plain scalar value, or a reference to one resource kind.
#[derive(Clone, Copy, PartialEq, Eq, Structural, Debug)]
pub enum VmTypeDef {
    Value,
    Reference(HandleKind),
}

/// A type usable as the element type of a [`VmList`].  The descriptor is
/// derived from the type once; the list trusts it afterwards.
pub trait Type {
    /// The element shape this type marshals as.
    spec fn descriptor() -> VmTypeDef;

    /// Compute the native element-shape descriptor.
    fn to_raw() -> (r: VmTypeDef)
        ensures
            r == Self::descriptor(),
    ;
}

/// Scalars marshal as plain values.
impl Type for i32 {
    open spec fn descriptor() -> VmTypeDef {
        VmTypeDef::Value
    }

    fn to_raw() -> (r: VmTypeDef) {
        VmTypeDef::Value
    }
}

/// A type whose values stand for reference-counted native resources and can
/// be shared into a call as a reference.
pub trait ToRef: Sized {
    /// The resource kind the reference names.
    spec fn ref_kind() -> HandleKind;

    /// The native handle this value stands for.
    spec fn handle_of(&self) -> u64;

    /// The native tag of the resource kind.
    fn to_ref_type() -> (k: HandleKind)
        ensures
            k == Self::ref_kind(),
    ;

    /// A reference record naming this value's handle.  Making the record
    /// does not yet retain it: sharing it into a list does.
    fn to_ref(&self) -> (r: Result<Ref<Self>, IreeError>)
        ensures
            (r matches Ok(v) && v.handle_id() == self.handle_of()),
    ;
}

/// A reference record: the typed handle of one reference-counted resource,
/// ready to be pushed into a value list.
pub struct Ref<T> {
    pub(crate) handle: u64,
    pub(crate) _marker: PhantomData<T>,
}

impl<T> Ref<T> {
    /// The native handle the record names.
    pub closed spec fn handle_id(self) -> u64 {
        self.handle
    }
}

/// Reference records marshal as references to their resource kind.
impl<T: ToRef> Type for Ref<T> {
    open spec fn descriptor() -> VmTypeDef {
        VmTypeDef::Reference(T::ref_kind())
    }

    fn to_raw() -> (r: VmTypeDef) {
        VmTypeDef::Reference(T::to_ref_type())
    }
}

/// Buffer views are shared into calls by reference.
impl ToRef for IreeHalBufferView {
    open spec fn ref_kind() -> HandleKind {
        HandleKind::BufferView
    }

    open spec fn handle_of(&self) -> u64 {
        self.handle_id()
    }

    fn to_ref_type() -> (k: HandleKind) {
        HandleKind::BufferView
    }

    fn to_ref(&self) -> (r: Result<Ref<IreeHalBufferView>, IreeError>) {
        Ok(Ref { handle: self.handle(), _marker: PhantomData })
    }
}

/// How many times `h` occurs in a sequence of handles.
pub open spec fn occurrences(s: Seq<u64>, h: u64) -> nat
    decreases s.len(),
{
    if s.len() == 0 {
        0
    } else {
        (if s[0] == h {
            1nat
        } else {
            0nat
        }) + occurrences(s.drop_first(), h)
    }
}

proof fn lemma_occurrences_skip(s: Seq<u64>, i: int, h: u64)
    requires
        0 <= i < s.len(),
    ensures
        occurrences(s.skip(i), h) == (if s[i] == h {
            1nat
        } else {
            0nat
        }) + occurrences(s.skip(i + 1), h),
{
    assert(s.skip(i)[0] == s[i]);
    assert(s.skip(i).drop_first() =~= s.skip(i + 1));
}

/// A generically-typed, native-backed ordered container used to marshal
/// scalar values and references into and out of calls.  Its element shape
/// is the descriptor derived from `T` at creation; the handles of pushed
/// references are retained once each and given back together when the list
/// is released.
pub struct VmList<T: Type> {
    handle: u64,
    retained: Vec<u64>,
    _marker: PhantomData<T>,
}

impl<T: Type> VmList<T> {
    /// The native list handle this wrapper owns.
    pub closed spec fn handle_id(self) -> u64 {
        self.handle
    }

    /// The handles of the references pushed so far, in push order.
    pub closed spec fn retained_view(self) -> Seq<u64> {
        self.retained@
    }

    /// Construct a native list sized for `initial_capacity` elements of the
    /// shape `T` describes; growth past the capacity is the engine's
    /// business.  The engine decides: a failing outcome becomes a
    /// structured error and nothing is acquired.
    pub fn create(initial_capacity: usize, allocator: IreeAllocator, engine: &mut Engine) -> (r:
        Result<VmList<T>, IreeError>)
        requires
            old(engine).wf(),
            old(engine).next_id() < u64::MAX,
            old(engine).acquire_count() < u64::MAX,
        ensures
            final(engine).wf(),
            old(engine).peek_code() == 0 ==> (r matches Ok(l) && {
                &&& l.handle_id() == old(engine).next_id()
                &&& !old(engine).is_live(l.handle_id())
                &&& l.retained_view() == Seq::<u64>::empty()
                &&& final(engine).count_of(l.handle_id()) == 1
                &&& final(engine).kind_of(l.handle_id()) == Some(HandleKind::ValueList)
                &&& forall|x: u64|
                    x != l.handle_id() ==> #[trigger] final(engine).count_of(x) == old(
                        engine,
                    ).count_of(x)
                &&& final(engine).live_total() == old(engine).live_total() + 1
            }),
            old(engine).peek_code() != 0 ==> (r matches Err(e) && {
                &&& (e matches IreeError::Engine { code, message } && code == old(
                    engine,
                ).peek_code() && message@ == old(engine).peek_message())
                &&& forall|x: u64|
                    #[trigger] final(engine).count_of(x) == old(engine).count_of(x)
                &&& final(engine).live_total() == old(engine).live_total()
            }),
            crate::engine::script_popped(*old(engine), *final(engine)),
    {
        let _descriptor = T::to_raw();
        let outcome = engine.take_outcome();
        if outcome.code != 0 {
            let status = IreeStatus::new(outcome.code, outcome.message);
            return Err(IreeError::from_status(status, &allocator, engine));
        }
        let handle = engine.create_handle(HandleKind::ValueList, Vec::new());
        Ok(VmList { handle, retained: Vec::new(), _marker: PhantomData })
    }

    /// Append a scalar.  Only lists whose descriptor is the plain value
    /// shape accept this; the bound is enforced against the type, not at
    /// run time.  The engine decides: a failing outcome becomes a
    /// structured error and the list is unchanged.
    pub fn push_value(&mut self, value: i32, engine: &mut Engine) -> (r: Result<(), IreeError>)
        requires
            T::descriptor() == VmTypeDef::Value,
            old(engine).wf(),
            old(engine).is_live(old(self).handle_id()),
            old(engine).next_id() < u64::MAX,
            old(engine).acquire_count() < u64::MAX,
        ensures
            final(engine).wf(),
            final(self).handle_id() == old(self).handle_id(),
            final(self).retained_view() == old(self).retained_view(),
            forall|x: u64| #[trigger] final(engine).count_of(x) == old(engine).count_of(x),
            final(engine).live_total() == old(engine).live_total(),
            old(engine).peek_code() == 0 ==> r is Ok,
            old(engine).peek_code() != 0 ==> (r matches Err(e) && (e
                matches IreeError::Engine { code, message } && code == old(engine).peek_code()
                && message@ == old(engine).peek_message())),
            crate::engine::script_popped(*old(engine), *final(engine)),
    {
        let outcome = engine.take_outcome();
        if outcome.code != 0 {
            let status = IreeStatus::new(outcome.code, outcome.message);
            return Err(
                IreeError::from_status(status, &IreeAllocator::system_allocator(), engine),
            );
        }
        Ok(())
    }

    /// Release the list: give back one reference for every element still
    /// retained, then the list's own handle.  Consuming the wrapper makes a
    /// second release impossible.
    pub fn release(self, engine: &mut Engine)
        requires
            old(engine).wf(),
            forall|h: u64|
                #[trigger] old(engine).count_of(h) >= occurrences(self.retained_view(), h) + (
                if h == self.handle_id() {
                    1nat
                } else {
                    0nat
                }),
        ensures
            final(engine).wf(),
            forall|h: u64|
                #[trigger] final(engine).count_of(h) == old(engine).count_of(h) - occurrences(
                    self.retained_view(),
                    h,
                ) - (if h == self.handle_id() {
                    1nat
                } else {
                    0nat
                }),
            final(engine).release_count() == old(engine).release_count()
                + self.retained_view().len() + 1,
            final(engine).acquire_count() == old(engine).acquire_count(),
            forall|x: u64| #[trigger] final(engine).kind_of(x) == old(engine).kind_of(x),
            forall|x: u64| #[trigger] final(engine).data_of(x) == old(engine).data_of(x),
            final(engine).next_id() == old(engine).next_id(),
            final(engine).script_len() == old(engine).script_len(),
            final(engine).drivers_view() == old(engine).drivers_view(),
    {
        release_handles(engine, &self.retained);
        engine.release(self.handle);
    }
}

/// Give back one reference for every entry of `handles`, front to back.
fn release_handles(engine: &mut Engine, handles: &Vec<u64>)
    requires
        old(engine).wf(),
        forall|h: u64| #[trigger] old(engine).count_of(h) >= occurrences(handles@, h),
    ensures
        final(engine).wf(),
        forall|h: u64|
            #[trigger] final(engine).count_of(h) == old(engine).count_of(h) - occurrences(
                handles@,
                h,
            ),
        final(engine).release_count() == old(engine).release_count() + handles@.len(),
        final(engine).acquire_count() == old(engine).acquire_count(),
        forall|x: u64| #[trigger] final(engine).kind_of(x) == old(engine).kind_of(x),
        forall|x: u64| #[trigger] final(engine).data_of(x) == old(engine).data_of(x),
        final(engine).next_id() == old(engine).next_id(),
        final(engine).script_len() == old(engine).script_len(),
        final(engine).peek_code() == old(engine).peek_code(),
        final(engine).peek_message() == old(engine).peek_message(),
        final(engine).peek_detail() == old(engine).peek_detail(),
        final(engine).peek_outputs() == old(engine).peek_outputs(),
        final(engine).drivers_view() == old(engine).drivers_view(),
{
    let ghost rv = handles@;
    let ghost e0 = *engine;
    proof {
        assert(rv.skip(0) =~= rv);
    }
    let n = handles.len();
    let mut i: usize = 0;
    while i < n
        invariant
            n == rv.len(),
            i <= n,
            handles@ == rv,
            engine.wf(),
            forall|h: u64|
                #[trigger] engine.count_of(h) == e0.count_of(h) - (occurrences(rv, h)
                    - occurrences(rv.skip(i as int), h)),
            forall|h: u64| #[trigger] e0.count_of(h) >= occurrences(rv, h),
            engine.release_count() == e0.release_count() + i,
            engine.acquire_count() == e0.acquire_count(),
            forall|x: u64| #[trigger] engine.kind_of(x) == e0.kind_of(x),
            forall|x: u64| #[trigger] engine.data_of(x) == e0.data_of(x),
            engine.next_id() == e0.next_id(),
            engine.script_len() == e0.script_len(),
            engine.peek_code() == e0.peek_code(),
            engine.peek_message() == e0.peek_message(),
            engine.peek_detail() == e0.peek_detail(),
            engine.peek_outputs() == e0.peek_outputs(),
            engine.drivers_view() == e0.drivers_view(),
        decreases n - i,
    {
        proof {
            lemma_occurrences_skip(rv, i as int, handles@[i as int]);
            lemma_occurrences_skip_le(rv, i as int, handles@[i as int]);
        }
        let h = handles[i];
        engine.release(h);
        proof {
            assert forall|x: u64| #[trigger] engine.count_of(x) == e0.count_of(x) - (
            occurrences(rv, x) - occurrences(rv.skip(i + 1), x)) by {
                lemma_occurrences_skip(rv, i as int, x);
            }
        }
        i = i + 1;
    }
    proof {
        assert(rv.skip(n as int) =~= Seq::<u64>::empty());
    }
}

proof fn lemma_occurrences_skip_le(s: Seq<u64>, i: int, h: u64)
    requires
        0 <= i <= s.len(),
    ensures
        occurrences(s.skip(i), h) <= occurrences(s, h),
    decreases i,
{
    if i == 0 {
        assert(s.skip(0) =~= s);
    } else {
        lemma_occurrences_skip_le(s, i - 1, h);
        lemma_occurrences_skip(s, i - 1, h);
    }
}

impl<T: ToRef> VmList<Ref<T>> {
    /// Append a reference, bumping its handle's native reference count by
    /// exactly one; the element's lifetime is then independent of the
    /// record passed in.  Only a list whose descriptor names `T`'s resource
    /// kind accepts the record, by its type.  The engine decides: a failing
    /// outcome becomes a structured error, and then nothing is retained.
    pub fn push_ref_retain(&mut self, ref_value: &Ref<T>, engine: &mut Engine) -> (r: Result<
        (),
        IreeError,
    >)
        requires
            old(engine).wf(),
            old(engine).is_live(old(self).handle_id()),
            old(engine).is_live(ref_value.handle_id()),
            old(engine).next_id() < u64::MAX,
            old(engine).acquire_count() < u64::MAX,
        ensures
            final(engine).wf(),
            final(self).handle_id() == old(self).handle_id(),
            old(engine).peek_code() == 0 ==> {
                &&& r is Ok
                &&& final(self).retained_view() == old(self).retained_view().push(
                    ref_value.handle_id(),
                )
                &&& final(engine).count_of(ref_value.handle_id()) == old(engine).count_of(
                    ref_value.handle_id(),
                ) + 1
                &&& forall|x: u64|
                    x != ref_value.handle_id() ==> #[trigger] final(engine).count_of(x) == old(
                        engine,
                    ).count_of(x)
                &&& final(engine).live_total() == old(engine).live_total() + 1
                &&& final(engine).acquire_count() == old(engine).acquire_count() + 1
                &&& final(engine).release_count() == old(engine).release_count()
            },
            old(engine).peek_code() != 0 ==> (r matches Err(e) && {
                &&& (e matches IreeError::Engine { code, message } && code == old(
                    engine,
                ).peek_code() && message@ == old(engine).peek_message())
                &&& final(self).retained_view() == old(self).retained_view()
                &&& forall|x: u64|
                    #[trigger] final(engine).count_of(x) == old(engine).count_of(x)
                &&& final(engine).live_total() == old(engine).live_total()
            }),
            forall|x: u64|
                old(engine).is_live(x) ==> #[trigger] final(engine).kind_of(x) == old(
                    engine,
                ).kind_of(x),
            forall|x: u64|
                old(engine).is_live(x) ==> #[trigger] final(engine).data_of(x) == old(
                    engine,
                ).data_of(x),
            crate::engine::script_popped(*old(engine), *final(engine)),
    {
        let outcome = engine.take_outcome();
        if outcome.code != 0 {
            let status = IreeStatus::new(outcome.code, outcome.message);
            return Err(
                IreeError::from_status(status, &IreeAllocator::system_allocator(), engine),
            );
        }
        engine.retain(ref_value.handle);
        self.retained.push(ref_value.handle);
        Ok(())
    }
}

impl VmList<Ref<IreeHalBufferView>> {
    /// Append a buffer view by reference: the common case of
    /// [`VmList::push_ref_retain`], bumping the view's count by one.
    pub fn push_buffer(&mut self, buffer_view: &IreeHalBufferView, engine: &mut Engine) -> (r:
        Result<(), IreeError>)
        requires
            old(engine).wf(),
            old(engine).is_live(old(self).handle_id()),
            old(engine).is_live(buffer_view.handle_id()),
            old(engine).next_id() < u64::MAX,
            old(engine).acquire_count() < u64::MAX,
        ensures
            final(engine).wf(),
            final(self).handle_id() == old(self).handle_id(),
            old(engine).peek_code() == 0 ==> {
                &&& r is Ok
                &&& final(self).retained_view() == old(self).retained_view().push(
                    buffer_view.handle_id(),
                )
                &&& final(engine).count_of(buffer_view.handle_id()) == old(engine).count_of(
                    buffer_view.handle_id(),
                ) + 1
                &&& forall|x: u64|
                    x != buffer_view.handle_id() ==> #[trigger] final(engine).count_of(x) == old(
                        engine,
                    ).count_of(x)
                &&& final(engine).live_total() == old(engine).live_total() + 1
            },
            old(engine).peek_code() != 0 ==> (r matches Err(e) && {
                &&& (e matches IreeError::Engine { code, message } && code == old(
                    engine,
                ).peek_code() && message@ == old(engine).peek_message())
                &&& final(self).retained_view() == old(self).retained_view()
                &&& forall|x: u64|
                    #[trigger] final(engine).count_of(x) == old(engine).count_of(x)
                &&& final(engine).live_total() == old(engine).live_total()
            }),
            crate::engine::script_popped(*old(engine), *final(engine)),
    {
        let r = buffer_view.to_ref();
        match r {
            Ok(ref_value) => self.push_ref_retain(&ref_value, engine),
            Err(e) => Err(e),
        }
    }
}


/// One loaded, runnable program context.  Session lifecycle is an external
/// collaborator's business: this layer neither creates nor owns sessions,
/// it only needs to know which fully-qualified entry points the loaded
/// program exports, so that a call can be bound by name.
pub struct IreeRuntimeSession {
    exports: Vec<String>,
}

impl IreeRuntimeSession {
    /// The fully-qualified names the loaded program exports.
    pub closed spec fn exports_view(self) -> Seq<Seq<char>> {
        self.exports.deep_view()
    }

    /// Stand for an open session whose program exports `exports`.
    pub fn new(exports: Vec<String>) -> (r: IreeRuntimeSession)
        ensures
            r.exports_view() == exports.deep_view(),
    {
        IreeRuntimeSession { exports }
    }
}

/// Whether some exported name equals `name`.
pub open spec fn has_export(s: Seq<Seq<char>>, name: Seq<char>) -> bool {
    exists|i: int| 0 <= i < s.len() && s[i] == name
}

/// One invocation record binding a named entry point, its pushed inputs and
/// its pending outputs.  The lifecycle is single-shot: inputs may be pushed
/// only before the one invocation, outputs are popped in FIFO order after
/// it, and deinitialization releases whatever is still pending, exactly
/// once.
pub struct IreeRuntimeCall {
    handle: u64,
    invoked: bool,
    inputs: Vec<u64>,
    outputs: Vec<u64>,
}

impl IreeRuntimeCall {
    /// The native call-record handle this wrapper owns.
    pub closed spec fn handle_id(self) -> u64 {
        self.handle
    }

    /// Whether the call has been invoked (successfully or not).
    pub closed spec fn is_invoked(self) -> bool {
        self.invoked
    }

    /// The handles of the input views pushed so far, in push order.
    pub closed spec fn inputs_view(self) -> Seq<u64> {
        self.inputs@
    }

    /// The handles of the outputs not yet popped, front first.
    pub closed spec fn outputs_view(self) -> Seq<u64> {
        self.outputs@
    }

    /// Look up an exported function by its fully-qualified name within an
    /// already-open session and bind a call record to it.
    ///
    /// The engine decides first: a failing outcome becomes a structured
    /// error.  A name the program does not export is a lookup failure.  On
    /// success the record owns one fresh call-record handle and starts with
    /// no inputs, no outputs, and its invocation still ahead of it.
    pub fn initialize_by_name(
        session: &IreeRuntimeSession,
        full_name: &String,
        engine: &mut Engine,
    ) -> (r: Result<IreeRuntimeCall, IreeError>)
        requires
            old(engine).wf(),
            old(engine).next_id() < u64::MAX,
            old(engine).acquire_count() < u64::MAX,
        ensures
            final(engine).wf(),
            final(engine).drivers_view() == old(engine).drivers_view(),
            old(engine).peek_code() == 0 && has_export(session.exports_view(), full_name@) ==> (r
                matches Ok(c) && {
                &&& c.handle_id() == old(engine).next_id()
                &&& !old(engine).is_live(c.handle_id())
                &&& !c.is_invoked()
                &&& c.inputs_view() == Seq::<u64>::empty()
                &&& c.outputs_view() == Seq::<u64>::empty()
                &&& final(engine).count_of(c.handle_id()) == 1
                &&& final(engine).kind_of(c.handle_id()) == Some(HandleKind::CallRecord)
                &&& forall|x: u64|
                    x != c.handle_id() ==> #[trigger] final(engine).count_of(x) == old(
                        engine,
                    ).count_of(x)
                &&& final(engine).live_total() == old(engine).live_total() + 1
            }),
            old(engine).peek_code() == 0 && !has_export(session.exports_view(), full_name@) ==> (
            r matches Err(e) && e is NotFound && forall|x: u64|
                #[trigger] final(engine).count_of(x) == old(engine).count_of(x)),
            old(engine).peek_code() != 0 ==> (r matches Err(e) && {
                &&& (e matches IreeError::Engine { code, message } && code == old(
                    engine,
                ).peek_code() && message@ == old(engine).peek_message())
                &&& forall|x: u64|
                    #[trigger] final(engine).count_of(x) == old(engine).count_of(x)
                &&& final(engine).live_total() == old(engine).live_total()
            }),
            crate::engine::script_popped(*old(engine), *final(engine)),
    {
        let outcome = engine.take_outcome();
        if outcome.code != 0 {
            let status = IreeStatus::new(outcome.code, outcome.message);
            return Err(
                IreeError::from_status(status, &IreeAllocator::system_allocator(), engine),
            );
        }
        let n = session.exports.len();
        let mut idx: usize = 0;
        let mut found = false;
        while idx < n && !found
            invariant
                n == session.exports@.len(),
                idx <= n,
                !found ==> forall|j: int|
                    0 <= j < idx ==> (#[trigger] session.exports_view()[j]) != full_name@,
                found ==> has_export(session.exports_view(), full_name@),
            decreases n - idx + if found {
                0int
            } else {
                1int
            },
        {
            if session.exports[idx].eq(full_name) {
                proof {
                    assert(session.exports_view()[idx as int] == full_name@);
                }
                found = true;
            } else {
                idx = idx + 1;
            }
        }
        if !found {
            proof {
                assert(!has_export(session.exports_view(), full_name@));
            }
            return Err(IreeError::NotFound);
        }
        let handle = engine.create_handle(HandleKind::CallRecord, Vec::new());
        Ok(IreeRuntimeCall { handle, invoked: false, inputs: Vec::new(), outputs: Vec::new() })
    }

    /// Append a buffer view to the call's positional inputs, retaining one
    /// reference on it; pushes are received by the invoked function in push
    /// order.  Valid only before the invocation: afterwards the push is a
    /// misuse error and nothing moves.  The engine decides the rest: a
    /// failing outcome becomes a structured error and nothing is retained.
    pub fn inputs_push_back_buffer_view(
        &mut self,
        buffer_view: &IreeHalBufferView,
        engine: &mut Engine,
    ) -> (r: Result<(), IreeError>)
        requires
            old(engine).wf(),
            old(engine).is_live(buffer_view.handle_id()),
            old(engine).next_id() < u64::MAX,
            old(engine).acquire_count() < u64::MAX,
        ensures
            final(engine).wf(),
            final(self).handle_id() == old(self).handle_id(),
            final(self).outputs_view() == old(self).outputs_view(),
            final(self).is_invoked() == old(self).is_invoked(),
            old(self).is_invoked() ==> {
                &&& (r matches Err(e) && e is Misuse)
                &&& *final(self) == *old(self)
                &&& *final(engine) == *old(engine)
            },
            !old(self).is_invoked() && old(engine).peek_code() == 0 ==> {
                &&& r is Ok
                &&& final(self).inputs_view() == old(self).inputs_view().push(
                    buffer_view.handle_id(),
                )
                &&& final(engine).count_of(buffer_view.handle_id()) == old(engine).count_of(
                    buffer_view.handle_id(),
                ) + 1
                &&& forall|x: u64|
                    x != buffer_view.handle_id() ==> #[trigger] final(engine).count_of(x) == old(
                        engine,
                    ).count_of(x)
                &&& final(engine).live_total() == old(engine).live_total() + 1
                &&& crate::engine::script_popped(*old(engine), *final(engine))
            },
            !old(self).is_invoked() && old(engine).peek_code() != 0 ==> {
                &&& (r matches Err(e) && (e matches IreeError::Engine { code, message } && code
                    == old(engine).peek_code() && message@ == old(engine).peek_message()))
                &&& final(self).inputs_view() == old(self).inputs_view()
                &&& forall|x: u64|
                    #[trigger] final(engine).count_of(x) == old(engine).count_of(x)
                &&& final(engine).live_total() == old(engine).live_total()
                &&& crate::engine::script_popped(*old(engine), *final(engine))
            },
    {
        if self.invoked {
            return Err(IreeError::Misuse);
        }
        let outcome = engine.take_outcome();
        if outcome.code != 0 {
            let status = IreeStatus::new(outcome.code, outcome.message);
            return Err(
                IreeError::from_status(status, &IreeAllocator::system_allocator(), engine),
            );
        }
        engine.retain(buffer_view.handle());
        self.inputs.push(buffer_view.handle());
        Ok(())
    }

    /// Execute the bound function synchronously.  The call is single-shot:
    /// a second invocation on the same record is a misuse error, and the
    /// function is never executed twice.  Otherwise the engine decides: a
    /// failing outcome becomes a structured error and still uses up the one
    /// invocation; a successful one appends one fresh buffer view per
    /// produced output, holding that output's contents, to the record's
    /// pending outputs.
    pub fn invoke(&mut self, flags: u32, engine: &mut Engine) -> (r: Result<(), IreeError>)
        requires
            old(engine).wf(),
            old(engine).next_id() + old(engine).peek_outputs().len() < u64::MAX,
            old(engine).acquire_count() + old(engine).peek_outputs().len() < u64::MAX,
        ensures
            final(engine).wf(),
            final(self).handle_id() == old(self).handle_id(),
            final(self).inputs_view() == old(self).inputs_view(),
            old(self).is_invoked() ==> {
                &&& (r matches Err(e) && e is Misuse)
                &&& *final(self) == *old(self)
                &&& *final(engine) == *old(engine)
            },
            !old(self).is_invoked() ==> final(self).is_invoked(),
            !old(self).is_invoked() ==> crate::engine::script_popped(
                *old(engine),
                *final(engine),
            ),
            !old(self).is_invoked() && old(engine).peek_code() != 0 ==> {
                &&& (r matches Err(e) && (e matches IreeError::Engine { code, message } && code
                    == old(engine).peek_code() && message@ == old(engine).peek_message()))
                &&& final(self).outputs_view() == old(self).outputs_view()
                &&& forall|x: u64|
                    #[trigger] final(engine).count_of(x) == old(engine).count_of(x)
                &&& final(engine).live_total() == old(engine).live_total()
            },
            !old(self).is_invoked() && old(engine).peek_code() == 0 ==> {
                let outs = old(engine).peek_outputs();
                let n0 = old(engine).next_id();
                &&& r is Ok
                &&& final(self).outputs_view().len() == old(self).outputs_view().len()
                    + outs.len()
                &&& forall|k: int|
                    0 <= k < old(self).outputs_view().len()
                        ==> #[trigger] final(self).outputs_view()[k] == old(
                        self,
                    ).outputs_view()[k]
                &&& forall|k: int|
                    0 <= k < outs.len() ==> {
                        let h = #[trigger] final(self).outputs_view()[old(
                            self,
                        ).outputs_view().len() + k];
                        &&& h == n0 + k
                        &&& !old(engine).is_live(h)
                        &&& final(engine).count_of(h) == 1
                        &&& final(engine).kind_of(h) == Some(HandleKind::BufferView)
                        &&& final(engine).data_of(h) == Some(outs[k])
                    }
                &&& forall|x: u64|
                    !(n0 <= x < n0 + outs.len()) ==> #[trigger] final(engine).count_of(x) == old(
                        engine,
                    ).count_of(x)
                &&& forall|x: u64|
                    !(n0 <= x < n0 + outs.len()) ==> #[trigger] final(engine).kind_of(x) == old(
                        engine,
                    ).kind_of(x)
                &&& forall|x: u64|
                    !(n0 <= x < n0 + outs.len()) ==> #[trigger] final(engine).data_of(x) == old(
                        engine,
                    ).data_of(x)
                &&& final(engine).next_id() == n0 + outs.len()
                &&& final(engine).live_total() == old(engine).live_total() + outs.len()
                &&& final(engine).acquire_count() == old(engine).acquire_count() + outs.len()
                &&& final(engine).release_count() == old(engine).release_count()
            },
    {
        if self.invoked {
            return Err(IreeError::Misuse);
        }
        self.invoked = true;
        let outcome = engine.take_outcome();
        if outcome.code != 0 {
            let status = IreeStatus::new(outcome.code, outcome.message);
            return Err(
                IreeError::from_status(status, &IreeAllocator::system_allocator(), engine),
            );
        }
        let ghost outs = old(engine).peek_outputs();
        let ghost n0 = old(engine).next_id();
        let ghost e1 = *engine;
        let ghost p0 = self.outputs@.len() as int;
        proof {
            assert(outcome.outputs.deep_view().len() == outcome.outputs@.len());
        }
        let ghost out0 = self.outputs@;
        let m = outcome.outputs.len();
        let mut k: usize = 0;
        while k < m
            invariant
                m == outcome.outputs@.len(),
                outcome.outputs.deep_view() == outs,
                outs.len() == m,
                k <= m,
                0 <= p0,
                self.handle == old(self).handle,
                self.invoked,
                self.inputs@ == old(self).inputs@,
                self.outputs@.len() == p0 + k,
                forall|j: int| 0 <= j < p0 ==> #[trigger] self.outputs@[j] == out0[j],
                engine.wf(),
                engine.next_id() == n0 + k,
                n0 + m < u64::MAX,
                e1.acquire_count() + m < u64::MAX,
                engine.acquire_count() == e1.acquire_count() + k,
                engine.release_count() == e1.release_count(),
                engine.live_total() == e1.live_total() + k,
                engine.script_len() == e1.script_len(),
                engine.peek_code() == e1.peek_code(),
                engine.peek_message() == e1.peek_message(),
                engine.peek_detail() == e1.peek_detail(),
                engine.peek_outputs() == e1.peek_outputs(),
                engine.drivers_view() == e1.drivers_view(),
                forall|j: int|
                    0 <= j < k ==> #[trigger] self.outputs@[p0 + j] == n0 + j,
                forall|j: int|
                    0 <= j < k ==> (#[trigger] engine.count_of((n0 + j) as u64)) == 1
                        && engine.kind_of((n0 + j) as u64) == Some(HandleKind::BufferView)
                        && engine.data_of((n0 + j) as u64) == Some(outs[j]),
                forall|x: u64|
                    !(n0 <= x < n0 + k) ==> #[trigger] engine.count_of(x) == e1.count_of(x),
                forall|x: u64|
                    !(n0 <= x < n0 + k) ==> #[trigger] engine.kind_of(x) == e1.kind_of(x),
                forall|x: u64|
                    !(n0 <= x < n0 + k) ==> #[trigger] engine.data_of(x) == e1.data_of(x),
            decreases m - k,
        {
            let bytes = clone_bytes(&outcome.outputs[k]);
            proof {
                assert(bytes@ == outcome.outputs.deep_view()[k as int]);
            }
            let ghost prev = self.outputs@;
            let h = engine.create_handle(HandleKind::BufferView, bytes);
            self.outputs.push(h);
            proof {
                assert(self.outputs@ == prev.push(h));
                assert forall|j: int| 0 <= j < k + 1 implies #[trigger] self.outputs@[p0 + j]
                    == n0 + j by {
                    if j < k {
                        assert(self.outputs@[p0 + j] == prev[p0 + j]);
                    } else {
                        assert(self.outputs@[p0 + j] == h);
                    }
                }
            }
            k = k + 1;
        }
        proof {
            assert forall|k2: int| 0 <= k2 < outs.len() implies {
                let h = #[trigger] self.outputs@[p0 + k2];
                &&& h == n0 + k2
                &&& old(engine).count_of(h) == 0
                &&& engine.count_of(h) == 1
                &&& engine.kind_of(h) == Some(HandleKind::BufferView)
                &&& engine.data_of(h) == Some(outs[k2])
            } by {
                assert(0 <= k2 < k);
                assert(self.outputs@[p0 + k2] == n0 + k2);
                assert(engine.count_of((n0 + k2) as u64) == 1);
                assert(engine.kind_of((n0 + k2) as u64) == Some(HandleKind::BufferView));
                assert(engine.data_of((n0 + k2) as u64) == Some(outs[k2]));
                crate::engine::lemma_unallocated(*old(engine), (n0 + k2) as u64);
            }
        }
        Ok(())
    }

    /// Remove and return the first pending output, in FIFO order, handing
    /// its reference over to the returned view.  Asking for more outputs
    /// than were produced is an empty-pop error, never a crash.
    pub fn outputs_pop_front_buffer_view(&mut self) -> (r: Result<IreeHalBufferView, IreeError>)
        ensures
            final(self).handle_id() == old(self).handle_id(),
            final(self).is_invoked() == old(self).is_invoked(),
            final(self).inputs_view() == old(self).inputs_view(),
            old(self).outputs_view().len() == 0 ==> {
                &&& (r matches Err(e) && e is EmptyPop)
                &&& *final(self) == *old(self)
            },
            old(self).outputs_view().len() > 0 ==> (r matches Ok(v) && {
                &&& v.handle_id() == old(self).outputs_view()[0]
                &&& v.buffer_id() == v.handle_id()
                &&& final(self).outputs_view() == old(self).outputs_view().drop_first()
            }),
    {
        if self.outputs.len() == 0 {
            return Err(IreeError::EmptyPop);
        }
        let h = self.outputs.remove(0);
        proof {
            assert(self.outputs@ =~= old(self).outputs@.drop_first());
        }
        Ok(IreeHalBufferView::from_raw_parts(h, h))
    }

    /// Deinitialize the call record, from any state: give back one
    /// reference for every still-pending input and output, then the
    /// record's own handle.  Consuming the wrapper makes this happen
    /// exactly once.
    pub fn deinitialize(self, engine: &mut Engine)
        requires
            old(engine).wf(),
            forall|h: u64|
                #[trigger] old(engine).count_of(h) >= occurrences(self.inputs_view(), h)
                    + occurrences(self.outputs_view(), h) + (if h == self.handle_id() {
                    1nat
                } else {
                    0nat
                }),
        ensures
            final(engine).wf(),
            forall|h: u64|
                #[trigger] final(engine).count_of(h) == old(engine).count_of(h) - occurrences(
                    self.inputs_view(),
                    h,
                ) - occurrences(self.outputs_view(), h) - (if h == self.handle_id() {
                    1nat
                } else {
                    0nat
                }),
            final(engine).release_count() == old(engine).release_count()
                + self.inputs_view().len() + self.outputs_view().len() + 1,
            final(engine).acquire_count() == old(engine).acquire_count(),
            forall|x: u64| #[trigger] final(engine).kind_of(x) == old(engine).kind_of(x),
            forall|x: u64| #[trigger] final(engine).data_of(x) == old(engine).data_of(x),
            final(engine).next_id() == old(engine).next_id(),
            final(engine).script_len() == old(engine).script_len(),
            final(engine).drivers_view() == old(engine).drivers_view(),
    {
        release_handles(engine, &self.inputs);
        release_handles(engine, &self.outputs);
        engine.release(self.handle);
    }
}

/// A bytewise copy of a buffer's contents.
fn clone_bytes(v: &Vec<u8>) -> (r: Vec<u8>)
    ensures
        r@ == v@,
{
    let n = v.len();
    let mut out: Vec<u8> = Vec::new();
    let mut i: usize = 0;
    while i < n
        invariant
            n == v@.len(),
            i <= n,
            out@.len() == i,
            forall|k: int| 0 <= k < i ==> #[trigger] out@[k] == v@[k],
        decreases n - i,
    {
        out.push(v[i]);
        i = i + 1;
    }
    proof {
        assert(out@ =~= v@);
    }
    out
}

} // verus!
