//! String views and the native-backed string builder.

use vstd::prelude::*;
use vstd::string::*;

use crate::allocator::IreeAllocator;
use crate::engine::{Engine, HandleKind};

verus! {

/// The size in bytes of the fixed staging buffer a view is copied through,
/// terminator included.  Text longer than `STRING_STAGING_CAPACITY - 1`
/// characters is truncated by [`IreeStringView::to_string`]; that bound is a
/// documented limitation of the staging path, not an error.
pub const STRING_STAGING_CAPACITY: usize = 1024;

/// A read-only view over character data owned by someone else (a literal, or
/// memory owned by the caller).  The view never outlives its source; here
/// the viewed text is captured at construction.
pub struct IreeStringView {
    text: String,
}

impl View for IreeStringView {
    type V = Seq<char>;

    closed spec fn view(&self) -> Seq<char> {
        self.text@
    }
}

impl IreeStringView {
    /// A view over borrowed character data.
    pub fn new(text: &str) -> (r: IreeStringView)
        ensures
            r@ == text@,
    {
        IreeStringView { text: String::from_str(text) }
    }

    /// A view over an owned string handed in by the caller.
    pub fn from_string(string: String) -> (r: IreeStringView)
        ensures
            r@ == string@,
    {
        IreeStringView { text: string }
    }

    /// The viewed text, as the borrowed original.
    pub fn text(&self) -> (r: &String)
        ensures
            r@ == self@,
    {
        &self.text
    }

    /// Copy the viewed text out through the fixed staging buffer: at most
    /// `STRING_STAGING_CAPACITY - 1` characters arrive, the rest is cut off.
    pub fn to_string(&self) -> (r: String)
        ensures
            self@.len() < STRING_STAGING_CAPACITY ==> r@ == self@,
            self@.len() >= STRING_STAGING_CAPACITY ==> r@ == self@.subrange(
                0,
                STRING_STAGING_CAPACITY - 1,
            ),
    {
        let n = self.text.as_str().unicode_len();
        if n < STRING_STAGING_CAPACITY {
            self.text.clone()
        } else {
            String::from_str(self.text.as_str().substring_char(0, STRING_STAGING_CAPACITY - 1))
        }
    }
}

/// A growable, engine-allocated string accumulator, used to receive
/// dynamically-sized diagnostic text.  The native buffer is owned by the
/// allocator the builder was initialized with and must be given back exactly
/// once, through [`IreeStringBuilder::release`].
pub struct IreeStringBuilder {
    handle: u64,
    allocator: IreeAllocator,
    content: String,
}

impl IreeStringBuilder {
    /// The handle of the native buffer this builder owns.
    pub closed spec fn handle_id(self) -> u64 {
        self.handle
    }

    /// The allocator the native buffer is bound to.
    pub closed spec fn allocator_of(self) -> IreeAllocator {
        self.allocator
    }

    /// The accumulated text.
    pub closed spec fn contents(self) -> Seq<char> {
        self.content@
    }

    /// Acquire a builder bound to `allocator`, owning one fresh native
    /// buffer handle.
    pub fn initialize(allocator: IreeAllocator, engine: &mut Engine) -> (r: IreeStringBuilder)
        requires
            old(engine).wf(),
            old(engine).next_id() < u64::MAX,
            old(engine).acquire_count() < u64::MAX,
        ensures
            final(engine).wf(),
            r.handle_id() == old(engine).next_id(),
            !old(engine).is_live(r.handle_id()),
            r.allocator_of() == allocator,
            r.contents() == Seq::<char>::empty(),
            final(engine).count_of(r.handle_id()) == 1,
            final(engine).kind_of(r.handle_id()) == Some(HandleKind::StringBuilder),
            final(engine).next_id() == old(engine).next_id() + 1,
            forall|x: u64|
                x != r.handle_id() ==> #[trigger] final(engine).count_of(x) == old(
                    engine,
                ).count_of(x),
            forall|x: u64|
                x != r.handle_id() ==> #[trigger] final(engine).kind_of(x) == old(engine).kind_of(
                    x,
                ),
            forall|x: u64|
                x != r.handle_id() ==> #[trigger] final(engine).data_of(x) == old(engine).data_of(
                    x,
                ),
            final(engine).acquire_count() == old(engine).acquire_count() + 1,
            final(engine).release_count() == old(engine).release_count(),
            final(engine).live_total() == old(engine).live_total() + 1,
            final(engine).script_len() == old(engine).script_len(),
            final(engine).peek_code() == old(engine).peek_code(),
            final(engine).peek_message() == old(engine).peek_message(),
            final(engine).peek_detail() == old(engine).peek_detail(),
            final(engine).peek_outputs() == old(engine).peek_outputs(),
            final(engine).drivers_view() == old(engine).drivers_view(),
    {
        let handle = engine.create_handle(HandleKind::StringBuilder, Vec::new());
        IreeStringBuilder { handle, allocator, content: String::new() }
    }

    /// Append text to the accumulator.
    pub fn append(&mut self, piece: &str)
        ensures
            final(self).contents() == old(self).contents() + piece@,
            final(self).handle_id() == old(self).handle_id(),
            final(self).allocator_of() == old(self).allocator_of(),
    {
        self.content.append(piece);
    }

    /// The accumulated text, as an owned copy.
    pub fn buffer(&self) -> (r: String)
        ensures
            r@ == self.contents(),
    {
        self.content.clone()
    }

    /// Deinitialize the builder, giving its native buffer back to the
    /// allocator that produced it.  Consuming the builder makes a second
    /// release impossible.
    pub fn release(self, engine: &mut Engine)
        requires
            old(engine).wf(),
            old(engine).is_live(self.handle_id()),
        ensures
            final(engine).wf(),
            final(engine).count_of(self.handle_id()) == old(engine).count_of(self.handle_id())
                - 1,
            forall|x: u64|
                x != self.handle_id() ==> #[trigger] final(engine).count_of(x) == old(
                    engine,
                ).count_of(x),
            forall|x: u64| #[trigger] final(engine).kind_of(x) == old(engine).kind_of(x),
            forall|x: u64| #[trigger] final(engine).data_of(x) == old(engine).data_of(x),
            final(engine).acquire_count() == old(engine).acquire_count(),
            final(engine).release_count() == old(engine).release_count() + 1,
            final(engine).live_total() == old(engine).live_total() - 1,
            final(engine).next_id() == old(engine).next_id(),
            final(engine).script_len() == old(engine).script_len(),
            final(engine).peek_code() == old(engine).peek_code(),
            final(engine).peek_message() == old(engine).peek_message(),
            final(engine).peek_detail() == old(engine).peek_detail(),
            final(engine).peek_outputs() == old(engine).peek_outputs(),
            final(engine).drivers_view() == old(engine).drivers_view(),
    {
        engine.release(self.handle);
    }
}

} // verus!
