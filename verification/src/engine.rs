//! An instrumented model of the native execution engine.
//!
//! The native engine is an external collaborator: it hands out opaque,
//! reference-counted handles (drivers, devices, buffers, buffer views, string
//! builders, value lists, call records) and answers every fallible operation
//! with a status code, optionally carrying a message.  [`Engine`] captures
//! exactly the part of that behaviour the safety layer depends on:
//!
//! - a ledger of live handles with their reference counts, kinds and (for
//!   buffers) contents, together with running totals of acquire and release
//!   calls, so that the release-exactly-once discipline of the wrappers is
//!   checkable;
//! - a registry of installed drivers and their devices, which enumeration
//!   reads;
//! - a script of outcomes for fallible operations, so that engine failures
//!   (a missing device, an expired transfer deadline) can be exercised
//!   deterministically.
//!
//! Wrapper operations thread a `&mut Engine` through and state in their
//! contracts precisely how they move this ledger.

use vstd::prelude::*;

verus! {

/// The kinds of opaque native handles the engine hands out.
#[derive(Clone, Copy, PartialEq, Eq, Structural, Debug)]
pub enum HandleKind {
    Driver,
    Device,
    Buffer,
    BufferView,
    StringBuilder,
    ValueList,
    CallRecord,
}

/// One reference-counted handle in the engine's ledger.  An entry whose
/// count has dropped to zero is exhausted: the handle is no longer live and
/// is never resurrected.
pub struct EngineEntry {
    pub id: u64,
    pub count: u64,
    pub kind: HandleKind,
    pub data: Vec<u8>,
}

/// What the engine answers to one fallible operation.
///
/// `code` is the native status code (zero denotes success) and `message` the
/// diagnostic text attached to a failing status.  `detail` is the text a
/// successful device-information dump writes into the caller's string
/// builder, and `outputs` the contents of the buffer views a successful
/// invocation produces.  Fields that an operation does not consult are
/// ignored by it.
pub struct EngineOutcome {
    pub code: u32,
    pub message: String,
    pub detail: String,
    pub outputs: Vec<Vec<u8>>,
}

/// One device visible to a driver, as enumeration reports it.
pub struct DeviceEntry {
    pub device_id: u64,
    pub path: String,
    pub name: String,
}

/// One driver installed in the engine's registry.
pub struct DriverEntry {
    pub name: String,
    pub full_name: String,
    pub devices: Vec<DeviceEntry>,
}

/// The sum of the reference counts that entries with id `h` contribute.
pub open spec fn refs_of(s: Seq<EngineEntry>, h: u64) -> nat
    decreases s.len(),
{
    if s.len() == 0 {
        0
    } else {
        (if s[0].id == h {
            s[0].count as nat
        } else {
            0
        }) + refs_of(s.drop_first(), h)
    }
}

/// The sum of all reference counts in the ledger.
pub open spec fn total_of(s: Seq<EngineEntry>) -> nat
    decreases s.len(),
{
    if s.len() == 0 {
        0
    } else {
        s[0].count as nat + total_of(s.drop_first())
    }
}

/// The kind recorded for the first entry with id `h`, if any.
pub open spec fn kind_found(s: Seq<EngineEntry>, h: u64) -> Option<HandleKind>
    decreases s.len(),
{
    if s.len() == 0 {
        None
    } else if s[0].id == h {
        Some(s[0].kind)
    } else {
        kind_found(s.drop_first(), h)
    }
}

/// The contents recorded for the first entry with id `h`, if any.
pub open spec fn data_found(s: Seq<EngineEntry>, h: u64) -> Option<Seq<u8>>
    decreases s.len(),
{
    if s.len() == 0 {
        None
    } else if s[0].id == h {
        Some(s[0].data@)
    } else {
        data_found(s.drop_first(), h)
    }
}

proof fn lemma_push(s: Seq<EngineEntry>, e: EngineEntry, h: u64)
    ensures
        refs_of(s.push(e), h) == refs_of(s, h) + (if e.id == h {
            e.count as nat
        } else {
            0nat
        }),
        total_of(s.push(e)) == total_of(s) + e.count,
        kind_found(s, h) is Some ==> kind_found(s.push(e), h) == kind_found(s, h),
        kind_found(s, h) is None && e.id == h ==> kind_found(s.push(e), h) == Some(e.kind),
        kind_found(s, h) is None && e.id != h ==> kind_found(s.push(e), h) is None,
        data_found(s, h) is Some ==> data_found(s.push(e), h) == data_found(s, h),
        data_found(s, h) is None && e.id == h ==> data_found(s.push(e), h) == Some(e.data@),
        data_found(s, h) is None && e.id != h ==> data_found(s.push(e), h) is None,
    decreases s.len(),
{
    let t = s.push(e);
    assert(t.len() == s.len() + 1);
    assert(t[0] == if s.len() == 0 { e } else { s[0] });
    assert(refs_of(t, h) == (if t[0].id == h { t[0].count as nat } else { 0nat }) + refs_of(
        t.drop_first(),
        h,
    ));
    assert(total_of(t) == t[0].count as nat + total_of(t.drop_first()));
    if s.len() == 0 {
        assert(t.drop_first() =~= Seq::<EngineEntry>::empty());
        assert(refs_of(t.drop_first(), h) == 0);
        assert(total_of(t.drop_first()) == 0);
        assert(kind_found(t.drop_first(), h) is None);
        assert(data_found(t.drop_first(), h) is None);
        assert(refs_of(s, h) == 0);
        assert(total_of(s) == 0);
        assert(kind_found(s, h) is None);
        assert(data_found(s, h) is None);
    } else {
        assert(t.drop_first() =~= s.drop_first().push(e));
        lemma_push(s.drop_first(), e, h);
        assert(refs_of(s, h) == (if s[0].id == h { s[0].count as nat } else { 0nat }) + refs_of(
            s.drop_first(),
            h,
        ));
        assert(total_of(s) == s[0].count as nat + total_of(s.drop_first()));
    }
}

proof fn lemma_update(s: Seq<EngineEntry>, i: int, e: EngineEntry, h: u64)
    requires
        0 <= i < s.len(),
        e.id == s[i].id,
        e.kind == s[i].kind,
        forall|j: int| 0 <= j < i ==> (#[trigger] s[j].id) != s[i].id,
    ensures
        refs_of(s.update(i, e), h) as int == refs_of(s, h) as int + (if s[i].id == h {
            e.count as int - s[i].count as int
        } else {
            0
        }),
        total_of(s.update(i, e)) as int == total_of(s) as int + e.count as int - s[i].count as int,
        kind_found(s.update(i, e), h) == kind_found(s, h),
        h != s[i].id ==> data_found(s.update(i, e), h) == data_found(s, h),
        h == s[i].id ==> data_found(s.update(i, e), h) == Some(e.data@),
    decreases s.len(),
{
    if i == 0 {
        assert(s.update(0, e).drop_first() =~= s.drop_first());
    } else {
        assert(s.update(i, e).drop_first() =~= s.drop_first().update(i - 1, e));
        assert(forall|j: int|
            0 <= j < i - 1 ==> (#[trigger] s.drop_first()[j].id) == s[j + 1].id);
        lemma_update(s.drop_first(), i - 1, e, h);
    }
}

proof fn lemma_fresh(s: Seq<EngineEntry>, h: u64)
    requires
        forall|i: int| 0 <= i < s.len() ==> (#[trigger] s[i].id) != h,
    ensures
        refs_of(s, h) == 0,
        kind_found(s, h) is None,
        data_found(s, h) is None,
    decreases s.len(),
{
    if s.len() > 0 {
        assert(forall|i: int|
            0 <= i < s.drop_first().len() ==> (#[trigger] s.drop_first()[i].id) == s[i + 1].id);
        lemma_fresh(s.drop_first(), h);
    }
}

proof fn lemma_refs_le_total(s: Seq<EngineEntry>, h: u64)
    ensures
        refs_of(s, h) <= total_of(s),
    decreases s.len(),
{
    if s.len() > 0 {
        lemma_refs_le_total(s.drop_first(), h);
    }
}

proof fn lemma_refs_at_sole_match(s: Seq<EngineEntry>, i: int, h: u64)
    requires
        0 <= i < s.len(),
        s[i].id == h,
        forall|j: int| 0 <= j < s.len() && j != i ==> (#[trigger] s[j].id) != h,
    ensures
        refs_of(s, h) == s[i].count,
        kind_found(s, h) == Some(s[i].kind),
        data_found(s, h) == Some(s[i].data@),
    decreases s.len(),
{
    assert(forall|j: int|
        0 <= j < s.drop_first().len() ==> (#[trigger] s.drop_first()[j].id) == s[j + 1].id);
    if i == 0 {
        lemma_fresh(s.drop_first(), h);
    } else {
        lemma_refs_at_sole_match(s.drop_first(), i - 1, h);
    }
}

/// The instrumented engine: handle ledger, driver registry, and a script of
/// outcomes for fallible operations.
pub struct Engine {
    entries: Vec<EngineEntry>,
    next_handle: u64,
    acquires: u64,
    releases: u64,
    script: Vec<EngineOutcome>,
    drivers: Vec<DriverEntry>,
}

/// Both engines agree on the count, kind and contents of every handle.
pub open spec fn same_handles(e1: Engine, e2: Engine) -> bool {
    &&& forall|h: u64| #[trigger] e2.count_of(h) == e1.count_of(h)
    &&& forall|h: u64| #[trigger] e2.kind_of(h) == e1.kind_of(h)
    &&& forall|h: u64| #[trigger] e2.data_of(h) == e1.data_of(h)
}

/// `e2` is `e1` with the front of the outcome script consumed (a no-op on an
/// empty script, which stands for an engine that keeps succeeding).
pub open spec fn script_popped(e1: Engine, e2: Engine) -> bool {
    e2.script_len() == if e1.script_len() == 0 {
        0nat
    } else {
        (e1.script_len() - 1) as nat
    }
}

impl Engine {
    /// The number of references the engine currently holds for handle `h`.
    pub closed spec fn count_of(self, h: u64) -> nat {
        refs_of(self.entries@, h)
    }

    /// A handle is live while at least one reference to it remains.
    pub open spec fn is_live(self, h: u64) -> bool {
        self.count_of(h) > 0
    }

    /// The kind the handle was created with, or `None` if it never existed.
    pub closed spec fn kind_of(self, h: u64) -> Option<HandleKind> {
        kind_found(self.entries@, h)
    }

    /// The contents stored behind the handle, or `None` if it never existed.
    pub closed spec fn data_of(self, h: u64) -> Option<Seq<u8>> {
        data_found(self.entries@, h)
    }

    /// The sum of all live reference counts.
    pub closed spec fn live_total(self) -> nat {
        total_of(self.entries@)
    }

    /// How many references have been handed out since the engine started.
    pub closed spec fn acquire_count(self) -> u64 {
        self.acquires
    }

    /// How many references have been given back since the engine started.
    pub closed spec fn release_count(self) -> u64 {
        self.releases
    }

    /// The id the next created handle will carry.
    pub closed spec fn next_id(self) -> u64 {
        self.next_handle
    }

    /// How many scripted outcomes are still pending.
    pub closed spec fn script_len(self) -> nat {
        self.script@.len()
    }

    /// The status code the next fallible operation will see (zero when the
    /// script is exhausted: an unscripted engine succeeds).
    pub closed spec fn peek_code(self) -> u32 {
        if self.script@.len() == 0 {
            0
        } else {
            self.script@[0].code
        }
    }

    /// The message attached to the next outcome.
    pub closed spec fn peek_message(self) -> Seq<char> {
        if self.script@.len() == 0 {
            Seq::<char>::empty()
        } else {
            self.script@[0].message@
        }
    }

    /// The dump text the next successful device-information query yields.
    pub closed spec fn peek_detail(self) -> Seq<char> {
        if self.script@.len() == 0 {
            Seq::<char>::empty()
        } else {
            self.script@[0].detail@
        }
    }

    /// The contents of the buffer views the next successful invocation
    /// produces.
    pub closed spec fn peek_outputs(self) -> Seq<Seq<u8>> {
        if self.script@.len() == 0 {
            Seq::<Seq<u8>>::empty()
        } else {
            self.script@[0].outputs.deep_view()
        }
    }

    /// The installed drivers, in registry order.
    pub closed spec fn drivers_view(self) -> Seq<DriverEntry> {
        self.drivers@
    }

    /// The ledger's integrity: handle ids are unique and below the next
    /// fresh id, and every reference handed out was either given back or is
    /// still held by some entry.
    pub closed spec fn wf(self) -> bool {
        &&& forall|i: int|
            0 <= i < self.entries@.len() ==> (#[trigger] self.entries@[i].id) < self.next_handle
        &&& forall|i: int, j: int|
            #![trigger self.entries@[i].id, self.entries@[j].id]
            0 <= i < j < self.entries@.len() ==> self.entries@[i].id != self.entries@[j].id
        &&& self.acquires as int == self.releases as int + total_of(self.entries@) as int
    }

    /// A fresh engine: no handles, balanced counters, empty script and
    /// registry.
    pub fn new() -> (e: Engine)
        ensures
            e.wf(),
            e.live_total() == 0,
            e.acquire_count() == 0,
            e.release_count() == 0,
            e.next_id() == 0,
            e.script_len() == 0,
            e.drivers_view().len() == 0,
            forall|h: u64| #[trigger] e.count_of(h) == 0,
            forall|h: u64| #[trigger] e.kind_of(h) is None,
            forall|h: u64| #[trigger] e.data_of(h) is None,
    {
        Engine {
            entries: Vec::new(),
            next_handle: 0,
            acquires: 0,
            releases: 0,
            script: Vec::new(),
            drivers: Vec::new(),
        }
    }

    /// Install a driver in the registry, for enumeration and creation to
    /// find.
    pub fn install_driver(&mut self, d: DriverEntry)
        requires
            old(self).wf(),
        ensures
            final(self).wf(),
            final(self).drivers_view() == old(self).drivers_view().push(d),
            same_handles(*old(self), *final(self)),
            final(self).live_total() == old(self).live_total(),
            final(self).acquire_count() == old(self).acquire_count(),
            final(self).release_count() == old(self).release_count(),
            final(self).next_id() == old(self).next_id(),
            final(self).script_len() == old(self).script_len(),
            final(self).peek_code() == old(self).peek_code(),
            final(self).peek_message() == old(self).peek_message(),
            final(self).peek_detail() == old(self).peek_detail(),
            final(self).peek_outputs() == old(self).peek_outputs(),
    {
        self.drivers.push(d);
    }

    /// Append an outcome to the script of answers for fallible operations.
    pub fn script_outcome(&mut self, o: EngineOutcome)
        requires
            old(self).wf(),
        ensures
            final(self).wf(),
            final(self).script_len() == old(self).script_len() + 1,
            same_handles(*old(self), *final(self)),
            final(self).live_total() == old(self).live_total(),
            final(self).acquire_count() == old(self).acquire_count(),
            final(self).release_count() == old(self).release_count(),
            final(self).next_id() == old(self).next_id(),
            final(self).drivers_view() == old(self).drivers_view(),
            old(self).script_len() == 0 ==> {
                &&& final(self).peek_code() == o.code
                &&& final(self).peek_message() == o.message@
                &&& final(self).peek_detail() == o.detail@
                &&& final(self).peek_outputs() == o.outputs.deep_view()
            },
            old(self).script_len() > 0 ==> {
                &&& final(self).peek_code() == old(self).peek_code()
                &&& final(self).peek_message() == old(self).peek_message()
                &&& final(self).peek_detail() == old(self).peek_detail()
                &&& final(self).peek_outputs() == old(self).peek_outputs()
            },
    {
        self.script.push(o);
    }

    /// Consume the next scripted outcome (or an unscripted success) for one
    /// fallible operation.
    pub fn take_outcome(&mut self) -> (r: EngineOutcome)
        requires
            old(self).wf(),
        ensures
            final(self).wf(),
            r.code == old(self).peek_code(),
            r.message@ == old(self).peek_message(),
            r.detail@ == old(self).peek_detail(),
            r.outputs.deep_view() == old(self).peek_outputs(),
            same_handles(*old(self), *final(self)),
            final(self).live_total() == old(self).live_total(),
            final(self).acquire_count() == old(self).acquire_count(),
            final(self).release_count() == old(self).release_count(),
            final(self).next_id() == old(self).next_id(),
            final(self).drivers_view() == old(self).drivers_view(),
            script_popped(*old(self), *final(self)),
    {
        if self.script.len() == 0 {
            let r = EngineOutcome {
                code: 0,
                message: String::new(),
                detail: String::new(),
                outputs: Vec::new(),
            };
            proof {
                assert(r.outputs.deep_view() =~= Seq::<Seq<u8>>::empty());
            }
            r
        } else {
            self.script.remove(0)
        }
    }

    fn find_index(&self, h: u64) -> (r: Option<usize>)
        ensures
            match r {
                Some(i) => {
                    &&& i < self.entries@.len()
                    &&& self.entries@[i as int].id == h
                    &&& forall|j: int| 0 <= j < i ==> (#[trigger] self.entries@[j].id) != h
                },
                None => forall|j: int|
                    0 <= j < self.entries@.len() ==> (#[trigger] self.entries@[j].id) != h,
            },
    {
        let n = self.entries.len();
        let mut i: usize = 0;
        while i < n
            invariant
                n == self.entries@.len(),
                i <= n,
                forall|j: int| 0 <= j < i ==> (#[trigger] self.entries@[j].id) != h,
            decreases n - i,
        {
            if self.entries[i].id == h {
                return Some(i);
            }
            i = i + 1;
        }
        None
    }

    /// Create a fresh handle of the given kind holding the given contents,
    /// with one reference.  Relied on for drivers, devices, buffers, buffer
    /// views, string builders, value lists and call records alike.
    pub fn create_handle(&mut self, kind: HandleKind, data: Vec<u8>) -> (h: u64)
        requires
            old(self).wf(),
            old(self).next_id() < u64::MAX,
            old(self).acquire_count() < u64::MAX,
        ensures
            final(self).wf(),
            h == old(self).next_id(),
            !old(self).is_live(h),
            old(self).kind_of(h) is None,
            final(self).next_id() == h + 1,
            final(self).count_of(h) == 1,
            final(self).kind_of(h) == Some(kind),
            final(self).data_of(h) == Some(data@),
            forall|x: u64| x != h ==> #[trigger] final(self).count_of(x) == old(self).count_of(x),
            forall|x: u64| x != h ==> #[trigger] final(self).kind_of(x) == old(self).kind_of(x),
            forall|x: u64| x != h ==> #[trigger] final(self).data_of(x) == old(self).data_of(x),
            final(self).acquire_count() == old(self).acquire_count() + 1,
            final(self).release_count() == old(self).release_count(),
            final(self).live_total() == old(self).live_total() + 1,
            final(self).script_len() == old(self).script_len(),
            final(self).peek_code() == old(self).peek_code(),
            final(self).peek_message() == old(self).peek_message(),
            final(self).peek_detail() == old(self).peek_detail(),
            final(self).peek_outputs() == old(self).peek_outputs(),
            final(self).drivers_view() == old(self).drivers_view(),
    {
        let ghost s0 = self.entries@;
        let h = self.next_handle;
        proof {
            lemma_fresh(s0, h);
        }
        let entry = EngineEntry { id: h, count: 1, kind, data };
        self.entries.push(entry);
        self.next_handle = self.next_handle + 1;
        self.acquires = self.acquires + 1;
        proof {
            assert forall|x: u64| x != h implies #[trigger] self.count_of(x) == old(
                self,
            ).count_of(x) by {
                lemma_push(s0, entry, x);
            }
            assert forall|x: u64| x != h implies #[trigger] self.kind_of(x) == old(self).kind_of(
                x,
            ) by {
                lemma_push(s0, entry, x);
            }
            assert forall|x: u64| x != h implies #[trigger] self.data_of(x) == old(self).data_of(
                x,
            ) by {
                lemma_push(s0, entry, x);
            }
            lemma_push(s0, entry, h);
            lemma_fresh(s0, h);
        }
        h
    }

    /// Bump the reference count of a live handle by one.  Relied on when a
    /// reference is shared into a value list or a view retains its backing
    /// buffer.
    pub fn retain(&mut self, h: u64)
        requires
            old(self).wf(),
            old(self).is_live(h),
            old(self).acquire_count() < u64::MAX,
        ensures
            final(self).wf(),
            final(self).count_of(h) == old(self).count_of(h) + 1,
            forall|x: u64| x != h ==> #[trigger] final(self).count_of(x) == old(self).count_of(x),
            forall|x: u64| #[trigger] final(self).kind_of(x) == old(self).kind_of(x),
            forall|x: u64| #[trigger] final(self).data_of(x) == old(self).data_of(x),
            final(self).acquire_count() == old(self).acquire_count() + 1,
            final(self).release_count() == old(self).release_count(),
            final(self).live_total() == old(self).live_total() + 1,
            final(self).next_id() == old(self).next_id(),
            final(self).script_len() == old(self).script_len(),
            final(self).peek_code() == old(self).peek_code(),
            final(self).peek_message() == old(self).peek_message(),
            final(self).peek_detail() == old(self).peek_detail(),
            final(self).peek_outputs() == old(self).peek_outputs(),
            final(self).drivers_view() == old(self).drivers_view(),
    {
        let ghost s0 = self.entries@;
        let idx = self.find_index(h);
        if let Some(i) = idx {
            proof {
                assert(forall|j: int|
                    0 <= j < s0.len() && j != i ==> (#[trigger] s0[j].id) != h);
                lemma_refs_at_sole_match(s0, i as int, h);
                lemma_refs_le_total(s0, h);
            }
            let c = self.entries[i].count;
            let e = &mut self.entries[i];
            e.count = c + 1;
            self.acquires = self.acquires + 1;
            proof {
                let e2 = self.entries@[i as int];
                assert(self.entries@ =~= s0.update(i as int, e2));
                assert forall|x: u64| x != h implies #[trigger] self.count_of(x) == old(
                    self,
                ).count_of(x) by {
                    lemma_update(s0, i as int, e2, x);
                }
                assert forall|x: u64| #[trigger] self.kind_of(x) == old(self).kind_of(x) by {
                    lemma_update(s0, i as int, e2, x);
                }
                assert forall|x: u64| #[trigger] self.data_of(x) == old(self).data_of(x) by {
                    lemma_update(s0, i as int, e2, x);
                    if x == s0[i as int].id {
                        lemma_refs_at_sole_match(s0, i as int, x);
                        lemma_refs_at_sole_match(s0.update(i as int, e2), i as int, x);
                    }
                }
                lemma_update(s0, i as int, e2, h);
            }
        } else {
            proof {
                lemma_fresh(s0, h);
                assert(false);
            }
        }
    }

    /// Give one reference to a live handle back.  Relied on by every wrapper
    /// release.
    pub fn release(&mut self, h: u64)
        requires
            old(self).wf(),
            old(self).is_live(h),
        ensures
            final(self).wf(),
            final(self).count_of(h) == old(self).count_of(h) - 1,
            forall|x: u64| x != h ==> #[trigger] final(self).count_of(x) == old(self).count_of(x),
            forall|x: u64| #[trigger] final(self).kind_of(x) == old(self).kind_of(x),
            forall|x: u64| #[trigger] final(self).data_of(x) == old(self).data_of(x),
            final(self).acquire_count() == old(self).acquire_count(),
            final(self).release_count() == old(self).release_count() + 1,
            final(self).live_total() == old(self).live_total() - 1,
            final(self).next_id() == old(self).next_id(),
            final(self).script_len() == old(self).script_len(),
            final(self).peek_code() == old(self).peek_code(),
            final(self).peek_message() == old(self).peek_message(),
            final(self).peek_detail() == old(self).peek_detail(),
            final(self).peek_outputs() == old(self).peek_outputs(),
            final(self).drivers_view() == old(self).drivers_view(),
    {
        let ghost s0 = self.entries@;
        let idx = self.find_index(h);
        if let Some(i) = idx {
            proof {
                assert(forall|j: int|
                    0 <= j < s0.len() && j != i ==> (#[trigger] s0[j].id) != h);
                lemma_refs_at_sole_match(s0, i as int, h);
                lemma_refs_le_total(s0, h);
            }
            let c = self.entries[i].count;
            let e = &mut self.entries[i];
            e.count = c - 1;
            self.releases = self.releases + 1;
            proof {
                let e2 = self.entries@[i as int];
                assert(self.entries@ =~= s0.update(i as int, e2));
                assert forall|x: u64| x != h implies #[trigger] self.count_of(x) == old(
                    self,
                ).count_of(x) by {
                    lemma_update(s0, i as int, e2, x);
                }
                assert forall|x: u64| #[trigger] self.kind_of(x) == old(self).kind_of(x) by {
                    lemma_update(s0, i as int, e2, x);
                }
                assert forall|x: u64| #[trigger] self.data_of(x) == old(self).data_of(x) by {
                    lemma_update(s0, i as int, e2, x);
                    if x == s0[i as int].id {
                        lemma_refs_at_sole_match(s0, i as int, x);
                        lemma_refs_at_sole_match(s0.update(i as int, e2), i as int, x);
                    }
                }
                lemma_update(s0, i as int, e2, h);
            }
        } else {
            proof {
                lemma_fresh(s0, h);
                assert(false);
            }
        }
    }

    /// Overwrite `len` bytes of the contents behind handle `h`, starting at
    /// `offset`, with the first `len` bytes of `src`.  Relied on by
    /// host-to-device transfers.
    pub fn write_data(&mut self, h: u64, offset: usize, src: &Vec<u8>, len: usize)
        requires
            old(self).wf(),
            old(self).is_live(h),
            old(self).data_of(h) is Some,
            offset + len <= old(self).data_of(h).unwrap().len(),
            len <= src@.len(),
        ensures
            final(self).wf(),
            final(self).data_of(h) == Some(
                old(self).data_of(h).unwrap().subrange(0, offset as int) + src@.subrange(
                    0,
                    len as int,
                ) + old(self).data_of(h).unwrap().subrange(
                    offset + len,
                    old(self).data_of(h).unwrap().len() as int,
                ),
            ),
            forall|x: u64| x != h ==> #[trigger] final(self).data_of(x) == old(self).data_of(x),
            forall|x: u64| #[trigger] final(self).count_of(x) == old(self).count_of(x),
            forall|x: u64| #[trigger] final(self).kind_of(x) == old(self).kind_of(x),
            final(self).acquire_count() == old(self).acquire_count(),
            final(self).release_count() == old(self).release_count(),
            final(self).live_total() == old(self).live_total(),
            final(self).next_id() == old(self).next_id(),
            final(self).script_len() == old(self).script_len(),
            final(self).peek_code() == old(self).peek_code(),
            final(self).peek_message() == old(self).peek_message(),
            final(self).peek_detail() == old(self).peek_detail(),
            final(self).peek_outputs() == old(self).peek_outputs(),
            final(self).drivers_view() == old(self).drivers_view(),
    {
        let ghost s0 = self.entries@;
        let idx = self.find_index(h);
        if let Some(i) = idx {
            proof {
                assert(forall|j: int|
                    0 <= j < s0.len() && j != i ==> (#[trigger] s0[j].id) != h);
                lemma_refs_at_sole_match(s0, i as int, h);
            }
            let ghost d0 = self.entries@[i as int].data@;
            let n = self.entries[i].data.len();
            let mut new_data: Vec<u8> = Vec::new();
            let mut j: usize = 0;
            while j < n
                invariant
                    j <= n,
                    i < self.entries@.len(),
                    n == self.entries@[i as int].data@.len(),
                    self.entries@[i as int].data@ == d0,
                    offset + len <= n,
                    len <= src@.len(),
                    new_data@.len() == j,
                    forall|k: int|
                        0 <= k < j ==> #[trigger] new_data@[k] == if offset <= k < offset + len {
                            src@[k - offset]
                        } else {
                            d0[k]
                        },
                decreases n - j,
            {
                if offset <= j && j < offset + len {
                    new_data.push(src[j - offset]);
                } else {
                    new_data.push(self.entries[i].data[j]);
                }
                j = j + 1;
            }
            let id = self.entries[i].id;
            let count = self.entries[i].count;
            let kind = self.entries[i].kind;
            self.entries[i] = EngineEntry { id, count, kind, data: new_data };
            proof {
                let e2 = self.entries@[i as int];
                assert(self.entries@ =~= s0.update(i as int, e2));
                assert forall|x: u64| x != h implies #[trigger] self.data_of(x) == old(
                    self,
                ).data_of(x) by {
                    lemma_update(s0, i as int, e2, x);
                }
                assert forall|x: u64| #[trigger] self.count_of(x) == old(self).count_of(x) by {
                    lemma_update(s0, i as int, e2, x);
                }
                assert forall|x: u64| #[trigger] self.kind_of(x) == old(self).kind_of(x) by {
                    lemma_update(s0, i as int, e2, x);
                }
                lemma_update(s0, i as int, e2, h);
                assert(e2.data@ =~= d0.subrange(0, offset as int) + src@.subrange(0, len as int)
                    + d0.subrange(offset + len, d0.len() as int));
            }
        } else {
            proof {
                lemma_fresh(s0, h);
                assert(false);
            }
        }
    }

    /// Copy `len` bytes of the contents behind handle `h`, starting at
    /// `offset`.  Relied on by device-to-host transfers.
    pub fn read_data(&self, h: u64, offset: usize, len: usize) -> (r: Vec<u8>)
        requires
            self.wf(),
            self.is_live(h),
            self.data_of(h) is Some,
            offset + len <= self.data_of(h).unwrap().len(),
        ensures
            r@ == self.data_of(h).unwrap().subrange(offset as int, offset + len),
    {
        let idx = self.find_index(h);
        if let Some(i) = idx {
            proof {
                assert(forall|j: int|
                    0 <= j < self.entries@.len() && j != i ==> (#[trigger] self.entries@[j].id)
                        != h);
                lemma_refs_at_sole_match(self.entries@, i as int, h);
            }
            let dn = self.entries[i].data.len();
            let mut out: Vec<u8> = Vec::new();
            let mut j: usize = 0;
            while j < len
                invariant
                    j <= len,
                    i < self.entries@.len(),
                    dn == self.entries@[i as int].data@.len(),
                    offset + len <= dn,
                    out@.len() == j,
                    forall|k: int|
                        0 <= k < j ==> #[trigger] out@[k] == self.entries@[i as int].data@[offset
                            + k],
                decreases len - j,
            {
                out.push(self.entries[i].data[offset + j]);
                j = j + 1;
            }
            proof {
                assert(out@ =~= self.data_of(h).unwrap().subrange(offset as int, offset + len));
            }
            out
        } else {
            proof {
                lemma_fresh(self.entries@, h);
                assert(false);
            }
            Vec::new()
        }
    }

    /// The current reference count of a handle, as the instrumentation
    /// reports it.
    pub fn ref_count(&self, h: u64) -> (r: u64)
        requires
            self.wf(),
        ensures
            r == self.count_of(h),
    {
        let idx = self.find_index(h);
        if let Some(i) = idx {
            proof {
                assert(forall|j: int|
                    0 <= j < self.entries@.len() && j != i ==> (#[trigger] self.entries@[j].id)
                        != h);
                lemma_refs_at_sole_match(self.entries@, i as int, h);
            }
            self.entries[i].count
        } else {
            proof {
                lemma_fresh(self.entries@, h);
            }
            0
        }
    }

    /// How many acquire calls the instrumentation has counted.
    pub fn acquire_calls(&self) -> (r: u64)
        ensures
            r == self.acquire_count(),
    {
        self.acquires
    }

    /// How many release calls the instrumentation has counted.
    pub fn release_calls(&self) -> (r: u64)
        ensures
            r == self.release_count(),
    {
        self.releases
    }

    /// How many references are still held across all handles.
    pub fn live_references(&self) -> (r: u64)
        requires
            self.wf(),
        ensures
            r == self.live_total(),
    {
        self.acquires - self.releases
    }

    /// The installed drivers, for enumeration to read.
    pub fn drivers(&self) -> (r: &Vec<DriverEntry>)
        ensures
            r@ == self.drivers_view(),
    {
        &self.drivers
    }
}

/// A handle at or past the next fresh id has never been handed out.
pub proof fn lemma_unallocated(e: Engine, h: u64)
    requires
        e.wf(),
        h >= e.next_id(),
    ensures
        e.count_of(h) == 0,
        e.kind_of(h) is None,
        e.data_of(h) is None,
{
    lemma_fresh(e.entries@, h);
}

/// The acquire/release balance: once every handle has been given back, the
/// instrumented counts agree — each reference the engine handed out was
/// released exactly once, and none twice.
pub proof fn law_refcounts_balance(e: Engine)
    requires
        e.wf(),
        e.live_total() == 0,
    ensures
        e.acquire_count() == e.release_count(),
{
}

} // verus!
