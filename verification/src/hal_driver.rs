//! The driver registry and drivers: enumerating and instantiating devices.

use vstd::prelude::*;
use vstd::string::*;

use crate::allocator::IreeAllocator;
use crate::engine::{DriverEntry, Engine, HandleKind};
use crate::hal_device::{IreeDeviceInfo, IreeHalDevice};
use crate::status::{IreeError, IreeStatus};
use crate::string::{IreeStringBuilder, IreeStringView};

verus! {

/// The index of the first installed driver whose name is `name`, if any.
pub open spec fn find_driver(s: Seq<DriverEntry>, name: Seq<char>) -> Option<int>
    decreases s.len(),
{
    if s.len() == 0 {
        None
    } else if s[0].name@ == name {
        Some(0int)
    } else {
        match find_driver(s.drop_first(), name) {
            Some(i) => Some(i + 1),
            None => None,
        }
    }
}

proof fn lemma_find_driver_at(s: Seq<DriverEntry>, i: int, name: Seq<char>)
    requires
        0 <= i < s.len(),
        s[i].name@ == name,
        forall|j: int| 0 <= j < i ==> (#[trigger] s[j].name@) != name,
    ensures
        find_driver(s, name) == Some(i),
    decreases s.len(),
{
    if i > 0 {
        assert(forall|j: int|
            0 <= j < s.drop_first().len() ==> (#[trigger] s.drop_first()[j].name@) == s[j
                + 1].name@);
        lemma_find_driver_at(s.drop_first(), i - 1, name);
    }
}

proof fn lemma_find_driver_none(s: Seq<DriverEntry>, name: Seq<char>)
    requires
        forall|j: int| 0 <= j < s.len() ==> (#[trigger] s[j].name@) != name,
    ensures
        find_driver(s, name) is None,
    decreases s.len(),
{
    if s.len() > 0 {
        assert(forall|j: int|
            0 <= j < s.drop_first().len() ==> (#[trigger] s.drop_first()[j].name@) == s[j
                + 1].name@);
        lemma_find_driver_none(s.drop_first(), name);
    }
}

/// A plain descriptive record for one installed driver, produced by
/// registry enumeration.
pub struct IreeDriverInfo {
    pub driver_name: IreeStringView,
    pub full_name: IreeStringView,
}

impl IreeDriverInfo {
    /// Assemble an enumeration record.
    pub fn new(driver_name: IreeStringView, full_name: IreeStringView) -> (r: IreeDriverInfo)
        ensures
            r.driver_name@ == driver_name@,
            r.full_name@ == full_name@,
    {
        IreeDriverInfo { driver_name, full_name }
    }

    /// A readable description of the record.
    pub fn to_string(&self) -> (r: String)
        ensures
            r@ == "driver_name: "@ + self.driver_name@ + ", full_name: "@ + self.full_name@,
    {
        let mut s = String::from_str("driver_name: ");
        s.append(self.driver_name.text().as_str());
        s.append(", full_name: ");
        s.append(self.full_name.text().as_str());
        s
    }
}

/// Exclusive ownership of one driver handle, remembering the name it was
/// resolved under.  The wrapper is move-only and gives the reference back
/// exactly once, through [`IreeHalDriver::release`].
pub struct IreeHalDriver {
    pub(crate) handle: u64,
    pub(crate) name: IreeStringView,
}

impl IreeHalDriver {
    /// The native driver handle this wrapper owns.
    pub closed spec fn handle_id(self) -> u64 {
        self.handle
    }

    /// The name the driver was resolved under.
    pub closed spec fn name_view(self) -> Seq<char> {
        self.name@
    }

    /// The name the driver was resolved under.
    pub fn name(&self) -> (r: &IreeStringView)
        ensures
            r@ == self.name_view(),
    {
        &self.name
    }

    /// A readable description of the driver.
    pub fn to_string(&self) -> (r: String)
        ensures
            r@ == "driver_name: "@ + self.name_view(),
    {
        let mut s = String::from_str("driver_name: ");
        s.append(self.name.text().as_str());
        s
    }

    /// Give the driver's reference back.  Consuming the wrapper makes a
    /// second release impossible.
    pub fn release(self, engine: &mut Engine)
        requires
            old(engine).wf(),
            old(engine).is_live(self.handle_id()),
        ensures
            final(engine).wf(),
            final(engine).count_of(self.handle_id()) == old(engine).count_of(self.handle_id())
                - 1,
            forall|x: u64|
                x != self.handle_id() ==> #[trigger] final(engine).count_of(x) == old(
                    engine,
                ).count_of(x),
            forall|x: u64| #[trigger] final(engine).kind_of(x) == old(engine).kind_of(x),
            forall|x: u64| #[trigger] final(engine).data_of(x) == old(engine).data_of(x),
            final(engine).acquire_count() == old(engine).acquire_count(),
            final(engine).release_count() == old(engine).release_count() + 1,
            final(engine).live_total() == old(engine).live_total() - 1,
            final(engine).next_id() == old(engine).next_id(),
            final(engine).script_len() == old(engine).script_len(),
            final(engine).drivers_view() == old(engine).drivers_view(),
    {
        engine.release(self.handle);
    }

    /// Query the devices this driver can see.  The record array is
    /// allocated through `allocator` on the native side and owned by the
    /// returned vector.
    ///
    /// The engine decides: a failing outcome becomes a structured error; a
    /// driver no longer present in the registry is a lookup failure.  On
    /// success the records mirror the registry, in its order.
    pub fn query_available_devices(&self, allocator: &IreeAllocator, engine: &mut Engine) -> (r:
        Result<Vec<IreeDeviceInfo>, IreeError>)
        requires
            old(engine).wf(),
            old(engine).next_id() < u64::MAX,
            old(engine).acquire_count() < u64::MAX,
        ensures
            final(engine).wf(),
            final(engine).drivers_view() == old(engine).drivers_view(),
            forall|x: u64| #[trigger] final(engine).count_of(x) == old(engine).count_of(x),
            final(engine).live_total() == old(engine).live_total(),
            old(engine).peek_code() == 0 && find_driver(
                old(engine).drivers_view(),
                self.name_view(),
            ) is Some ==> (r matches Ok(v) && {
                let d = old(engine).drivers_view()[find_driver(
                    old(engine).drivers_view(),
                    self.name_view(),
                ).unwrap()];
                &&& v@.len() == d.devices@.len()
                &&& forall|j: int|
                    0 <= j < v@.len() ==> {
                        &&& (#[trigger] v@[j]).device_id == d.devices@[j].device_id
                        &&& v@[j].path@ == d.devices@[j].path@
                        &&& v@[j].name@ == d.devices@[j].name@
                    }
            }),
            old(engine).peek_code() == 0 && find_driver(
                old(engine).drivers_view(),
                self.name_view(),
            ) is None ==> (r matches Err(e) && e is NotFound),
            old(engine).peek_code() != 0 ==> (r matches Err(e) && (e
                matches IreeError::Engine { code, message } && code == old(engine).peek_code()
                && message@ == old(engine).peek_message())),
            crate::engine::script_popped(*old(engine), *final(engine)),
    {
        let outcome = engine.take_outcome();
        if outcome.code != 0 {
            let status = IreeStatus::new(outcome.code, outcome.message);
            return Err(IreeError::from_status(status, allocator, engine));
        }
        let drivers = engine.drivers();
        let n = drivers.len();
        let mut idx: usize = 0;
        let mut found = false;
        let ghost dv = drivers@;
        while idx < n && !found
            invariant
                n == dv.len(),
                idx <= n,
                drivers@ == dv,
                !found ==> forall|j: int|
                    0 <= j < idx ==> (#[trigger] dv[j].name@) != self.name_view(),
                found ==> idx < n && find_driver(dv, self.name_view()) == Some(idx as int),
            decreases n - idx + if found {
                0int
            } else {
                1int
            },
        {
            if drivers[idx].name.eq(self.name.text()) {
                proof {
                    lemma_find_driver_at(dv, idx as int, self.name_view());
                }
                found = true;
            } else {
                idx = idx + 1;
            }
        }
        if !found {
            proof {
                lemma_find_driver_none(dv, self.name_view());
            }
            return Err(IreeError::NotFound);
        }
        let matched = &drivers[idx];
        let m = matched.devices.len();
        let mut infos: Vec<IreeDeviceInfo> = Vec::new();
        let mut j: usize = 0;
        while j < m
            invariant
                idx < dv.len(),
                drivers@ == dv,
                matched.devices@ == dv[idx as int].devices@,
                m == matched.devices@.len(),
                j <= m,
                infos@.len() == j,
                forall|k: int|
                    0 <= k < j ==> {
                        &&& (#[trigger] infos@[k]).device_id == matched.devices@[k].device_id
                        &&& infos@[k].path@ == matched.devices@[k].path@
                        &&& infos@[k].name@ == matched.devices@[k].name@
                    },
            decreases m - j,
        {
            let d = &matched.devices[j];
            let info = IreeDeviceInfo::new(
                d.device_id,
                IreeStringView::new(d.path.as_str()),
                IreeStringView::new(d.name.as_str()),
            );
            infos.push(info);
            j = j + 1;
        }
        Ok(infos)
    }

    /// Instantiate a device by id.  `params` is reserved for device
    /// configuration pairs; only the empty case is required and the value
    /// is forwarded uninterpreted.
    ///
    /// The engine decides: a failing outcome becomes a structured error
    /// carrying the engine's message, and then no device exists and nothing
    /// is acquired.  On success the returned wrapper owns one fresh device
    /// handle.
    pub fn create_device_by_id(
        &self,
        device_id: u64,
        _params: Vec<String>,
        allocator: &IreeAllocator,
        engine: &mut Engine,
    ) -> (r: Result<IreeHalDevice, IreeError>)
        requires
            old(engine).wf(),
            old(engine).next_id() < u64::MAX,
            old(engine).acquire_count() < u64::MAX,
        ensures
            final(engine).wf(),
            final(engine).drivers_view() == old(engine).drivers_view(),
            old(engine).peek_code() == 0 ==> (r matches Ok(d) && {
                &&& d.handle_id() == old(engine).next_id()
                &&& !old(engine).is_live(d.handle_id())
                &&& d.driver_name_view() == self.name_view()
                &&& final(engine).count_of(d.handle_id()) == 1
                &&& final(engine).kind_of(d.handle_id()) == Some(HandleKind::Device)
                &&& forall|x: u64|
                    x != d.handle_id() ==> #[trigger] final(engine).count_of(x) == old(
                        engine,
                    ).count_of(x)
                &&& final(engine).live_total() == old(engine).live_total() + 1
            }),
            old(engine).peek_code() != 0 ==> (r matches Err(e) && {
                &&& (e matches IreeError::Engine { code, message } && code == old(
                    engine,
                ).peek_code() && message@ == old(engine).peek_message())
                &&& forall|x: u64|
                    #[trigger] final(engine).count_of(x) == old(engine).count_of(x)
                &&& final(engine).live_total() == old(engine).live_total()
            }),
            crate::engine::script_popped(*old(engine), *final(engine)),
    {
        let outcome = engine.take_outcome();
        if outcome.code != 0 {
            let status = IreeStatus::new(outcome.code, outcome.message);
            return Err(IreeError::from_status(status, allocator, engine));
        }
        let handle = engine.create_handle(HandleKind::Device, Vec::new());
        let name_copy = IreeStringView::new(self.name.text().as_str());
        Ok(IreeHalDevice::new(handle, name_copy))
    }

    /// Produce a human-readable dump of a device's capabilities, written by
    /// the engine into a freshly-initialized string builder bound to the
    /// system allocator.  A failing outcome becomes a structured error
    /// rather than a sentinel string.
    pub fn device_info_string_from_device_id(&self, device_id: u64, engine: &mut Engine) -> (r:
        Result<String, IreeError>)
        requires
            old(engine).wf(),
            old(engine).next_id() < u64::MAX,
            old(engine).acquire_count() < u64::MAX,
        ensures
            final(engine).wf(),
            final(engine).drivers_view() == old(engine).drivers_view(),
            forall|x: u64| #[trigger] final(engine).count_of(x) == old(engine).count_of(x),
            final(engine).live_total() == old(engine).live_total(),
            old(engine).peek_code() == 0 ==> (r matches Ok(s) && s@ == old(engine).peek_detail()),
            old(engine).peek_code() != 0 ==> (r matches Err(e) && (e
                matches IreeError::Engine { code, message } && code == old(engine).peek_code()
                && message@ == old(engine).peek_message())),
            crate::engine::script_popped(*old(engine), *final(engine)),
    {
        let outcome = engine.take_outcome();
        if outcome.code != 0 {
            let status = IreeStatus::new(outcome.code, outcome.message);
            return Err(
                IreeError::from_status(status, &IreeAllocator::system_allocator(), engine),
            );
        }
        let mut builder = IreeStringBuilder::initialize(
            IreeAllocator::system_allocator(),
            engine,
        );
        builder.append(outcome.detail.as_str());
        let text = builder.buffer();
        builder.release(engine);
        proof {
            assert(text@ =~= old(engine).peek_detail());
        }
        Ok(text)
    }
}

/// The engine's registry of installed drivers.
pub struct IreeHalDriverRegistry {}

impl IreeHalDriverRegistry {
    /// The process-wide default registry.
    pub fn new() -> (r: IreeHalDriverRegistry) {
        IreeHalDriverRegistry {  }
    }

    /// Enumerate all discoverable drivers.  The record array is allocated
    /// through `allocator` on the native side and owned by the returned
    /// vector.  The order is engine-defined and must be treated as
    /// unordered by the caller; the records mirror the registry entries.
    pub fn enumerate(&self, allocator: &IreeAllocator, engine: &mut Engine) -> (r: Result<
        Vec<IreeDriverInfo>,
        IreeError,
    >)
        requires
            old(engine).wf(),
            old(engine).next_id() < u64::MAX,
            old(engine).acquire_count() < u64::MAX,
        ensures
            final(engine).wf(),
            final(engine).drivers_view() == old(engine).drivers_view(),
            forall|x: u64| #[trigger] final(engine).count_of(x) == old(engine).count_of(x),
            final(engine).live_total() == old(engine).live_total(),
            old(engine).peek_code() == 0 ==> (r matches Ok(v) && {
                &&& v@.len() == old(engine).drivers_view().len()
                &&& forall|j: int|
                    0 <= j < v@.len() ==> {
                        &&& (#[trigger] v@[j]).driver_name@ == old(engine).drivers_view()[j].name@
                        &&& v@[j].full_name@ == old(engine).drivers_view()[j].full_name@
                    }
            }),
            old(engine).peek_code() != 0 ==> (r matches Err(e) && (e
                matches IreeError::Engine { code, message } && code == old(engine).peek_code()
                && message@ == old(engine).peek_message())),
            crate::engine::script_popped(*old(engine), *final(engine)),
    {
        let outcome = engine.take_outcome();
        if outcome.code != 0 {
            let status = IreeStatus::new(outcome.code, outcome.message);
            return Err(IreeError::from_status(status, allocator, engine));
        }
        let drivers = engine.drivers();
        let n = drivers.len();
        let mut infos: Vec<IreeDriverInfo> = Vec::new();
        let mut j: usize = 0;
        while j < n
            invariant
                n == drivers@.len(),
                j <= n,
                infos@.len() == j,
                forall|k: int|
                    0 <= k < j ==> {
                        &&& (#[trigger] infos@[k]).driver_name@ == drivers@[k].name@
                        &&& infos@[k].full_name@ == drivers@[k].full_name@
                    },
            decreases n - j,
        {
            let d = &drivers[j];
            let info = IreeDriverInfo::new(
                IreeStringView::new(d.name.as_str()),
                IreeStringView::new(d.full_name.as_str()),
            );
            infos.push(info);
            j = j + 1;
        }
        Ok(infos)
    }

    /// Resolve a driver by exact name match and instantiate it.
    ///
    /// The engine decides first: a failing outcome becomes a structured
    /// error.  A name no installed driver carries is a lookup failure, and
    /// no unusable handle is ever handed back.  On success the returned
    /// wrapper owns one fresh driver handle.
    pub fn try_create(
        &self,
        driver_name: &IreeStringView,
        allocator: &IreeAllocator,
        engine: &mut Engine,
    ) -> (r: Result<IreeHalDriver, IreeError>)
        requires
            old(engine).wf(),
            old(engine).next_id() < u64::MAX,
            old(engine).acquire_count() < u64::MAX,
        ensures
            final(engine).wf(),
            final(engine).drivers_view() == old(engine).drivers_view(),
            old(engine).peek_code() == 0 && find_driver(
                old(engine).drivers_view(),
                driver_name@,
            ) is Some ==> (r matches Ok(d) && {
                &&& d.handle_id() == old(engine).next_id()
                &&& !old(engine).is_live(d.handle_id())
                &&& d.name_view() == driver_name@
                &&& final(engine).count_of(d.handle_id()) == 1
                &&& final(engine).kind_of(d.handle_id()) == Some(HandleKind::Driver)
                &&& forall|x: u64|
                    x != d.handle_id() ==> #[trigger] final(engine).count_of(x) == old(
                        engine,
                    ).count_of(x)
                &&& final(engine).live_total() == old(engine).live_total() + 1
            }),
            old(engine).peek_code() == 0 && find_driver(
                old(engine).drivers_view(),
                driver_name@,
            ) is None ==> (r matches Err(e) && e is NotFound && forall|x: u64|
                #[trigger] final(engine).count_of(x) == old(engine).count_of(x)),
            old(engine).peek_code() != 0 ==> (r matches Err(e) && {
                &&& (e matches IreeError::Engine { code, message } && code == old(
                    engine,
                ).peek_code() && message@ == old(engine).peek_message())
                &&& forall|x: u64|
                    #[trigger] final(engine).count_of(x) == old(engine).count_of(x)
                &&& final(engine).live_total() == old(engine).live_total()
            }),
            crate::engine::script_popped(*old(engine), *final(engine)),
    {
        let outcome = engine.take_outcome();
        if outcome.code != 0 {
            let status = IreeStatus::new(outcome.code, outcome.message);
            return Err(IreeError::from_status(status, allocator, engine));
        }
        let mut found = false;
        {
            let drivers = engine.drivers();
            let n = drivers.len();
            let mut idx: usize = 0;
            let ghost dv = drivers@;
            while idx < n && !found
                invariant
                    n == dv.len(),
                    idx <= n,
                    drivers@ == dv,
                    !found ==> forall|j: int|
                        0 <= j < idx ==> (#[trigger] dv[j].name@) != driver_name@,
                    found ==> find_driver(dv, driver_name@) is Some,
                decreases n - idx + if found {
                    0int
                } else {
                    1int
                },
            {
                if drivers[idx].name.eq(driver_name.text()) {
                    proof {
                        lemma_find_driver_at(dv, idx as int, driver_name@);
                    }
                    found = true;
                } else {
                    idx = idx + 1;
                }
            }
            if !found {
                proof {
                    lemma_find_driver_none(dv, driver_name@);
                }
            }
        }
        if !found {
            return Err(IreeError::NotFound);
        }
        let handle = engine.create_handle(HandleKind::Driver, Vec::new());
        let name_copy = IreeStringView::new(driver_name.text().as_str());
        Ok(IreeHalDriver { handle, name: name_copy })
    }
}

} // verus!
