//! Devices: live execution contexts with host/device transfer.

use vstd::prelude::*;
use vstd::string::*;

use crate::engine::{Engine, HandleKind};
use crate::hal_buffer::{IreeHalBuffer, IreeHalBufferView};
use crate::status::{IreeError, IreeStatus};
use crate::string::IreeStringView;
use crate::utils::iree_string_view_to_string;

verus! {

/// How the engine reads a timeout's nanosecond value.
#[derive(Clone, Copy, PartialEq, Eq, Structural, Debug)]
pub enum IreeTimeoutKind {
    Absolute,
    Relative,
}

/// A deadline for a blocking operation, forwarded to the engine as-is.
#[derive(Clone, Copy, PartialEq, Eq, Structural, Debug)]
pub struct IreeTimeout {
    pub kind: IreeTimeoutKind,
    pub nanos: i64,
}

/// The conventional "wait forever" timeout: under the engine's encoding an
/// absolute deadline of zero nanoseconds means no deadline at all, not one
/// that expires immediately.
pub fn iree_infinite_timeout() -> (t: IreeTimeout)
    ensures
        t.kind == IreeTimeoutKind::Absolute,
        t.nanos == 0,
{
    IreeTimeout { kind: IreeTimeoutKind::Absolute, nanos: 0 }
}

/// Exclusive ownership of one live device handle, remembering the name of
/// the driver that instantiated it.  The wrapper is move-only and gives the
/// reference back exactly once, through [`IreeHalDevice::release`].
pub struct IreeHalDevice {
    pub(crate) handle: u64,
    pub(crate) driver_name: IreeStringView,
}

impl IreeHalDevice {
    /// The native device handle this wrapper owns.
    pub closed spec fn handle_id(self) -> u64 {
        self.handle
    }

    /// The name of the driver the device came from.
    pub closed spec fn driver_name_view(self) -> Seq<char> {
        self.driver_name@
    }

    /// Wrap a device handle obtained from driver `driver_name`.
    pub fn new(handle: u64, driver_name: IreeStringView) -> (r: IreeHalDevice)
        ensures
            r.handle_id() == handle,
            r.driver_name_view() == driver_name@,
    {
        IreeHalDevice { handle, driver_name }
    }

    /// The name of the driver the device came from.
    pub fn driver_name(&self) -> (r: &IreeStringView)
        ensures
            r@ == self.driver_name_view(),
    {
        &self.driver_name
    }

    /// Give the device's reference back.  Consuming the wrapper makes a
    /// second release impossible.
    pub fn release(self, engine: &mut Engine)
        requires
            old(engine).wf(),
            old(engine).is_live(self.handle_id()),
        ensures
            final(engine).wf(),
            final(engine).count_of(self.handle_id()) == old(engine).count_of(self.handle_id())
                - 1,
            forall|x: u64|
                x != self.handle_id() ==> #[trigger] final(engine).count_of(x) == old(
                    engine,
                ).count_of(x),
            forall|x: u64| #[trigger] final(engine).kind_of(x) == old(engine).kind_of(x),
            forall|x: u64| #[trigger] final(engine).data_of(x) == old(engine).data_of(x),
            final(engine).acquire_count() == old(engine).acquire_count(),
            final(engine).release_count() == old(engine).release_count() + 1,
            final(engine).live_total() == old(engine).live_total() - 1,
            final(engine).next_id() == old(engine).next_id(),
            final(engine).script_len() == old(engine).script_len(),
            final(engine).peek_code() == old(engine).peek_code(),
            final(engine).peek_message() == old(engine).peek_message(),
            final(engine).peek_detail() == old(engine).peek_detail(),
            final(engine).peek_outputs() == old(engine).peek_outputs(),
            final(engine).drivers_view() == old(engine).drivers_view(),
    {
        engine.release(self.handle);
    }

    /// Stage a blocking host-to-device copy of the first `data_length`
    /// bytes of `source` into `target` at `target_offset`, bounded by
    /// `timeout`.  `flags` is an opaque bitmask forwarded uninterpreted.
    ///
    /// The engine decides completion: a non-success outcome (an expired
    /// deadline among them) becomes a structured error and the target
    /// buffer's contents are left exactly as they were — no partial write.
    pub fn transfer_h2d(
        &self,
        source: &Vec<u8>,
        data_length: usize,
        target: &IreeHalBuffer,
        target_offset: usize,
        flags: u32,
        timeout: IreeTimeout,
        engine: &mut Engine,
    ) -> (r: Result<(), IreeError>)
        requires
            old(engine).wf(),
            old(engine).is_live(target.handle_id()),
            old(engine).data_of(target.handle_id()) is Some,
            data_length <= source@.len(),
            target_offset + data_length <= old(engine).data_of(target.handle_id()).unwrap().len(),
            old(engine).next_id() < u64::MAX,
            old(engine).acquire_count() < u64::MAX,
        ensures
            final(engine).wf(),
            old(engine).peek_code() == 0 ==> (r matches Ok(u) && {
                &&& final(engine).data_of(target.handle_id()) == Some(
                    old(engine).data_of(target.handle_id()).unwrap().subrange(
                        0,
                        target_offset as int,
                    ) + source@.subrange(0, data_length as int) + old(engine).data_of(
                        target.handle_id(),
                    ).unwrap().subrange(
                        target_offset + data_length,
                        old(engine).data_of(target.handle_id()).unwrap().len() as int,
                    ),
                )
                &&& forall|x: u64|
                    x != target.handle_id() ==> #[trigger] final(engine).data_of(x) == old(
                        engine,
                    ).data_of(x)
                &&& forall|x: u64|
                    #[trigger] final(engine).count_of(x) == old(engine).count_of(x)
                &&& final(engine).live_total() == old(engine).live_total()
            }),
            old(engine).peek_code() != 0 ==> (r matches Err(e) && {
                &&& (e matches IreeError::Engine { code, message } && code == old(
                    engine,
                ).peek_code() && message@ == old(engine).peek_message())
                &&& forall|x: u64|
                    old(engine).is_live(x) ==> #[trigger] final(engine).data_of(x) == old(
                        engine,
                    ).data_of(x)
                &&& forall|x: u64|
                    #[trigger] final(engine).count_of(x) == old(engine).count_of(x)
                &&& final(engine).live_total() == old(engine).live_total()
            }),
            crate::engine::script_popped(*old(engine), *final(engine)),
    {
        let outcome = engine.take_outcome();
        if outcome.code != 0 {
            let status = IreeStatus::new(outcome.code, outcome.message);
            let err = IreeError::from_status(
                status,
                &crate::allocator::IreeAllocator::system_allocator(),
                engine,
            );
            return Err(err);
        }
        engine.write_data(target.handle(), target_offset, source, data_length);
        Ok(())
    }

    /// Stage a blocking device-to-host copy of `data_length` bytes, read
    /// from the view's storage at `source_offset`, into the front of
    /// `target`; bytes of `target` past `data_length` keep their values.
    ///
    /// The engine decides completion: a non-success outcome becomes a
    /// structured error and `target` is left exactly as it was.
    pub fn transfer_d2h(
        &self,
        source: &IreeHalBufferView,
        source_offset: usize,
        target: &mut Vec<u8>,
        data_length: usize,
        flags: u32,
        timeout: IreeTimeout,
        engine: &mut Engine,
    ) -> (r: Result<(), IreeError>)
        requires
            old(engine).wf(),
            old(engine).is_live(source.buffer_id()),
            old(engine).data_of(source.buffer_id()) is Some,
            source_offset + data_length <= old(engine).data_of(source.buffer_id()).unwrap().len(),
            data_length <= old(target)@.len(),
            old(engine).next_id() < u64::MAX,
            old(engine).acquire_count() < u64::MAX,
        ensures
            final(engine).wf(),
            old(engine).peek_code() == 0 ==> (r matches Ok(u) && {
                &&& final(target)@ == old(engine).data_of(source.buffer_id()).unwrap().subrange(
                    source_offset as int,
                    source_offset + data_length,
                ) + old(target)@.subrange(data_length as int, old(target)@.len() as int)
                &&& forall|x: u64| #[trigger] final(engine).data_of(x) == old(engine).data_of(x)
                &&& forall|x: u64|
                    #[trigger] final(engine).count_of(x) == old(engine).count_of(x)
                &&& final(engine).live_total() == old(engine).live_total()
            }),
            old(engine).peek_code() != 0 ==> (r matches Err(e) && {
                &&& (e matches IreeError::Engine { code, message } && code == old(
                    engine,
                ).peek_code() && message@ == old(engine).peek_message())
                &&& final(target)@ == old(target)@
                &&& forall|x: u64|
                    old(engine).is_live(x) ==> #[trigger] final(engine).data_of(x) == old(
                        engine,
                    ).data_of(x)
                &&& forall|x: u64|
                    #[trigger] final(engine).count_of(x) == old(engine).count_of(x)
                &&& final(engine).live_total() == old(engine).live_total()
            }),
            crate::engine::script_popped(*old(engine), *final(engine)),
    {
        let outcome = engine.take_outcome();
        if outcome.code != 0 {
            let status = IreeStatus::new(outcome.code, outcome.message);
            let err = IreeError::from_status(status, &crate::allocator::IreeAllocator::system_allocator(), engine);
            return Err(err);
        }
        let fetched = engine.read_data(source.buffer_handle(), source_offset, data_length);
        let ghost t0 = target@;
        let mut i: usize = 0;
        while i < data_length
            invariant
                i <= data_length,
                data_length <= t0.len(),
                fetched@.len() == data_length,
                target@.len() == t0.len(),
                forall|k: int| 0 <= k < i ==> #[trigger] target@[k] == fetched@[k],
                forall|k: int| i <= k < t0.len() ==> #[trigger] target@[k] == t0[k],
            decreases data_length - i,
        {
            let b = fetched[i];
            target[i] = b;
            i = i + 1;
        }
        proof {
            assert(target@ =~= fetched@ + t0.subrange(data_length as int, t0.len() as int));
        }
        Ok(())
    }

    /// A readable description of the device.
    pub fn to_string(&self) -> (r: String)
        ensures
            r@ == "IreeHalDevice { driver_name: "@ + self.driver_name_view() + " }"@,
    {
        let mut s = String::from_str("IreeHalDevice { driver_name: ");
        s.append(self.driver_name.text().as_str());
        s.append(" }");
        s
    }
}

/// A plain, copyable descriptive record for one device a driver can see,
/// produced by enumeration.  It owns no native resource.
pub struct IreeDeviceInfo {
    pub device_id: u64,
    pub path: IreeStringView,
    pub name: IreeStringView,
}

impl IreeDeviceInfo {
    /// Assemble an enumeration record.
    pub fn new(device_id: u64, path: IreeStringView, name: IreeStringView) -> (r: IreeDeviceInfo)
        ensures
            r.device_id == device_id,
            r.path@ == path@,
            r.name@ == name@,
    {
        IreeDeviceInfo { device_id, path, name }
    }

    /// A readable description: the device's path (or "none" where it has
    /// no path) and its name, in full.
    pub fn to_string(&self) -> (r: String)
        ensures
            self.path@.len() > 0 ==> r@ == "path: "@ + self.path@ + ", name: "@ + self.name@,
            self.path@.len() == 0 ==> r@ == "path: "@ + "none"@ + ", name: "@ + self.name@,
    {
        let mut s = String::from_str("path: ");
        let path_text = iree_string_view_to_string(&self.path);
        if path_text.as_str().unicode_len() > 0 {
            s.append(path_text.as_str());
        } else {
            s.append("none");
        }
        s.append(", name: ");
        let name_text = iree_string_view_to_string(&self.name);
        s.append(name_text.as_str());
        s
    }
}

} // verus!
