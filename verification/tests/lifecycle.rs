//! Acquire/release discipline: every reference handed out is given back
//! exactly once, and the instrumented engine's counters balance.

use iree_rt::allocator::IreeAllocator;
use iree_rt::call::{IreeRuntimeCall, IreeRuntimeSession, Ref, ToRef, VmList};
use iree_rt::engine::{DeviceEntry, DriverEntry, Engine, EngineOutcome};
use iree_rt::hal_buffer::{IreeHalBuffer, IreeHalBufferView};
use iree_rt::hal_driver::IreeHalDriverRegistry;
use iree_rt::hal_device::iree_infinite_timeout;
use iree_rt::string::IreeStringView;

fn engine_with_driver() -> Engine {
    let mut engine = Engine::new();
    engine.install_driver(DriverEntry {
        name: "local-task".to_string(),
        full_name: "Local task-system driver".to_string(),
        devices: vec![DeviceEntry {
            device_id: 7,
            path: String::new(),
            name: "cpu0".to_string(),
        }],
    });
    engine
}

#[test]
fn refcounts_balance_over_full_lifecycle() {
    let mut engine = engine_with_driver();
    let allocator = IreeAllocator::system_allocator();
    let registry = IreeHalDriverRegistry::new();

    let name = IreeStringView::new("local-task");
    let driver = registry.try_create(&name, &allocator, &mut engine).unwrap();
    let device = driver
        .create_device_by_id(7, Vec::new(), &allocator, &mut engine)
        .unwrap();

    let buffer = IreeHalBuffer::allocate(4, &allocator, &mut engine).unwrap();
    let payload: Vec<u8> = vec![1, 2, 3, 4];
    device
        .transfer_h2d(&payload, 4, &buffer, 0, 0, iree_infinite_timeout(), &mut engine)
        .unwrap();
    let view = IreeHalBufferView::create(&buffer, &allocator, &mut engine).unwrap();

    let mut list: VmList<Ref<IreeHalBufferView>> =
        VmList::create(1, allocator, &mut engine).unwrap();
    list.push_buffer(&view, &mut engine).unwrap();

    let session = IreeRuntimeSession::new(vec!["module.run".to_string()]);
    let full_name = "module.run".to_string();
    let mut call = IreeRuntimeCall::initialize_by_name(&session, &full_name, &mut engine).unwrap();
    call.inputs_push_back_buffer_view(&view, &mut engine).unwrap();
    engine.script_outcome(EngineOutcome {
        code: 0,
        message: String::new(),
        detail: String::new(),
        outputs: vec![vec![42, 43]],
    });
    call.invoke(0, &mut engine).unwrap();
    let out_view = call.outputs_pop_front_buffer_view().unwrap();

    // Give everything back, each wrapper exactly once.
    out_view.release(&mut engine);
    call.deinitialize(&mut engine);
    list.release(&mut engine);
    view.release(&mut engine);
    buffer.release(&mut engine);
    device.release(&mut engine);
    driver.release(&mut engine);

    assert_eq!(engine.live_references(), 0);
    assert_eq!(engine.acquire_calls(), engine.release_calls());
}

#[test]
fn push_ref_retain_increments_count_by_exactly_one() {
    let mut engine = Engine::new();
    let allocator = IreeAllocator::system_allocator();
    let buffer = IreeHalBuffer::allocate(2, &allocator, &mut engine).unwrap();
    let view = IreeHalBufferView::create(&buffer, &allocator, &mut engine).unwrap();
    assert_eq!(engine.ref_count(view.handle()), 1);

    let mut list: VmList<Ref<IreeHalBufferView>> =
        VmList::create(4, allocator, &mut engine).unwrap();
    let record = view.to_ref().unwrap();
    list.push_ref_retain(&record, &mut engine).unwrap();
    assert_eq!(engine.ref_count(view.handle()), 2);
    list.push_ref_retain(&record, &mut engine).unwrap();
    assert_eq!(engine.ref_count(view.handle()), 3);

    // Releasing the list gives back one reference per remaining element.
    list.release(&mut engine);
    assert_eq!(engine.ref_count(view.handle()), 1);

    view.release(&mut engine);
    buffer.release(&mut engine);
    assert_eq!(engine.live_references(), 0);
    assert_eq!(engine.acquire_calls(), engine.release_calls());
}

#[test]
fn view_retains_backing_buffer_until_released() {
    let mut engine = Engine::new();
    let allocator = IreeAllocator::system_allocator();
    let buffer = IreeHalBuffer::allocate(2, &allocator, &mut engine).unwrap();
    assert_eq!(engine.ref_count(buffer.handle()), 1);
    let view = IreeHalBufferView::create(&buffer, &allocator, &mut engine).unwrap();
    assert_eq!(engine.ref_count(buffer.handle()), 2);
    view.release(&mut engine);
    assert_eq!(engine.ref_count(buffer.handle()), 1);
    let buffer_handle = buffer.handle();
    buffer.release(&mut engine);
    assert_eq!(engine.ref_count(buffer_handle), 0);
}

#[test]
fn call_deinitialize_releases_pending_inputs_and_outputs() {
    let mut engine = Engine::new();
    let allocator = IreeAllocator::system_allocator();
    let buffer = IreeHalBuffer::allocate(2, &allocator, &mut engine).unwrap();
    let view = IreeHalBufferView::create(&buffer, &allocator, &mut engine).unwrap();

    let session = IreeRuntimeSession::new(vec!["module.run".to_string()]);
    let full_name = "module.run".to_string();
    let mut call = IreeRuntimeCall::initialize_by_name(&session, &full_name, &mut engine).unwrap();
    call.inputs_push_back_buffer_view(&view, &mut engine).unwrap();
    assert_eq!(engine.ref_count(view.handle()), 2);
    engine.script_outcome(EngineOutcome {
        code: 0,
        message: String::new(),
        detail: String::new(),
        outputs: vec![vec![1], vec![2]],
    });
    call.invoke(0, &mut engine).unwrap();

    // Two produced outputs were never popped; deinitialization releases
    // them, the retained input, and the call record itself.
    call.deinitialize(&mut engine);
    assert_eq!(engine.ref_count(view.handle()), 1);

    view.release(&mut engine);
    buffer.release(&mut engine);
    assert_eq!(engine.live_references(), 0);
    assert_eq!(engine.acquire_calls(), engine.release_calls());
}
