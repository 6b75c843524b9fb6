//! Registry and driver enumeration, device queries, and the info dump.

use iree_rt::allocator::IreeAllocator;
use iree_rt::engine::{DeviceEntry, DriverEntry, Engine, EngineOutcome};
use iree_rt::hal_driver::IreeHalDriverRegistry;
use iree_rt::status::{IreeError, STATUS_UNKNOWN};
use iree_rt::string::IreeStringView;
use iree_rt::utils::iree_string_view_to_string;

fn engine_with_two_drivers() -> Engine {
    let mut engine = Engine::new();
    engine.install_driver(DriverEntry {
        name: "local-task".to_string(),
        full_name: "Local task-system driver".to_string(),
        devices: vec![
            DeviceEntry { device_id: 0, path: String::new(), name: "cpu0".to_string() },
            DeviceEntry { device_id: 1, path: "pci:0".to_string(), name: "cpu1".to_string() },
        ],
    });
    engine.install_driver(DriverEntry {
        name: "vulkan".to_string(),
        full_name: "Vulkan driver".to_string(),
        devices: Vec::new(),
    });
    engine
}

#[test]
fn enumerate_mirrors_the_registry() {
    let mut engine = engine_with_two_drivers();
    let allocator = IreeAllocator::system_allocator();
    let registry = IreeHalDriverRegistry::new();
    let infos = registry.enumerate(&allocator, &mut engine).unwrap();
    assert_eq!(infos.len(), 2);
    assert_eq!(iree_string_view_to_string(&infos[0].driver_name), "local-task".to_string());
    assert_eq!(
        iree_string_view_to_string(&infos[0].full_name),
        "Local task-system driver".to_string()
    );
    assert_eq!(iree_string_view_to_string(&infos[1].driver_name), "vulkan".to_string());
    assert_eq!(
        infos[0].to_string(),
        "driver_name: local-task, full_name: Local task-system driver".to_string()
    );
}

#[test]
fn query_available_devices_lists_the_driver_devices() {
    let mut engine = engine_with_two_drivers();
    let allocator = IreeAllocator::system_allocator();
    let registry = IreeHalDriverRegistry::new();
    let name = IreeStringView::new("local-task");
    let driver = registry.try_create(&name, &allocator, &mut engine).unwrap();
    assert_eq!(driver.name().text(), "local-task");
    assert_eq!(driver.to_string(), "driver_name: local-task".to_string());

    let devices = driver.query_available_devices(&allocator, &mut engine).unwrap();
    assert_eq!(devices.len(), 2);
    assert_eq!(devices[0].device_id, 0);
    assert_eq!(devices[1].device_id, 1);
    assert_eq!(devices[0].to_string(), "path: none, name: cpu0".to_string());
    assert_eq!(devices[1].to_string(), "path: pci:0, name: cpu1".to_string());

    driver.release(&mut engine);
    assert_eq!(engine.live_references(), 0);
}

#[test]
fn device_info_dump_returns_the_engine_detail() {
    let mut engine = engine_with_two_drivers();
    let allocator = IreeAllocator::system_allocator();
    let registry = IreeHalDriverRegistry::new();
    let name = IreeStringView::new("local-task");
    let driver = registry.try_create(&name, &allocator, &mut engine).unwrap();

    engine.script_outcome(EngineOutcome {
        code: 0,
        message: String::new(),
        detail: "cpu0: 8 cores, unified memory".to_string(),
        outputs: Vec::new(),
    });
    let text = driver.device_info_string_from_device_id(0, &mut engine).unwrap();
    assert_eq!(text, "cpu0: 8 cores, unified memory".to_string());

    driver.release(&mut engine);
    assert_eq!(engine.live_references(), 0);
    assert_eq!(engine.acquire_calls(), engine.release_calls());
}

#[test]
fn failed_device_info_dump_propagates_the_error() {
    let mut engine = engine_with_two_drivers();
    let allocator = IreeAllocator::system_allocator();
    let registry = IreeHalDriverRegistry::new();
    let name = IreeStringView::new("local-task");
    let driver = registry.try_create(&name, &allocator, &mut engine).unwrap();

    engine.script_outcome(EngineOutcome {
        code: STATUS_UNKNOWN,
        message: "dump failed".to_string(),
        detail: String::new(),
        outputs: Vec::new(),
    });
    let r = driver.device_info_string_from_device_id(0, &mut engine);
    match r {
        Err(IreeError::Engine { code, message }) => {
            assert_eq!(code, STATUS_UNKNOWN);
            assert_eq!(message, "dump failed".to_string());
        }
        _ => panic!("expected an engine error"),
    }
    driver.release(&mut engine);
}

#[test]
fn created_device_remembers_its_driver() {
    let mut engine = engine_with_two_drivers();
    let allocator = IreeAllocator::system_allocator();
    let registry = IreeHalDriverRegistry::new();
    let name = IreeStringView::new("vulkan");
    let driver = registry.try_create(&name, &allocator, &mut engine).unwrap();
    let device = driver
        .create_device_by_id(0, Vec::new(), &allocator, &mut engine)
        .unwrap();
    assert_eq!(device.driver_name().text(), "vulkan");
    device.release(&mut engine);
    driver.release(&mut engine);
    assert_eq!(engine.live_references(), 0);
}
