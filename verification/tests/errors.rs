//! The status/error bridge and the error taxonomy.

use iree_rt::allocator::IreeAllocator;
use iree_rt::engine::{DeviceEntry, DriverEntry, Engine, EngineOutcome};
use iree_rt::hal_driver::IreeHalDriverRegistry;
use iree_rt::status::{
    IreeError, IreeStatus, STATUS_NOT_FOUND, STATUS_OK, STATUS_UNKNOWN,
};
use iree_rt::string::IreeStringView;

fn engine_with_driver() -> Engine {
    let mut engine = Engine::new();
    engine.install_driver(DriverEntry {
        name: "local-task".to_string(),
        full_name: "Local task-system driver".to_string(),
        devices: vec![DeviceEntry {
            device_id: 0,
            path: String::new(),
            name: "cpu0".to_string(),
        }],
    });
    engine
}

#[test]
fn is_ok_reflects_the_code() {
    assert!(IreeStatus::new(STATUS_OK, String::new()).is_ok());
    assert!(!IreeStatus::new(STATUS_UNKNOWN, String::new()).is_ok());
    assert!(!IreeStatus::new(STATUS_NOT_FOUND, String::new()).is_ok());
}

#[test]
fn from_status_carries_code_and_message() {
    let mut engine = Engine::new();
    let allocator = IreeAllocator::system_allocator();
    let status = IreeStatus::new(STATUS_UNKNOWN, "out of luck".to_string());
    let err = IreeError::from_status(status, &allocator, &mut engine);
    match &err {
        IreeError::Engine { code, message } => {
            assert_eq!(*code, STATUS_UNKNOWN);
            assert_eq!(message, "out of luck");
        }
        _ => panic!("expected an engine error"),
    }
    assert_eq!(err.message(), "out of luck".to_string());
    // The scratch string builder was given back.
    assert_eq!(engine.live_references(), 0);
    assert_eq!(engine.acquire_calls(), engine.release_calls());
}

#[test]
fn failed_device_creation_surfaces_the_engine_message() {
    let mut engine = engine_with_driver();
    let allocator = IreeAllocator::system_allocator();
    let registry = IreeHalDriverRegistry::new();
    let name = IreeStringView::new("local-task");
    let driver = registry.try_create(&name, &allocator, &mut engine).unwrap();

    engine.script_outcome(EngineOutcome {
        code: STATUS_NOT_FOUND,
        message: "device not found".to_string(),
        detail: String::new(),
        outputs: Vec::new(),
    });
    let r = driver.create_device_by_id(99, Vec::new(), &allocator, &mut engine);
    match r {
        Err(IreeError::Engine { code, message }) => {
            assert_eq!(code, STATUS_NOT_FOUND);
            assert_eq!(message, "device not found".to_string());
        }
        Err(_) => panic!("expected an engine error"),
        Ok(_) => panic!("a failed creation must not hand back a usable device"),
    }
    // No device handle was acquired by the failed call.
    driver.release(&mut engine);
    assert_eq!(engine.live_references(), 0);
}

#[test]
fn unknown_driver_name_is_a_lookup_failure() {
    let mut engine = engine_with_driver();
    let allocator = IreeAllocator::system_allocator();
    let registry = IreeHalDriverRegistry::new();
    let name = IreeStringView::new("no-such-driver");
    let r = registry.try_create(&name, &allocator, &mut engine);
    assert!(matches!(r, Err(IreeError::NotFound)));
    assert_eq!(engine.live_references(), 0);
}

#[test]
fn failed_enumeration_surfaces_the_engine_error() {
    let mut engine = engine_with_driver();
    let allocator = IreeAllocator::system_allocator();
    let registry = IreeHalDriverRegistry::new();
    engine.script_outcome(EngineOutcome {
        code: STATUS_UNKNOWN,
        message: "registry poisoned".to_string(),
        detail: String::new(),
        outputs: Vec::new(),
    });
    let r = registry.enumerate(&allocator, &mut engine);
    match r {
        Err(IreeError::Engine { code, message }) => {
            assert_eq!(code, STATUS_UNKNOWN);
            assert_eq!(message, "registry poisoned".to_string());
        }
        _ => panic!("expected an engine error"),
    }
}

#[test]
fn error_messages_name_their_condition() {
    assert_eq!(IreeError::NotFound.message(), "not found".to_string());
    assert_eq!(IreeError::EmptyPop.message(), "no pending output".to_string());
    assert_eq!(IreeError::Misuse.message(), "call already invoked".to_string());
}

#[test]
fn allocator_tokens_are_plain_values() {
    let system = IreeAllocator::system_allocator();
    assert_eq!(system.id, iree_rt::allocator::SYSTEM_ALLOCATOR_ID);
    let custom = IreeAllocator::new(3);
    assert_eq!(custom.id, 3);
    let copy = custom;
    assert_eq!(copy, custom);
}
