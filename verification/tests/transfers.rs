//! Host/device transfer: timeout errors leave the target untouched.

use iree_rt::allocator::IreeAllocator;
use iree_rt::engine::{Engine, EngineOutcome};
use iree_rt::hal_buffer::{IreeHalBuffer, IreeHalBufferView};
use iree_rt::hal_device::{iree_infinite_timeout, IreeHalDevice, IreeTimeout, IreeTimeoutKind};
use iree_rt::status::{IreeError, STATUS_DEADLINE_EXCEEDED};
use iree_rt::string::IreeStringView;

#[test]
fn infinite_timeout_is_absolute_zero() {
    let t = iree_infinite_timeout();
    assert_eq!(t.kind, IreeTimeoutKind::Absolute);
    assert_eq!(t.nanos, 0);
}

#[test]
fn round_trip_through_device_memory() {
    let mut engine = Engine::new();
    let allocator = IreeAllocator::system_allocator();
    let device = IreeHalDevice::new(1000, IreeStringView::new("local-task"));
    let buffer = IreeHalBuffer::allocate(4, &allocator, &mut engine).unwrap();

    let payload: Vec<u8> = vec![1, 2, 3, 4];
    device
        .transfer_h2d(&payload, 4, &buffer, 0, 0, iree_infinite_timeout(), &mut engine)
        .unwrap();

    let view = IreeHalBufferView::create(&buffer, &allocator, &mut engine).unwrap();
    let mut received: Vec<u8> = vec![0, 0, 0, 0];
    device
        .transfer_d2h(&view, 0, &mut received, 4, 0, iree_infinite_timeout(), &mut engine)
        .unwrap();
    assert_eq!(received, vec![1, 2, 3, 4]);

    view.release(&mut engine);
    buffer.release(&mut engine);
}

#[test]
fn partial_offsets_copy_the_right_bytes() {
    let mut engine = Engine::new();
    let allocator = IreeAllocator::system_allocator();
    let device = IreeHalDevice::new(1000, IreeStringView::new("local-task"));
    let buffer = IreeHalBuffer::allocate(6, &allocator, &mut engine).unwrap();

    let payload: Vec<u8> = vec![9, 8];
    device
        .transfer_h2d(&payload, 2, &buffer, 3, 0, iree_infinite_timeout(), &mut engine)
        .unwrap();
    assert_eq!(engine.read_data(buffer.handle(), 0, 6), vec![0, 0, 0, 9, 8, 0]);
    buffer.release(&mut engine);
}

#[test]
fn expired_timeout_leaves_the_target_unchanged() {
    let mut engine = Engine::new();
    let allocator = IreeAllocator::system_allocator();
    let device = IreeHalDevice::new(1000, IreeStringView::new("local-task"));
    let buffer = IreeHalBuffer::allocate(4, &allocator, &mut engine).unwrap();
    let before: Vec<u8> = vec![5, 5, 5, 5];
    device
        .transfer_h2d(&before, 4, &buffer, 0, 0, iree_infinite_timeout(), &mut engine)
        .unwrap();

    engine.script_outcome(EngineOutcome {
        code: STATUS_DEADLINE_EXCEEDED,
        message: "deadline exceeded".to_string(),
        detail: String::new(),
        outputs: Vec::new(),
    });
    let deadline = IreeTimeout { kind: IreeTimeoutKind::Relative, nanos: 1 };
    let payload: Vec<u8> = vec![1, 2, 3, 4];
    let r = device.transfer_h2d(&payload, 4, &buffer, 0, 0, deadline, &mut engine);
    match r {
        Err(IreeError::Engine { code, message }) => {
            assert_eq!(code, STATUS_DEADLINE_EXCEEDED);
            assert_eq!(message, "deadline exceeded".to_string());
        }
        _ => panic!("an expired timeout must surface as a timeout error"),
    }
    // No partial write: the buffer still holds what it held before.
    assert_eq!(engine.read_data(buffer.handle(), 0, 4), vec![5, 5, 5, 5]);
    buffer.release(&mut engine);
}

#[test]
fn failed_readback_leaves_the_host_vector_unchanged() {
    let mut engine = Engine::new();
    let allocator = IreeAllocator::system_allocator();
    let device = IreeHalDevice::new(1000, IreeStringView::new("local-task"));
    let buffer = IreeHalBuffer::allocate(2, &allocator, &mut engine).unwrap();
    let view = IreeHalBufferView::create(&buffer, &allocator, &mut engine).unwrap();

    engine.script_outcome(EngineOutcome {
        code: STATUS_DEADLINE_EXCEEDED,
        message: "deadline exceeded".to_string(),
        detail: String::new(),
        outputs: Vec::new(),
    });
    let mut received: Vec<u8> = vec![7, 7];
    let r = device.transfer_d2h(&view, 0, &mut received, 2, 0, iree_infinite_timeout(), &mut engine);
    assert!(matches!(r, Err(IreeError::Engine { .. })));
    assert_eq!(received, vec![7, 7]);

    view.release(&mut engine);
    buffer.release(&mut engine);
}

#[test]
fn device_describes_itself() {
    let device = IreeHalDevice::new(1, IreeStringView::new("local-task"));
    assert_eq!(device.driver_name().text(), "local-task");
    assert_eq!(
        device.to_string(),
        "IreeHalDevice { driver_name: local-task }".to_string()
    );
}
