//! The runtime call lifecycle: single-shot invocation and FIFO outputs.

use iree_rt::allocator::IreeAllocator;
use iree_rt::call::{IreeRuntimeCall, IreeRuntimeSession, VmList};
use iree_rt::engine::{Engine, EngineOutcome};
use iree_rt::hal_buffer::{IreeHalBuffer, IreeHalBufferView};
use iree_rt::status::{IreeError, STATUS_UNKNOWN};

#[test]
fn invoke_is_single_shot() {
    let mut engine = Engine::new();
    let session = IreeRuntimeSession::new(vec!["module.run".to_string()]);
    let full_name = "module.run".to_string();
    let mut call = IreeRuntimeCall::initialize_by_name(&session, &full_name, &mut engine).unwrap();

    assert!(call.invoke(0, &mut engine).is_ok());
    let second = call.invoke(0, &mut engine);
    assert!(matches!(second, Err(IreeError::Misuse)));
    // And a third attempt keeps refusing.
    assert!(matches!(call.invoke(0, &mut engine), Err(IreeError::Misuse)));
    call.deinitialize(&mut engine);
}

#[test]
fn failed_invoke_uses_up_the_one_invocation() {
    let mut engine = Engine::new();
    let session = IreeRuntimeSession::new(vec!["module.run".to_string()]);
    let full_name = "module.run".to_string();
    let mut call = IreeRuntimeCall::initialize_by_name(&session, &full_name, &mut engine).unwrap();

    engine.script_outcome(EngineOutcome {
        code: STATUS_UNKNOWN,
        message: "vm trap".to_string(),
        detail: String::new(),
        outputs: Vec::new(),
    });
    let first = call.invoke(0, &mut engine);
    assert!(matches!(first, Err(IreeError::Engine { .. })));
    // Not even a failed execution may run twice.
    assert!(matches!(call.invoke(0, &mut engine), Err(IreeError::Misuse)));
    call.deinitialize(&mut engine);
}

#[test]
fn outputs_pop_in_fifo_order_and_empty_pop_is_an_error() {
    let mut engine = Engine::new();
    let session = IreeRuntimeSession::new(vec!["module.run".to_string()]);
    let full_name = "module.run".to_string();
    let mut call = IreeRuntimeCall::initialize_by_name(&session, &full_name, &mut engine).unwrap();
    engine.script_outcome(EngineOutcome {
        code: 0,
        message: String::new(),
        detail: String::new(),
        outputs: vec![vec![10], vec![20]],
    });
    call.invoke(0, &mut engine).unwrap();

    let first = call.outputs_pop_front_buffer_view().unwrap();
    let second = call.outputs_pop_front_buffer_view().unwrap();
    assert_eq!(engine.read_data(first.buffer_handle(), 0, 1), vec![10]);
    assert_eq!(engine.read_data(second.buffer_handle(), 0, 1), vec![20]);

    // Popping more outputs than were produced is an empty-pop error, not a
    // crash.
    let third = call.outputs_pop_front_buffer_view();
    assert!(matches!(third, Err(IreeError::EmptyPop)));

    first.release(&mut engine);
    second.release(&mut engine);
    call.deinitialize(&mut engine);
    assert_eq!(engine.live_references(), 0);
}

#[test]
fn pop_before_invoke_is_empty_pop() {
    let mut engine = Engine::new();
    let session = IreeRuntimeSession::new(vec!["module.run".to_string()]);
    let full_name = "module.run".to_string();
    let mut call = IreeRuntimeCall::initialize_by_name(&session, &full_name, &mut engine).unwrap();
    assert!(matches!(call.outputs_pop_front_buffer_view(), Err(IreeError::EmptyPop)));
    call.deinitialize(&mut engine);
}

#[test]
fn push_after_invoke_is_misuse() {
    let mut engine = Engine::new();
    let allocator = IreeAllocator::system_allocator();
    let buffer = IreeHalBuffer::allocate(1, &allocator, &mut engine).unwrap();
    let view = IreeHalBufferView::create(&buffer, &allocator, &mut engine).unwrap();
    let session = IreeRuntimeSession::new(vec!["module.run".to_string()]);
    let full_name = "module.run".to_string();
    let mut call = IreeRuntimeCall::initialize_by_name(&session, &full_name, &mut engine).unwrap();
    call.invoke(0, &mut engine).unwrap();
    let r = call.inputs_push_back_buffer_view(&view, &mut engine);
    assert!(matches!(r, Err(IreeError::Misuse)));
    // Nothing was retained by the refused push.
    assert_eq!(engine.ref_count(view.handle()), 1);
    call.deinitialize(&mut engine);
    view.release(&mut engine);
    buffer.release(&mut engine);
}

#[test]
fn initialize_by_name_rejects_unknown_names() {
    let mut engine = Engine::new();
    let session = IreeRuntimeSession::new(vec!["module.run".to_string()]);
    let missing = "module.absent".to_string();
    let r = IreeRuntimeCall::initialize_by_name(&session, &missing, &mut engine);
    assert!(matches!(r, Err(IreeError::NotFound)));
    assert_eq!(engine.live_references(), 0);
}

#[test]
fn value_list_accepts_scalars() {
    let mut engine = Engine::new();
    let allocator = IreeAllocator::system_allocator();
    let mut list: VmList<i32> = VmList::create(2, allocator, &mut engine).unwrap();
    list.push_value(11, &mut engine).unwrap();
    list.push_value(-3, &mut engine).unwrap();
    list.release(&mut engine);
    assert_eq!(engine.live_references(), 0);
    assert_eq!(engine.acquire_calls(), engine.release_calls());
}
