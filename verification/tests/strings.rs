//! String views, the staging-buffer truncation bound, and the builder.

use iree_rt::allocator::IreeAllocator;
use iree_rt::engine::Engine;
use iree_rt::string::{IreeStringBuilder, IreeStringView, STRING_STAGING_CAPACITY};
use iree_rt::utils::iree_string_view_to_string;

#[test]
fn short_view_comes_back_exactly() {
    let view = IreeStringView::new("abcdef");
    assert_eq!(view.to_string(), "abcdef".to_string());
}

#[test]
fn long_view_is_truncated_to_the_staging_bound() {
    let long = "a".repeat(1500);
    let view = IreeStringView::from_string(long);
    let copied = view.to_string();
    // A 1024-byte staging buffer carries 1023 visible characters plus the
    // terminator.
    assert_eq!(copied.len(), STRING_STAGING_CAPACITY - 1);
    assert_eq!(copied, "a".repeat(1023));
}

#[test]
fn boundary_length_is_not_truncated() {
    let exact = "b".repeat(1023);
    let view = IreeStringView::from_string(exact.clone());
    assert_eq!(view.to_string(), exact);
}

#[test]
fn full_copy_has_no_staging_bound() {
    let long = "c".repeat(1500);
    let view = IreeStringView::from_string(long.clone());
    assert_eq!(iree_string_view_to_string(&view), long);
}

#[test]
fn from_string_and_new_agree() {
    let a = IreeStringView::new("driver");
    let b = IreeStringView::from_string("driver".to_string());
    assert_eq!(a.text(), b.text());
}

#[test]
fn builder_accumulates_and_releases_once() {
    let mut engine = Engine::new();
    let mut builder = IreeStringBuilder::initialize(IreeAllocator::system_allocator(), &mut engine);
    assert_eq!(engine.live_references(), 1);
    builder.append("hello");
    builder.append(", world");
    assert_eq!(builder.buffer(), "hello, world".to_string());
    builder.release(&mut engine);
    assert_eq!(engine.live_references(), 0);
    assert_eq!(engine.acquire_calls(), engine.release_calls());
}
