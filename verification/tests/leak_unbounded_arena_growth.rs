//! Checks for root-table leaks stemming from improper checkpoint
//! handling.
//!
//! Each test drives many short guest call regions, each wrapped in its
//! own arena checkpoint and producing a large temporary guest string. If
//! the checkpoint discipline leaked, the number of rooted values would
//! grow with the iteration count; instead it returns to the baseline
//! after every region.

use artichoke_bridge::interp::Interp;

const ITERATIONS: usize = 100;

#[test]
fn unbounded_arena_growth_leak_to_s() {
    let mut interp = Interp::new();
    let expected = "a".repeat(1024 * 1024);
    let baseline = interp.arena_len();
    for _ in 0..ITERATIONS {
        let arena = interp.create_arena_savepoint();
        let result = interp.convert_mut_bytes(expected.as_bytes().to_vec());
        let display = result.to_s(&interp);
        assert_eq!(display, expected.as_bytes());
        let _ = result;
        interp.restore(arena);
        assert_eq!(interp.arena_len(), baseline);
        interp.incremental_gc();
    }
    interp.full_gc();
    assert_eq!(interp.arena_len(), baseline);
    interp.close();
}

#[test]
fn unbounded_arena_growth_leak_inspect() {
    let mut interp = Interp::new();

    let mut expected = String::from('"');
    expected.push_str(&"a".repeat(1024 * 1024));
    expected.push('"');
    let expected = expected.into_bytes();

    let baseline = interp.arena_len();
    for _ in 0..ITERATIONS {
        let arena = interp.create_arena_savepoint();
        let result = interp.convert_mut_bytes("a".repeat(1024 * 1024).into_bytes());
        let debug = result.inspect(&interp);
        assert_eq!(debug, expected);
        let _ = result;
        interp.restore(arena);
        assert_eq!(interp.arena_len(), baseline);
        interp.incremental_gc();
    }
    interp.full_gc();
    assert_eq!(interp.arena_len(), baseline);
    interp.close();
}

#[test]
fn collection_reclaims_unrooted_strings() {
    let mut interp = Interp::new();
    let arena = interp.create_arena_savepoint();
    let value = interp.convert_mut_bytes(b"temporary".to_vec());
    // While rooted, the slot survives a full collection.
    let held = interp.create_arena_savepoint();
    let _ = held;
    interp.full_gc();
    assert_eq!(interp.try_convert_mut_bytes(value).unwrap(), b"temporary".to_vec());
    // Once the checkpoint is restored, the slot is reclaimed.
    interp.restore(arena);
    interp.full_gc();
    assert!(matches!(
        interp.heap[0],
        artichoke_bridge::interp::HeapSlot::Free
    ));
    interp.close();
}
