//! Tests of the in-memory log: persistent term and vote metadata and the
//! append/truncate/rollback entry operations.

use raft_core::log::{Log, MemLog};
use raft_core::Entry;

fn entry(term: u64, byte: u8) -> Entry {
    Entry { term, command: vec![byte] }
}

#[test]
fn test_current_term() {
    let mut store = MemLog::new();
    assert_eq!(0, store.current_term());
    store.set_voted_for(Some(0));
    store.set_current_term(42);
    assert_eq!(None, store.voted_for());
    assert_eq!(42, store.current_term());
    store.inc_current_term();
    assert_eq!(43, store.current_term());
}

#[test]
fn test_voted_for() {
    let mut store = MemLog::new();
    assert_eq!(None, store.voted_for());
    let id = 0;
    store.set_voted_for(Some(id));
    assert_eq!(Some(id), store.voted_for());
}

#[test]
fn test_append_entries() {
    let mut store = MemLog::new();
    assert_eq!(0, store.latest_log_index());
    assert_eq!(0, store.latest_log_term());

    // [0.1, 0.2, 0.3, 1.4]
    store.append_entries(1, &vec![entry(0, 1), entry(0, 2), entry(0, 3), entry(1, 4)]);
    assert_eq!(4, store.latest_log_index());
    assert_eq!(1, store.latest_log_term());
    assert_eq!((0, vec![1u8]), store.entry(1));
    assert_eq!((0, vec![2u8]), store.entry(2));
    assert_eq!((0, vec![3u8]), store.entry(3));
    assert_eq!((1, vec![4u8]), store.entry(4));

    // [0.1, 0.2, 0.3]
    store.append_entries(4, &vec![]);
    assert_eq!(3, store.latest_log_index());
    assert_eq!(0, store.latest_log_term());
    assert_eq!((0, vec![1u8]), store.entry(1));
    assert_eq!((0, vec![2u8]), store.entry(2));
    assert_eq!((0, vec![3u8]), store.entry(3));

    // [0.1, 0.2, 2.3, 3.4]
    store.append_entries(3, &vec![entry(2, 3), entry(3, 4)]);
    assert_eq!(4, store.latest_log_index());
    assert_eq!(3, store.latest_log_term());
    assert_eq!((0, vec![1u8]), store.entry(1));
    assert_eq!((0, vec![2u8]), store.entry(2));
    assert_eq!((2, vec![3u8]), store.entry(3));
    assert_eq!((3, vec![4u8]), store.entry(4));
}

#[test]
fn test_truncate_and_rollback() {
    let mut store = MemLog::new();
    store.append_entries(1, &vec![entry(1, 1), entry(1, 2), entry(1, 3)]);

    let tail = store.rollback(1);
    assert_eq!(2, tail.len());
    assert_eq!(vec![2u8], tail[0].command);
    assert_eq!(vec![3u8], tail[1].command);
    // rollback does not remove anything by itself
    assert_eq!(3, store.latest_log_index());

    store.truncate(1);
    assert_eq!(1, store.latest_log_index());
    assert_eq!((1, vec![1u8]), store.entry(1));
}
