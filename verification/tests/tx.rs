use dyad::buffer::Buffer;
use dyad::error::EditorError;
use dyad::tx::{TxId, TxManager};

fn scratch_buffer(name: &str) -> Buffer {
    Buffer::open(format!("/tmp/dyad_tx_test_{name}.rs"), None)
}

#[test]
fn commit_records_change_in_history() {
    let mut buf = scratch_buffer("commit");
    let mut tx = TxManager::new();
    let tx_id = tx.begin("test insert".to_string(), None, &buf);
    buf.insert_str(0, "hello");
    let change_id = tx.commit(tx_id, &buf).unwrap();

    let recent = tx.recent(10);
    assert_eq!(recent.len(), 1);
    assert_eq!(recent[0].change_id, change_id);
    assert_eq!(recent[0].tx_id, tx_id);
    assert_eq!(recent[0].intent, "test insert");
    assert_eq!(recent[0].files.len(), 1);
    assert_eq!(recent[0].files[0], "/tmp/dyad_tx_test_commit.rs");
}

#[test]
fn rollback_restores_buffer_state() {
    let mut buf = scratch_buffer("rollback");
    buf.insert_str(0, "initial");
    let pre_text = buf.rope().to_string();

    let mut tx = TxManager::new();
    let tx_id = tx.begin("test".to_string(), None, &buf);
    let end = buf.len_chars();
    buf.insert_str(end, " appended");
    assert_eq!(buf.rope().to_string(), "initial appended");

    tx.rollback(tx_id, &mut buf).unwrap();
    assert_eq!(buf.rope().to_string(), pre_text);
    assert!(tx.recent(10).is_empty());
}

#[test]
fn discard_leaves_history_empty() {
    let buf = scratch_buffer("discard");
    let mut tx = TxManager::new();
    let tx_id = tx.begin("noop".to_string(), None, &buf);
    tx.discard(tx_id).unwrap();
    assert!(tx.recent(10).is_empty());
}

#[test]
fn recent_returns_entries_in_chronological_order() {
    let mut buf = scratch_buffer("recent");
    let mut tx = TxManager::new();

    let id1 = tx.begin("one".to_string(), None, &buf);
    buf.insert_str(0, "a");
    tx.commit(id1, &buf).unwrap();

    let id2 = tx.begin("two".to_string(), None, &buf);
    buf.insert_str(buf.len_chars(), "b");
    tx.commit(id2, &buf).unwrap();

    let recent = tx.recent(10);
    assert_eq!(recent.len(), 2);
    assert_eq!(recent[0].intent, "one");
    assert_eq!(recent[1].intent, "two");
    assert_eq!(tx.recent(1)[0].intent, "two");
}

#[test]
fn a_transaction_ends_once() {
    let mut buf = scratch_buffer("once");
    let mut tx = TxManager::new();
    let id = tx.begin("one".to_string(), None, &buf);
    assert_eq!(tx.pre_version(id), Some(0));
    tx.commit(id, &buf).unwrap();
    assert_eq!(tx.commit(id, &buf).unwrap_err(), EditorError::UnknownTransaction { tx: id.0 });
    assert!(tx.rollback(id, &mut buf).is_err());
    assert!(tx.discard(TxId(99)).is_err());
    assert_eq!(tx.recent(10).len(), 1);
}

#[test]
fn changes_carry_the_moment_of_their_commit() {
    let mut buf = scratch_buffer("moment");
    let mut tx = TxManager::new();
    let id = tx.begin("insert".to_string(), None, &buf);
    buf.insert_str(0, "x");
    tx.commit(id, &buf).unwrap();
    let at = tx.recent(1)[0].timestamp;
    assert!(at.secs > 1_700_000_000);
    assert!(at.nanos < 1_000_000_000);
    let id = tx.begin("again".to_string(), None, &buf);
    tx.record(id, &buf).unwrap();
    assert_eq!(tx.recent(1)[0].timestamp, at);
}
