use map_types::position::Position4;
use map_types::storage::{CommitAction, CommitError, CommitEvent, CommitPhase, Storage};
use map_types::transport::{Change, ChangeMessage, EntityChange};
use sha2::Digest;

fn sha256(bytes: &[u8]) -> [u8; 32] {
    let mut h = sha2::Sha256::new();
    h.update(bytes);
    h.finalize().into()
}

fn main_branch() -> (String, String) {
    (String::from("main"), String::from("default"))
}

fn root_change() -> Change<Position4> {
    Change { parents: vec![], changes: vec![] }
}

/// Drive a freshly opened commit through backend persistence, the branch
/// update, and every handler reporting success.
fn drive_to_done(store: &mut Storage, sess: &mut map_types::storage::CommitSession) {
    let a = store.commit_step(sess, CommitEvent::BackendOk);
    assert!(matches!(a, CommitAction::UpdateBranch));
    let mut a = store.commit_step(sess, CommitEvent::BackendOk);
    while let CommitAction::InvokeHandler(_) = a {
        a = store.commit_step(sess, CommitEvent::HandlerOk);
    }
    assert!(matches!(a, CommitAction::Succeeded));
    assert_eq!(sess.phase(), CommitPhase::Done);
}

#[test]
fn commit_to_unregistered_branch_is_rejected_without_mutation() {
    let mut store = Storage::new();
    let m = ChangeMessage::from_change(root_change());
    let r = store.add_change_to_branch(&m, &main_branch());
    match r {
        Err(CommitError::BranchNotFound(e)) => {
            assert_eq!(e.branch, main_branch());
        },
        _ => panic!("expected BranchNotFound"),
    }
    assert_eq!(store.node_count(), 0);
    assert_eq!(store.edge_count(), 0);
    assert!(!store.has_node(&m.sha256));
    assert!(!store.has_branch(&main_branch()));
}

#[test]
fn commit_with_missing_parent_is_rejected_without_mutation() {
    let mut store = Storage::new();
    store.register_branch(String::from("main"), String::from("default"), [0u8; 32]);
    let absent_a = [0xaau8; 32];
    let absent_b = [0xbbu8; 32];
    let m = ChangeMessage::from_change(Change::<Position4> {
        parents: vec![absent_a, absent_b],
        changes: vec![],
    });
    let r = store.add_change_to_branch(&m, &main_branch());
    match r {
        Err(CommitError::MissingParent(e)) => {
            // only the first offending parent is reported
            assert_eq!(e.parent, absent_a);
        },
        _ => panic!("expected MissingParent"),
    }
    assert_eq!(store.node_count(), 0);
    assert_eq!(store.edge_count(), 0);
    assert_eq!(store.branch_head(&main_branch()), Some([0u8; 32]));
}

#[test]
fn end_to_end_root_commit_updates_branch_head() {
    let mut store = Storage::new();
    store.register_branch(String::from("main"), String::from("default"), [0u8; 32]);
    let change: Change<Position4> = Change {
        parents: vec![],
        changes: vec![EntityChange {
            id: 1,
            ent_type: Some(String::from("tree")),
            variant: None,
            orientation: None,
            base_position: Some(Position4 { x: 1, y: 2 }),
            elements: None,
        }],
    };
    let m = ChangeMessage::from_change(change);

    // the content identifier is the SHA-256 of the canonical encoding,
    // with the parent list folded through an isolated sub-digest
    let mut encoding: Vec<u8> = Vec::new();
    encoding.extend_from_slice(&sha256(&[]));
    encoding.extend_from_slice(&1u64.to_le_bytes());
    encoding.push(1);
    encoding.extend_from_slice(b"tree");
    encoding.push(0);
    encoding.push(0);
    encoding.push(1);
    encoding.extend_from_slice(&1i16.to_le_bytes());
    encoding.extend_from_slice(&2i16.to_le_bytes());
    encoding.push(0);
    assert_eq!(m.sha256, sha256(&encoding));

    let mut sess = store.add_change_to_branch(&m, &main_branch()).ok().unwrap();
    assert_eq!(sess.phase(), CommitPhase::Persisting);
    assert_eq!(sess.content_id(), m.sha256);
    drive_to_done(&mut store, &mut sess);

    assert_eq!(store.node_count(), 1);
    assert_eq!(store.edge_count(), 0);
    assert_eq!(store.node_at(0), m.sha256);
    assert!(store.has_node(&m.sha256));
    assert_eq!(store.branch_head(&main_branch()), Some(m.sha256));
}

#[test]
fn linear_chain_wires_each_node_to_its_declared_parent() {
    let mut store = Storage::new();
    store.register_branch(String::from("main"), String::from("default"), [0u8; 32]);

    let m1 = ChangeMessage::from_change(root_change());
    let mut s1 = store.add_change_to_branch(&m1, &main_branch()).ok().unwrap();
    drive_to_done(&mut store, &mut s1);

    let m2 = ChangeMessage::from_change(Change::<Position4> {
        parents: vec![m1.sha256],
        changes: vec![EntityChange {
            id: 2,
            ent_type: None,
            variant: Some(1),
            orientation: None,
            base_position: None,
            elements: None,
        }],
    });
    let mut s2 = store.add_change_to_branch(&m2, &main_branch()).ok().unwrap();
    drive_to_done(&mut store, &mut s2);

    let m3 = ChangeMessage::from_change(Change::<Position4> {
        parents: vec![m2.sha256],
        changes: vec![],
    });
    let mut s3 = store.add_change_to_branch(&m3, &main_branch()).ok().unwrap();
    drive_to_done(&mut store, &mut s3);

    // every node's in-edges are exactly its declared parents
    assert_eq!(store.node_count(), 3);
    assert_eq!(store.edge_count(), 2);
    assert_eq!(store.node_at(0), m1.sha256);
    assert_eq!(store.node_at(1), m2.sha256);
    assert_eq!(store.node_at(2), m3.sha256);
    assert_eq!(store.edge_at(0), (0, 1));
    assert_eq!(store.edge_at(1), (1, 2));
    // the branch head is the most recently committed identifier
    assert_eq!(store.branch_head(&main_branch()), Some(m3.sha256));
}

#[test]
fn handlers_run_in_registration_order_and_failure_keeps_commit() {
    let mut store = Storage::new();
    store.register_branch(String::from("main"), String::from("default"), [0u8; 32]);
    // h1 always succeeds, h2 always fails; priority does not reorder them
    let h1 = store.register_change_handler(99);
    let h2 = store.register_change_handler(1);
    assert_eq!((h1, h2), (0, 1));
    assert_eq!(store.handler_count(), 2);
    assert_eq!(store.handler_priority(h1), 99);
    assert_eq!(store.handler_priority(h2), 1);

    let m = ChangeMessage::from_change(root_change());
    let mut sess = store.add_change_to_branch(&m, &main_branch()).ok().unwrap();

    let a = store.commit_step(&mut sess, CommitEvent::BackendOk);
    assert!(matches!(a, CommitAction::UpdateBranch));
    let a = store.commit_step(&mut sess, CommitEvent::BackendOk);
    assert!(matches!(a, CommitAction::InvokeHandler(0)));
    // h1 observably ran before h2 was even requested
    let a = store.commit_step(&mut sess, CommitEvent::HandlerOk);
    assert!(matches!(a, CommitAction::InvokeHandler(1)));
    let a = store.commit_step(&mut sess, CommitEvent::HandlerFailed);
    assert!(matches!(a, CommitAction::Failed(CommitError::HandlerFailure(1))));
    assert_eq!(sess.phase(), CommitPhase::Failed);

    // the DAG gained its node and the head moved; the failure is only the
    // observer pipeline
    assert_eq!(store.node_count(), 1);
    assert!(store.has_node(&m.sha256));
    assert_eq!(store.branch_head(&main_branch()), Some(m.sha256));
}

#[test]
fn backend_failure_during_persistence_leaves_node_unrolled_back() {
    let mut store = Storage::new();
    store.register_branch(String::from("main"), String::from("default"), [7u8; 32]);
    let m = ChangeMessage::from_change(root_change());
    let mut sess = store.add_change_to_branch(&m, &main_branch()).ok().unwrap();
    let a = store.commit_step(&mut sess, CommitEvent::BackendFailed);
    assert!(matches!(a, CommitAction::Failed(CommitError::BackendFailure)));
    assert_eq!(sess.phase(), CommitPhase::Failed);
    // the node inserted before persistence was confirmed stays
    assert!(store.has_node(&m.sha256));
    // the branch head never moved
    assert_eq!(store.branch_head(&main_branch()), Some([7u8; 32]));
}

#[test]
fn backend_failure_during_branch_update_leaves_head_unmoved() {
    let mut store = Storage::new();
    store.register_branch(String::from("main"), String::from("default"), [7u8; 32]);
    let m = ChangeMessage::from_change(root_change());
    let mut sess = store.add_change_to_branch(&m, &main_branch()).ok().unwrap();
    let a = store.commit_step(&mut sess, CommitEvent::BackendOk);
    assert!(matches!(a, CommitAction::UpdateBranch));
    // the head moves only once the backend confirms the pointer update
    assert_eq!(store.branch_head(&main_branch()), Some([7u8; 32]));
    let a = store.commit_step(&mut sess, CommitEvent::BackendFailed);
    assert!(matches!(a, CommitAction::Failed(CommitError::BackendFailure)));
    assert_eq!(store.branch_head(&main_branch()), Some([7u8; 32]));
    // the node inserted for the persisted change stays
    assert!(store.has_node(&m.sha256));
}

#[test]
fn branch_registry_queries() {
    let mut store = Storage::new();
    let other = (String::from("main"), String::from("feature"));
    assert!(!store.has_branch(&main_branch()));
    assert_eq!(store.branch_head(&main_branch()), None);
    store.register_branch(String::from("main"), String::from("default"), [1u8; 32]);
    store.register_branch(String::from("main"), String::from("feature"), [2u8; 32]);
    assert!(store.has_branch(&main_branch()));
    assert!(store.has_branch(&other));
    assert_eq!(store.branch_head(&main_branch()), Some([1u8; 32]));
    assert_eq!(store.branch_head(&other), Some([2u8; 32]));

    // updating one head through a commit leaves the other branch alone
    let m = ChangeMessage::from_change(root_change());
    let mut sess = store.add_change_to_branch(&m, &other).ok().unwrap();
    drive_to_done(&mut store, &mut sess);
    assert_eq!(store.branch_head(&main_branch()), Some([1u8; 32]));
    assert_eq!(store.branch_head(&other), Some(m.sha256));
}
