use dyad::proposals::{PendingProposal, ProposalId, ProposalKind, ProposalQueue};

fn pending(intent: &str, text: &str) -> PendingProposal {
    PendingProposal {
        buffer_id: 1,
        intent: intent.to_string(),
        kind: ProposalKind::ReplaceRange { version: 0, start: 0, end: 0, text: text.to_string() },
    }
}

#[test]
fn enqueue_assigns_ascending_ids() {
    let mut q = ProposalQueue::new();
    let a = q.enqueue(pending("a", "x"));
    let b = q.enqueue(pending("b", "y"));
    assert_eq!(a.0, 1);
    assert_eq!(b.0, 2);
    let list = q.list();
    assert_eq!(list.len(), 2);
    assert_eq!(list[0].id, a);
    assert_eq!(list[1].id, b);
}

#[test]
fn take_removes_the_proposal() {
    let mut q = ProposalQueue::new();
    let id = q.enqueue(pending("x", ""));
    assert_eq!(q.count(), 1);
    let taken = q.take(id).expect("present");
    assert_eq!(taken.id, id);
    assert!(q.take(id).is_none());
    assert_eq!(q.count(), 0);
}

#[test]
fn ids_are_not_handed_out_again() {
    let mut q = ProposalQueue::new();
    let a = q.enqueue(pending("a", "x"));
    q.take(a).unwrap();
    let b = q.enqueue(pending("a", "x"));
    assert_eq!(b, ProposalId(2));
    assert!(q.take(ProposalId(7)).is_none());
    assert_eq!(q.count(), 1);
}
