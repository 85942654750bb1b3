use pico_proving_service::proof_tree::{IndexedProof, ProofNode, ProofTree};

fn indexed(text: &str, start: usize, end: usize) -> IndexedProof<String> {
    IndexedProof::new(text.to_string(), start, end)
}

fn texts(v: &[IndexedProof<String>]) -> Vec<String> {
    v.iter().map(|p| (*p.inner).clone()).collect()
}

#[test]
fn indexed_proof_keeps_payload_and_range() {
    let p = indexed("proof-1", 3, 5);
    assert_eq!(*p.get_inner(), "proof-1");
    assert_eq!(p.start_chunk, 3);
    assert_eq!(p.end_chunk, 5);
    let q = p.clone();
    assert_eq!(*q.inner, "proof-1");
    assert_eq!((q.start_chunk, q.end_chunk), (3, 5));
    let d = p.duplicate();
    assert!(std::sync::Arc::ptr_eq(&d.inner, &p.inner));
}

#[test]
fn proof_node_states() {
    let n: ProofNode<String> = ProofNode::init();
    assert!(n.is_in_progress());
    assert!(!n.is_proved());
    assert!(n.finished_proof().is_none());
    let m = ProofNode::Proved(indexed("x", 0, 0));
    assert!(m.is_proved());
    assert!(!m.is_in_progress());
    assert_eq!(*m.finished_proof().unwrap().inner, "x");
}

#[test]
fn three_chunks_proved_out_of_order() {
    let mut tree: ProofTree<String> = ProofTree::new();
    for i in 0..=2 {
        tree.init_node(i);
    }
    assert_eq!(tree.len(), 3);

    assert!(tree.set_proof(1, indexed("p1", 1, 1)).is_none());
    assert_eq!(tree.len(), 3);

    let pair = tree.set_proof(2, indexed("p2", 2, 2)).unwrap();
    assert_eq!(texts(&pair), vec!["p1", "p2"]);
    assert_eq!(tree.len(), 2);

    assert!(tree.set_proof(0, indexed("p0", 0, 0)).is_none());
    assert_eq!(tree.len(), 2);

    let pair = tree.set_proof(2, indexed("p1p2", 1, 2)).unwrap();
    assert_eq!(texts(&pair), vec!["p0", "p1p2"]);
    assert_eq!((pair[0].end_chunk + 1), pair[1].start_chunk);
    assert_eq!(tree.len(), 1);
}

#[test]
fn left_neighbour_is_preferred() {
    let mut tree: ProofTree<String> = ProofTree::new();
    for i in 0..5 {
        tree.init_node(i);
    }
    // slots 1 and 3 done; 2 between them is still in progress
    assert!(tree.set_proof(1, indexed("p1", 1, 1)).is_none());
    assert!(tree.set_proof(3, indexed("p3", 3, 3)).is_none());
    let pair = tree.set_proof(2, indexed("p2", 2, 2)).unwrap();
    assert_eq!(texts(&pair), vec!["p1", "p2"]);
    assert_eq!(tree.len(), 4);
    // the right neighbour is untouched and pairs with the merge result later
    let pair = tree.set_proof(2, indexed("p1p2", 1, 2)).unwrap();
    assert_eq!(texts(&pair), vec!["p1p2", "p3"]);
    assert_eq!(tree.len(), 3);
}

#[test]
fn right_neighbour_is_taken_when_left_is_busy() {
    let mut tree: ProofTree<String> = ProofTree::new();
    for i in 0..3 {
        tree.init_node(i);
    }
    assert!(tree.set_proof(2, indexed("p2", 2, 2)).is_none());
    let pair = tree.set_proof(1, indexed("p1", 1, 1)).unwrap();
    assert_eq!(texts(&pair), vec!["p1", "p2"]);
    assert_eq!(tree.len(), 2);
}

#[test]
fn five_chunks_with_interleaved_inits() {
    let mut tree: ProofTree<String> = ProofTree::new();
    (0..=2).for_each(|i| tree.init_node(i));
    assert!(tree.set_proof(1, indexed("proof-1", 1, 1)).is_none());
    let pair = tree.set_proof(2, indexed("proof-2", 2, 2)).unwrap();
    assert_eq!(texts(&pair), vec!["proof-1", "proof-2"]);
    assert_eq!(tree.len(), 2);

    (3..=4).for_each(|i| tree.init_node(i));
    assert_eq!(tree.len(), 4);
    assert!(tree.set_proof(4, indexed("proof-4", 4, 4)).is_none());
    assert!(tree.set_proof(2, indexed("proof-1-2", 1, 2)).is_none());

    let pair = tree.set_proof(3, indexed("proof-3", 3, 3)).unwrap();
    assert_eq!(texts(&pair), vec!["proof-1-2", "proof-3"]);
    assert_eq!(tree.len(), 3);

    assert!(tree.set_proof(0, indexed("proof-0", 0, 0)).is_none());
    let pair = tree.set_proof(3, indexed("proof-1-2-3", 1, 3)).unwrap();
    assert_eq!(texts(&pair), vec!["proof-0", "proof-1-2-3"]);
    assert_eq!(tree.len(), 2);

    let pair = tree.set_proof(3, indexed("proof-0-1-2-3", 0, 3)).unwrap();
    assert_eq!(texts(&pair), vec!["proof-0-1-2-3", "proof-4"]);
    assert_eq!(tree.len(), 1);

    assert!(tree.set_proof(3, indexed("proof-0-1-2-3-4", 0, 4)).is_none());
    assert_eq!(tree.len(), 1);
}

/// Drives a tree of `n` chunks proved in `order`, feeding every merge result
/// back, and returns the number of merges until one slot is left.
fn merges_until_root(n: usize, order: &[usize]) -> usize {
    let mut tree: ProofTree<String> = ProofTree::new();
    (0..n).for_each(|i| tree.init_node(i));
    let mut pending: Vec<(usize, Vec<IndexedProof<String>>)> = Vec::new();
    for &i in order {
        if let Some(pair) = tree.set_proof(i, indexed(&format!("[{i}]"), i, i)) {
            pending.push((i, pair));
        }
    }
    let mut merges = 0;
    while let Some((slot, pair)) = pending.pop() {
        merges += 1;
        assert_eq!(pair[0].end_chunk + 1, pair[1].start_chunk);
        if tree.len() == 1 {
            break;
        }
        let merged = indexed(
            &format!("{}{}", pair[0].inner, pair[1].inner),
            pair[0].start_chunk,
            pair[1].end_chunk,
        );
        if let Some(next) = tree.set_proof(slot, merged) {
            pending.push((slot, next));
        }
    }
    assert_eq!(tree.len(), 1);
    merges
}

#[test]
fn n_chunks_need_n_minus_one_merges() {
    assert_eq!(merges_until_root(2, &[0, 1]), 1);
    assert_eq!(merges_until_root(4, &[3, 1, 0, 2]), 3);
    assert_eq!(merges_until_root(7, &[6, 0, 3, 5, 1, 4, 2]), 6);
    assert_eq!(merges_until_root(8, &[0, 1, 2, 3, 4, 5, 6, 7]), 7);
    assert_eq!(merges_until_root(8, &[7, 6, 5, 4, 3, 2, 1, 0]), 7);
}
