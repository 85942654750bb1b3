//! Online pairwise reduction of chunk proofs that arrive in any order.
//!
//! The tree is an ordered collection of slots keyed by chunk index. Each slot
//! holds either a placeholder for work in progress or a finished proof. When a
//! proof arrives for a slot, it is paired with the nearest finished neighbour,
//! the left one first; the neighbour's slot is removed and the pair is handed
//! back for merging.
use std::sync::Arc;
use vstd::prelude::*;

verus! {

/// Chunk index of a slot in the proof tree.
pub type ProofIndex = usize;

/// A proof together with the inclusive range of chunks it covers.
///
/// The range is carried for callers that check adjacency before merging; the
/// tree itself never reads it.
pub struct IndexedProof<P> {
    pub inner: Arc<P>,
    /// First chunk covered by this proof (inclusive).
    pub start_chunk: usize,
    /// Last chunk covered by this proof (inclusive).
    pub end_chunk: usize,
}

/// Relies on `Arc::clone`: the new handle shares the value of the old one.
#[verifier::external_body]
pub(crate) fn share<P>(a: &Arc<P>) -> (r: Arc<P>)
    ensures
        r == *a,
{
    Arc::clone(a)
}

impl<P> IndexedProof<P> {
    /// Wraps `proof`, which covers chunks `start_chunk..=end_chunk`.
    pub fn new(proof: P, start_chunk: usize, end_chunk: usize) -> (r: Self)
        ensures
            *r.inner == proof,
            r.start_chunk == start_chunk,
            r.end_chunk == end_chunk,
    {
        Self { inner: Arc::new(proof), start_chunk, end_chunk }
    }

    /// A shared handle to the wrapped proof.
    pub fn get_inner(&self) -> (r: Arc<P>)
        ensures
            r == self.inner,
    {
        share(&self.inner)
    }

    /// A copy that shares the wrapped proof.
    pub fn duplicate(&self) -> (r: Self)
        ensures
            r == *self,
    {
        Self { inner: share(&self.inner), start_chunk: self.start_chunk, end_chunk: self.end_chunk }
    }
}

impl<P> Clone for IndexedProof<P> {
    fn clone(&self) -> Self {
        self.duplicate()
    }
}

/// What a slot holds, as seen by contracts.
pub ghost enum SlotState<P> {
    /// Work for this slot is under way; the proofs being merged into it, if any.
    InProgress(Seq<IndexedProof<P>>),
    /// The slot's proof is done and waits for a sibling.
    Proved(IndexedProof<P>),
}

/// A slot of the proof tree.
pub enum ProofNode<P> {
    /// Proving is under way; holds the sub-proofs being merged, kept for a retry.
    InProgress(Vec<IndexedProof<P>>),
    /// The proof of this slot is done and waits for the next merge.
    Proved(IndexedProof<P>),
}

impl<P> View for ProofNode<P> {
    type V = SlotState<P>;

    open spec fn view(&self) -> SlotState<P> {
        match self {
            ProofNode::InProgress(v) => SlotState::InProgress(v@),
            ProofNode::Proved(p) => SlotState::Proved(*p),
        }
    }
}

impl<P> ProofNode<P> {
    /// A placeholder waiting for the slot's first proof.
    pub fn init() -> (r: Self)
        ensures
            r@ == SlotState::<P>::InProgress(Seq::empty()),
    {
        let r = ProofNode::InProgress(Vec::new());
        assert(r@ == SlotState::<P>::InProgress(Seq::empty()));
        r
    }

    pub fn is_in_progress(&self) -> (r: bool)
        ensures
            r == (self@ is InProgress),
    {
        match self {
            ProofNode::InProgress(_) => true,
            ProofNode::Proved(_) => false,
        }
    }

    pub fn is_proved(&self) -> (r: bool)
        ensures
            r == (self@ is Proved),
    {
        match self {
            ProofNode::InProgress(_) => false,
            ProofNode::Proved(_) => true,
        }
    }

    /// The slot's proof, if it is done.
    pub fn finished_proof(&self) -> (r: Option<IndexedProof<P>>)
        ensures
            r == (match self@ {
                SlotState::Proved(p) => Some(p),
                SlotState::InProgress(_) => None::<IndexedProof<P>>,
            }),
    {
        match self {
            ProofNode::InProgress(_) => None,
            ProofNode::Proved(p) => Some(p.duplicate()),
        }
    }
}

/// Slots in the order of their chunk indices.
pub type Slots<P> = Seq<(ProofIndex, SlotState<P>)>;

/// Chunk indices strictly increase along the slots.
pub open spec fn sorted_slots<P>(s: Slots<P>) -> bool {
    forall|i: int, j: int| 0 <= i < j < s.len() ==> s[i].0 < s[j].0
}

/// Some slot has chunk index `k`.
pub open spec fn has_slot<P>(s: Slots<P>, k: ProofIndex) -> bool {
    exists|i: int| 0 <= i < s.len() && s[i].0 == k
}

/// The position of the slot with chunk index `k`.
pub open spec fn slot_pos<P>(s: Slots<P>, k: ProofIndex) -> int {
    choose|i: int| 0 <= i < s.len() && s[i].0 == k
}

/// `p` splits the slots into those below `k` and those above it.
pub open spec fn splits_at<P>(s: Slots<P>, k: ProofIndex, p: int) -> bool {
    &&& 0 <= p <= s.len()
    &&& forall|i: int| 0 <= i < p ==> s[i].0 < k
    &&& forall|i: int| p <= i < s.len() ==> s[i].0 > k
}

/// Where a slot with chunk index `k` goes.
pub open spec fn insert_pos<P>(s: Slots<P>, k: ProofIndex) -> int {
    choose|p: int| splits_at(s, k, p)
}

/// The slots after a placeholder for chunk `k` is added.
pub open spec fn after_init<P>(s: Slots<P>, k: ProofIndex) -> Slots<P> {
    s.insert(insert_pos(s, k), (k, SlotState::InProgress(Seq::empty())))
}

/// The slot just before position `pos` holds a finished proof.
pub open spec fn left_ready<P>(s: Slots<P>, pos: int) -> bool {
    pos > 0 && s[pos - 1].1 is Proved
}

/// The slot just after position `pos` holds a finished proof.
pub open spec fn right_ready<P>(s: Slots<P>, pos: int) -> bool {
    pos + 1 < s.len() && s[pos + 1].1 is Proved
}

/// The slots, and the pair to merge if any, after `proof` arrives for chunk `k`.
///
/// The left neighbour is taken whenever it is done; the right one only when
/// the left one is not. A merged pair is listed in ascending order, the
/// sibling's slot is removed and slot `k` waits for the merge.
pub open spec fn after_set<P>(s: Slots<P>, k: ProofIndex, proof: IndexedProof<P>) -> (
    Slots<P>,
    Option<Seq<IndexedProof<P>>>,
) {
    let pos = slot_pos(s, k);
    if left_ready(s, pos) {
        let pair = seq![s[pos - 1].1->Proved_0, proof];
        (s.update(pos, (k, SlotState::InProgress(pair))).remove(pos - 1), Some(pair))
    } else if right_ready(s, pos) {
        let pair = seq![proof, s[pos + 1].1->Proved_0];
        (s.update(pos, (k, SlotState::InProgress(pair))).remove(pos + 1), Some(pair))
    } else {
        (s.update(pos, (k, SlotState::Proved(proof))), None)
    }
}

/// No two neighbouring slots both hold a finished proof.
pub open spec fn no_adjacent_proved<P>(s: Slots<P>) -> bool {
    forall|i: int|
        #![trigger s[i]]
        0 <= i && i + 1 < s.len() ==> !(s[i].1 is Proved && s[i + 1].1 is Proved)
}

/// The view of an optional list of proofs.
pub open spec fn proofs_view<P>(r: Option<Vec<IndexedProof<P>>>) -> Option<Seq<IndexedProof<P>>> {
    match r {
        Some(v) => Some(v@),
        None => None,
    }
}

/// An ordered collection of slots keyed by chunk index.
pub struct ProofTree<P> {
    tree: Vec<(ProofIndex, ProofNode<P>)>,
}

impl<P> View for ProofTree<P> {
    type V = Slots<P>;

    closed spec fn view(&self) -> Slots<P> {
        self.tree@.map_values(|e: (ProofIndex, ProofNode<P>)| (e.0, e.1@))
    }
}

/// In ordered slots, the slot with chunk index `k` sits at the one position
/// that holds `k`.
pub proof fn lemma_slot_pos_unique<P>(s: Slots<P>, k: ProofIndex, i: int)
    requires
        sorted_slots(s),
        0 <= i < s.len(),
        s[i].0 == k,
    ensures
        has_slot(s, k),
        slot_pos(s, k) == i,
{
    let j = slot_pos(s, k);
    if j < i {
        assert(s[j].0 < s[i].0);
    } else if j > i {
        assert(s[i].0 < s[j].0);
    }
}

proof fn lemma_insert_pos_unique<P>(s: Slots<P>, k: ProofIndex, p: int)
    requires
        splits_at(s, k, p),
    ensures
        insert_pos(s, k) == p,
{
    let q = insert_pos(s, k);
    assert(splits_at(s, k, q));
    if q < p {
        assert(s[q].0 < k);
    } else if q > p {
        assert(s[p].0 < k);
    }
}

impl<P> Default for ProofTree<P> {
    fn default() -> (r: Self)
        ensures
            r@ == Slots::<P>::empty(),
            r.wf(),
    {
        let r = ProofTree { tree: Vec::new() };
        assert(r@ =~= Slots::<P>::empty());
        r
    }
}

impl<P> ProofTree<P> {
    /// The slots are kept in increasing order of chunk index.
    pub open spec fn wf(&self) -> bool {
        sorted_slots(self@)
    }

    /// An empty tree.
    pub fn new() -> (r: Self)
        ensures
            r@ == Slots::<P>::empty(),
            r.wf(),
    {
        let r = ProofTree { tree: Vec::new() };
        assert(r@ =~= Slots::<P>::empty());
        r
    }

    /// Number of live slots.
    pub fn len(&self) -> (r: usize)
        ensures
            r == self@.len(),
    {
        self.tree.len()
    }

    /// The tree has a slot for chunk `index`.
    pub fn contains(&self, index: ProofIndex) -> (r: bool)
        ensures
            r == has_slot(self@, index),
    {
        let mut i: usize = 0;
        while i < self.tree.len()
            invariant
                i <= self.tree@.len(),
                self@.len() == self.tree@.len(),
                forall|j: int| 0 <= j < i ==> self@[j].0 != index,
            decreases self.tree@.len() - i,
        {
            if self.tree[i].0 == index {
                assert(self@[i as int].0 == index);
                return true;
            }
            assert(self@[i as int].0 != index);
            i += 1;
        }
        false
    }

    /// The position of the slot for chunk `index`.
    fn find_slot(&self, index: ProofIndex) -> (r: usize)
        requires
            self.wf(),
            has_slot(self@, index),
        ensures
            r < self@.len(),
            r == slot_pos(self@, index),
            self@[r as int].0 == index,
    {
        let mut i: usize = 0;
        while i < self.tree.len()
            invariant
                i <= self.tree@.len(),
                self@.len() == self.tree@.len(),
                sorted_slots(self@),
                forall|j: int| 0 <= j < i ==> self@[j].0 != index,
            decreases self.tree@.len() - i,
        {
            if self.tree[i].0 == index {
                assert(self@[i as int].0 == index);
                proof {
                    lemma_slot_pos_unique(self@, index, i as int);
                }
                return i;
            }
            assert(self@[i as int].0 != index);
            i += 1;
        }
        proof {
            let j = choose|j: int| 0 <= j < self@.len() && self@[j].0 == index;
            assert(self@[j].0 != index);
        }
        0
    }

    /// Adds a placeholder for chunk `index`, which must not have a slot yet.
    pub fn init_node(&mut self, index: ProofIndex)
        requires
            old(self).wf(),
            !has_slot(old(self)@, index),
            old(self)@.len() < usize::MAX,
        ensures
            final(self).wf(),
            final(self)@ == after_init(old(self)@, index),
    {
        let ghost s = self@;
        let mut i: usize = 0;
        while i < self.tree.len() && self.tree[i].0 < index
            invariant
                self@ == s,
                sorted_slots(s),
                i <= self.tree@.len(),
                s.len() == self.tree@.len(),
                forall|j: int| 0 <= j < i ==> s[j].0 < index,
            decreases self.tree@.len() - i,
        {
            assert(s[i as int].0 < index);
            i += 1;
        }
        proof {
            assert forall|j: int| i <= j < s.len() implies s[j].0 > index by {
                assert(s[i as int].0 >= index);
                assert(s[i as int].0 != index);
                if j > i {
                    assert(s[i as int].0 < s[j].0);
                }
            }
            assert(splits_at(s, index, i as int));
            lemma_insert_pos_unique(s, index, i as int);
        }
        let node = ProofNode::init();
        self.tree.insert(i, (index, node));
        proof {
            let t = s.insert(i as int, (index, SlotState::InProgress(Seq::empty())));
            assert(self@ =~= t);
            assert forall|a: int, b: int| 0 <= a < b < t.len() implies t[a].0 < t[b].0 by {
                if b < i {
                } else if b == i {
                } else if a < i {
                } else if a == i {
                } else {
                    assert(t[a] == s[a - 1] && t[b] == s[b - 1]);
                }
            }
        }
    }

    /// Records `proof` for the slot of chunk `index`.
    ///
    /// If the nearest slot before it holds a finished proof, that slot is
    /// removed and the pair (earlier, current) is returned. Otherwise, if the
    /// nearest slot after it holds one, that slot is removed and the pair
    /// (current, later) is returned. In both cases the slot of `index` then
    /// waits for the merge. With no finished neighbour the proof is stored and
    /// nothing is returned.
    pub fn set_proof(&mut self, index: ProofIndex, proof: IndexedProof<P>) -> (r: Option<
        Vec<IndexedProof<P>>,
    >)
        requires
            old(self).wf(),
            has_slot(old(self)@, index),
        ensures
            final(self).wf(),
            (final(self)@, proofs_view(r)) == after_set(old(self)@, index, proof),
    {
        let ghost s = self@;
        let pos = self.find_slot(index);
        assert(self@.len() == self.tree@.len());
        let mut sibling: Option<(usize, Vec<IndexedProof<P>>)> = None;
        if pos > 0 {
            if let ProofNode::Proved(prev) = &self.tree[pos - 1].1 {
                sibling = Some((pos - 1, vec![prev.duplicate(), proof.duplicate()]));
            }
        }
        if sibling.is_none() && pos < self.tree.len() - 1 {
            if let ProofNode::Proved(next) = &self.tree[pos + 1].1 {
                sibling = Some((pos + 1, vec![proof.duplicate(), next.duplicate()]));
            }
        }
        match sibling {
            Some((sibling_pos, pair)) => {
                let pair_out: Vec<IndexedProof<P>> = vec![pair[0].duplicate(), pair[1].duplicate()];
                assert(pair_out@ =~= pair@);
                self.tree.set(pos, (index, ProofNode::InProgress(pair)));
                self.tree.remove(sibling_pos);
                proof {
                    let pair_s = pair_out@;
                    let u = s.update(pos as int, (index, SlotState::InProgress(pair_s)));
                    assert(self@ =~= u.remove(sibling_pos as int));
                    assert forall|a: int, b: int|
                        0 <= a < b < self@.len() implies self@[a].0 < self@[b].0 by {
                        let sp = sibling_pos as int;
                        let a0 = if a < sp { a } else { a + 1 };
                        let b0 = if b < sp { b } else { b + 1 };
                        assert(self@[a].0 == s[a0].0);
                        assert(self@[b].0 == s[b0].0);
                    }
                }
                Some(pair_out)
            },
            None => {
                self.tree.set(pos, (index, ProofNode::Proved(proof)));
                proof {
                    assert(self@ =~= s.update(pos as int, (index, SlotState::Proved(proof))));
                }
                None
            },
        }
    }

    /// Hands out the proof of the only slot, if the tree holds exactly one slot
    /// and that slot's proof is done; the slot then waits on that proof alone.
    pub fn take_sole_proof(&mut self) -> (r: Option<(ProofIndex, IndexedProof<P>)>)
        requires
            old(self).wf(),
        ensures
            final(self).wf(),
            if old(self)@.len() == 1 && old(self)@[0].1 is Proved {
                let p = old(self)@[0].1->Proved_0;
                &&& r == Some((old(self)@[0].0, p))
                &&& final(self)@ == seq![(old(self)@[0].0, SlotState::InProgress(seq![p]))]
            } else {
                &&& r is None
                &&& final(self)@ == old(self)@
            },
    {
        if self.tree.len() != 1 {
            return None;
        }
        let index = self.tree[0].0;
        let proof = match &self.tree[0].1 {
            ProofNode::Proved(p) => p.duplicate(),
            ProofNode::InProgress(_) => {
                return None;
            },
        };
        let waiting = vec![proof.duplicate()];
        assert(waiting@ =~= seq![proof]);
        self.tree.set(0, (index, ProofNode::InProgress(waiting)));
        proof {
            assert(self@ =~= seq![(index, SlotState::InProgress(seq![proof]))]);
        }
        Some((index, proof))
    }
}

} // verus!
