//! Laws of the proof tree over whole runs of its protocol.
use crate::proof_tree::{
    after_init, after_set, has_slot, insert_pos, left_ready, no_adjacent_proved, right_ready,
    slot_pos, sorted_slots, splits_at, IndexedProof, ProofIndex, Slots,
};
use vstd::prelude::*;

verus! {

/// One call on the proof tree.
pub ghost enum TreeOp<P> {
    /// `init_node(index)`
    Init(ProofIndex),
    /// `set_proof(index, proof)`
    Record(ProofIndex, IndexedProof<P>),
}

/// The call may be made on `s`: a slot is initialised once, and a proof is
/// only recorded for a live slot.
pub open spec fn op_allowed<P>(s: Slots<P>, op: TreeOp<P>) -> bool {
    match op {
        TreeOp::Init(k) => !has_slot(s, k),
        TreeOp::Record(k, _) => has_slot(s, k),
    }
}

/// The slots after the call.
pub open spec fn apply_op<P>(s: Slots<P>, op: TreeOp<P>) -> Slots<P> {
    match op {
        TreeOp::Init(k) => after_init(s, k),
        TreeOp::Record(k, p) => after_set(s, k, p).0,
    }
}

/// The call hands out a pair to merge.
pub open spec fn op_merges<P>(s: Slots<P>, op: TreeOp<P>) -> bool {
    match op {
        TreeOp::Init(_) => false,
        TreeOp::Record(k, p) => after_set(s, k, p).1 is Some,
    }
}

/// Every call of the run is allowed where it is made.
pub open spec fn ops_allowed<P>(s: Slots<P>, ops: Seq<TreeOp<P>>) -> bool
    decreases ops.len(),
{
    ops.len() == 0 || (op_allowed(s, ops[0]) && ops_allowed(apply_op(s, ops[0]), ops.drop_first()))
}

/// The slots after the run.
pub open spec fn replay<P>(s: Slots<P>, ops: Seq<TreeOp<P>>) -> Slots<P>
    decreases ops.len(),
{
    if ops.len() == 0 {
        s
    } else {
        replay(apply_op(s, ops[0]), ops.drop_first())
    }
}

/// How many calls of the run hand out a pair to merge.
pub open spec fn merge_count<P>(s: Slots<P>, ops: Seq<TreeOp<P>>) -> nat
    decreases ops.len(),
{
    if ops.len() == 0 {
        0
    } else {
        (if op_merges(s, ops[0]) {
            1nat
        } else {
            0nat
        }) + merge_count(apply_op(s, ops[0]), ops.drop_first())
    }
}

/// How many calls of the run add a slot.
pub open spec fn init_count<P>(ops: Seq<TreeOp<P>>) -> nat
    decreases ops.len(),
{
    if ops.len() == 0 {
        0
    } else {
        (if ops[0] is Init {
            1nat
        } else {
            0nat
        }) + init_count(ops.drop_first())
    }
}

proof fn lemma_split_exists<P>(s: Slots<P>, k: ProofIndex)
    requires
        sorted_slots(s),
        !has_slot(s, k),
    ensures
        splits_at(s, k, insert_pos(s, k)),
    decreases s.len(),
{
    if s.len() == 0 {
        assert(splits_at(s, k, 0));
    } else {
        let t = s.drop_last();
        let n = s.len() - 1;
        assert(!has_slot(t, k)) by {
            if has_slot(t, k) {
                let i = choose|i: int| 0 <= i < t.len() && t[i].0 == k;
                assert(s[i].0 == k);
            }
        }
        lemma_split_exists(t, k);
        let p = insert_pos(t, k);
        assert forall|i: int| 0 <= i < n implies t[i] == s[i] by {}
        if s[n].0 > k {
            assert forall|i: int| p <= i < s.len() implies s[i].0 > k by {
                if i < n {
                    assert(t[i] == s[i]);
                }
            }
            assert(splits_at(s, k, p));
        } else {
            assert(s[n].0 != k);
            assert forall|i: int| 0 <= i < s.len() implies s[i].0 < k by {
                if i < n {
                    assert(s[i].0 < s[n].0);
                }
            }
            assert(splits_at(s, k, s.len() as int));
        }
    }
}

/// Adding a placeholder keeps the slots ordered and never puts two finished
/// proofs side by side; it adds exactly one slot.
pub proof fn lemma_init_invariant<P>(s: Slots<P>, k: ProofIndex)
    requires
        sorted_slots(s),
        no_adjacent_proved(s),
        !has_slot(s, k),
    ensures
        sorted_slots(after_init(s, k)),
        no_adjacent_proved(after_init(s, k)),
        has_slot(after_init(s, k), k),
        after_init(s, k).len() == s.len() + 1,
{
    lemma_split_exists(s, k);
    let p = insert_pos(s, k);
    let t = after_init(s, k);
    assert(t[p].0 == k);
    assert(t[p].1 is InProgress);
    assert forall|a: int, b: int| 0 <= a < b < t.len() implies t[a].0 < t[b].0 by {
        if b < p {
        } else if b == p {
        } else if a < p {
        } else if a == p {
        } else {
            assert(t[a] == s[a - 1] && t[b] == s[b - 1]);
        }
    }
    assert forall|i: int| 0 <= i && i + 1 < t.len() implies !(#[trigger] t[i].1 is Proved
        && t[i + 1].1 is Proved) by {
        if i + 1 < p {
            assert(t[i] == s[i] && t[i + 1] == s[i + 1]);
            assert(!(s[i].1 is Proved && s[i + 1].1 is Proved));
        } else if i + 1 == p || i == p {
        } else {
            assert(t[i] == s[i - 1] && t[i + 1] == s[i]);
            assert(!(s[i - 1].1 is Proved && s[i].1 is Proved));
        }
    }
}

/// Recording a proof keeps the slots ordered and never leaves two finished
/// proofs side by side; a slot disappears exactly when a pair is handed out.
pub proof fn lemma_set_invariant<P>(s: Slots<P>, k: ProofIndex, p: IndexedProof<P>)
    requires
        sorted_slots(s),
        no_adjacent_proved(s),
        has_slot(s, k),
    ensures
        sorted_slots(after_set(s, k, p).0),
        no_adjacent_proved(after_set(s, k, p).0),
        has_slot(after_set(s, k, p).0, k),
        after_set(s, k, p).0.len() == if after_set(s, k, p).1 is Some {
            s.len() - 1
        } else {
            s.len() as int
        },
{
    let pos = slot_pos(s, k);
    let t = after_set(s, k, p).0;
    if left_ready(s, pos) {
        assert(t[pos - 1].0 == k);
        assert(t[pos - 1].1 is InProgress);
        assert forall|a: int, b: int| 0 <= a < b < t.len() implies t[a].0 < t[b].0 by {
            let a0 = if a < pos - 1 { a } else { a + 1 };
            let b0 = if b < pos - 1 { b } else { b + 1 };
            assert(t[a].0 == s[a0].0 && t[b].0 == s[b0].0);
        }
        assert forall|i: int| 0 <= i && i + 1 < t.len() implies !(#[trigger] t[i].1 is Proved
            && t[i + 1].1 is Proved) by {
            if i + 1 < pos - 1 {
                assert(t[i] == s[i] && t[i + 1] == s[i + 1]);
                assert(!(s[i].1 is Proved && s[i + 1].1 is Proved));
            assert(!(s[i].1 is Proved && s[i + 1].1 is Proved));
            } else if i + 1 == pos - 1 || i == pos - 1 {
            } else {
                assert(t[i] == s[i + 1] && t[i + 1] == s[i + 2]);
                assert(!(s[i + 1].1 is Proved && s[i + 2].1 is Proved));
            }
        }
    } else if right_ready(s, pos) {
        assert(t[pos].0 == k);
        assert(t[pos].1 is InProgress);
        assert forall|a: int, b: int| 0 <= a < b < t.len() implies t[a].0 < t[b].0 by {
            let a0 = if a <= pos { a } else { a + 1 };
            let b0 = if b <= pos { b } else { b + 1 };
            assert(t[a].0 == s[a0].0 && t[b].0 == s[b0].0);
        }
        assert forall|i: int| 0 <= i && i + 1 < t.len() implies !(#[trigger] t[i].1 is Proved
            && t[i + 1].1 is Proved) by {
            if i + 1 < pos {
                assert(t[i] == s[i] && t[i + 1] == s[i + 1]);
                assert(!(s[i].1 is Proved && s[i + 1].1 is Proved));
            assert(!(s[i].1 is Proved && s[i + 1].1 is Proved));
            } else if i + 1 == pos || i == pos {
            } else {
                assert(t[i] == s[i + 1] && t[i + 1] == s[i + 2]);
                assert(!(s[i + 1].1 is Proved && s[i + 2].1 is Proved));
            }
        }
    } else {
        assert(t[pos].0 == k);
        assert(pos > 0 ==> !(t[pos - 1].1 is Proved));
        assert(pos + 1 < t.len() ==> !(t[pos + 1].1 is Proved));
        assert forall|a: int, b: int| 0 <= a < b < t.len() implies t[a].0 < t[b].0 by {
            assert(t[a].0 == s[a].0 && t[b].0 == s[b].0);
        }
        assert forall|i: int| 0 <= i && i + 1 < t.len() implies !(#[trigger] t[i].1 is Proved
            && t[i + 1].1 is Proved) by {
            if i + 1 == pos || i == pos {
            } else {
                assert(t[i] == s[i] && t[i + 1] == s[i + 1]);
                assert(!(s[i].1 is Proved && s[i + 1].1 is Proved));
            assert(!(s[i].1 is Proved && s[i + 1].1 is Proved));
            }
        }
    }
}

/// Over any run of allowed calls the tree never holds two neighbouring
/// finished proofs, and each handed-out pair removes one slot: the number of
/// slots is the number added less the number of merges. So from an empty
/// tree, `n` chunks reduce to a single slot after exactly `n - 1` merges.
pub proof fn lemma_run_invariant<P>(s: Slots<P>, ops: Seq<TreeOp<P>>)
    requires
        sorted_slots(s),
        no_adjacent_proved(s),
        ops_allowed(s, ops),
    ensures
        sorted_slots(replay(s, ops)),
        no_adjacent_proved(replay(s, ops)),
        replay(s, ops).len() + merge_count(s, ops) == s.len() + init_count(ops),
        s.len() == 0 && init_count(ops) >= 1 ==> (replay(s, ops).len() == 1 <==> merge_count(s, ops)
            + 1 == init_count(ops)),
    decreases ops.len(),
{
    if ops.len() > 0 {
        let op = ops[0];
        match op {
            TreeOp::Init(k) => lemma_init_invariant(s, k),
            TreeOp::Record(k, p) => lemma_set_invariant(s, k, p),
        }
        lemma_run_invariant(apply_op(s, op), ops.drop_first());
    }
}

/// When both neighbours of a slot are done, the proof recorded for it is
/// paired with the left one: the left slot goes, the right one stays as it was.
pub proof fn lemma_left_preferred<P>(s: Slots<P>, k: ProofIndex, p: IndexedProof<P>)
    requires
        sorted_slots(s),
        has_slot(s, k),
        left_ready(s, slot_pos(s, k)),
        right_ready(s, slot_pos(s, k)),
    ensures
        after_set(s, k, p).1 == Some(seq![s[slot_pos(s, k) - 1].1->Proved_0, p]),
        !has_slot(after_set(s, k, p).0, s[slot_pos(s, k) - 1].0),
        after_set(s, k, p).0.contains(s[slot_pos(s, k) + 1]),
{
    let pos = slot_pos(s, k);
    let t = after_set(s, k, p).0;
    let left = s[pos - 1].0;
    assert(t[pos] == s[pos + 1]);
    if has_slot(t, left) {
        let i = choose|i: int| 0 <= i < t.len() && t[i].0 == left;
        if i < pos - 1 {
            assert(s[i].0 < s[pos - 1].0);
        } else if i == pos - 1 {
            assert(s[pos - 1].0 < s[pos].0);
        } else {
            assert(t[i] == s[i + 1]);
            assert(s[pos - 1].0 < s[i + 1].0);
        }
    }
}

} // verus!
