//! Laws of the coordinator and the workers over several steps.
use crate::gateway::{accepts, is_merge_request, process_post, GatewayState};
use crate::messages::{
    CombineMsg, CombineRequest, CombineResponse, CompressResponse, EmbedResponse, GatewayMsg,
    IpAddr, RiscvMsg, RiscvRequest, RiscvResponse, TaskId,
};
use crate::proof_tree::{
    after_set, has_slot, insert_pos, slot_pos, splits_at, IndexedProof, SlotState,
};
use crate::worker::{event_allowed, worker_step, WorkerAction, WorkerEvent, WorkerPhase};
use vstd::prelude::*;

verus! {

/// The coordinator before any event.
pub open spec fn fresh_gateway<P, F>() -> GatewayState<P, F> {
    GatewayState { producer_complete: false, slots: Seq::empty(), embed: None, final_requested: false }
}

proof fn lemma_first_slot<P>(k: usize)
    ensures
        insert_pos(Seq::<(usize, SlotState<P>)>::empty(), k) == 0,
{
    let s = Seq::<(usize, SlotState<P>)>::empty();
    assert(splits_at(s, k, 0));
    let q = insert_pos(s, k);
    assert(splits_at(s, k, q));
}

/// A run of one chunk still reaches the completing merge: whether the
/// producer's last word comes before or after the chunk's proof, the one
/// proof is sent on alone, flagged complete, once both have arrived.
pub proof fn lemma_single_chunk<R, P, F>(
    req: RiscvRequest<R>,
    res: RiscvResponse<P>,
    tid: TaskId,
    ip: IpAddr,
    rtid: TaskId,
    rip: IpAddr,
    proof_first: bool,
    s1: GatewayState<P, F>,
    s2: GatewayState<P, F>,
    s3: GatewayState<P, F>,
    o1: Option<GatewayMsg<R, P, F>>,
    o2: Option<GatewayMsg<R, P, F>>,
    o3: Option<GatewayMsg<R, P, F>>,
)
    requires
        res.chunk_index == req.chunk_index,
        process_post(
            fresh_gateway(),
            GatewayMsg::Riscv(RiscvMsg::Request(req), tid, ip),
            s1,
            o1,
        ),
        proof_first ==> process_post(
            s1,
            GatewayMsg::Riscv(RiscvMsg::Response(res), rtid, rip),
            s2,
            o2,
        ) && process_post(s2, GatewayMsg::EmulatorComplete, s3, o3),
        !proof_first ==> process_post(s1, GatewayMsg::EmulatorComplete, s2, o2) && process_post(
            s2,
            GatewayMsg::Riscv(RiscvMsg::Response(res), rtid, rip),
            s3,
            o3,
        ),
    ensures
        o1 is None,
        o2 is None,
        is_merge_request(o3, req.chunk_index, seq![res.proof], true),
        s3.slots.len() == 1,
{
    lemma_first_slot::<P>(req.chunk_index);
    let k = req.chunk_index;
    assert(s1.slots =~= seq![(k, SlotState::<P>::InProgress(Seq::empty()))]);
    assert(s1.slots[0].0 == k);
    assert(has_slot(s1.slots, k));
    let pos = choose|i: int| 0 <= i < s1.slots.len() && s1.slots[i].0 == k;
    assert(pos == 0);
    if proof_first {
        assert(s2.slots =~= seq![(k, SlotState::Proved(res.proof))]);
    } else {
        assert(s2.slots =~= s1.slots);
        assert(has_slot(s2.slots, k));
    }
}

/// The completing merge is asked for once. A merge flagged complete leaves a
/// single slot behind; from then on, as long as no new chunk arrives, no
/// proof and no word from the producer brings another merge request.
pub proof fn lemma_completing_merge_once<R, P, F>(
    old: GatewayState<P, F>,
    msg: GatewayMsg<R, P, F>,
    new: GatewayState<P, F>,
    out: Option<GatewayMsg<R, P, F>>,
)
    requires
        accepts(old, msg),
        process_post(old, msg, new, out),
        old.final_requested,
        old.slots.len() <= 1,
        !(msg matches GatewayMsg::Riscv(RiscvMsg::Request(_), _, _)),
    ensures
        new.final_requested,
        new.slots.len() <= 1,
        !(out matches Some(GatewayMsg::Combine(CombineMsg::Request(_), _, _))),
{
    if old.embed is None {
        match msg {
            GatewayMsg::Riscv(RiscvMsg::Response(res), _, _) => {
                lemma_lone_slot_pairs_with_nothing(old, res.chunk_index, res.proof);
            },
            GatewayMsg::Combine(CombineMsg::Response(res), _, _) => {
                lemma_lone_slot_pairs_with_nothing(old, res.chunk_index, res.proof);
            },
            _ => {},
        }
    }
}

proof fn lemma_lone_slot_pairs_with_nothing<P, F>(
    old: GatewayState<P, F>,
    k: usize,
    p: IndexedProof<P>,
)
    requires
        old.slots.len() <= 1,
        has_slot(old.slots, k),
    ensures
        after_set(old.slots, k, p).1 is None,
        after_set(old.slots, k, p).0.len() == old.slots.len(),
{
    let pos = slot_pos(old.slots, k);
    assert(pos == 0);
}

/// A merge flagged complete takes the worker through compress, embed and
/// verify on its own; when the proof verifies it finishes with the final
/// proof (sent with `Exit`) and stops, sending no merge result.
pub proof fn lemma_fast_path<R, P, F>(
    req: CombineRequest<P>,
    tid: TaskId,
    ip: IpAddr,
    res: CombineResponse<P>,
    c: CompressResponse<P>,
    e: EmbedResponse<F>,
    f: F,
)
    requires
        req.flag_complete,
        req.proofs@.len() == 2,
        req.proofs@[0].end_chunk + 1 == req.proofs@[1].start_chunk,
    ensures
        ({
            let ev0 = WorkerEvent::<R, P, F>::Message(
                GatewayMsg::Combine(CombineMsg::Request(req), tid, ip),
            );
            let (p1, a1) = worker_step(WorkerPhase::Idle, ev0);
            let (p2, a2) = worker_step(p1, WorkerEvent::<R, P, F>::Combined(res));
            let (p3, a3) = worker_step(p2, WorkerEvent::<R, P, F>::Compressed(c));
            let (p4, a4) = worker_step(p3, WorkerEvent::<R, P, F>::Embedded(e));
            let (p5, a5) = worker_step(p4, WorkerEvent::<R, P, F>::Verified(f, true));
            &&& event_allowed(WorkerPhase::Idle, ev0)
            &&& event_allowed(p1, WorkerEvent::<R, P, F>::Combined(res))
            &&& event_allowed(p2, WorkerEvent::<R, P, F>::Compressed(c))
            &&& event_allowed(p3, WorkerEvent::<R, P, F>::Embedded(e))
            &&& event_allowed(p4, WorkerEvent::<R, P, F>::Verified(f, true))
            &&& a1 == WorkerAction::<R, P, F>::Combine(req)
            &&& a2 matches WorkerAction::Compress(cr) && cr.proof == res.proof
            &&& a3 matches WorkerAction::Embed(er) && er.proof == c.proof
            &&& a4 == WorkerAction::<R, P, F>::Verify(e)
            &&& a5 == WorkerAction::<R, P, F>::Finish(f)
            &&& p5 is Stopped
        }),
{
}

/// A merge that is not flagged complete yields only the merged proof as the
/// reply, and the worker is idle again.
pub proof fn lemma_plain_merge<R, P, F>(
    req: CombineRequest<P>,
    tid: TaskId,
    ip: IpAddr,
    res: CombineResponse<P>,
)
    requires
        !req.flag_complete,
        req.proofs@.len() == 2,
        req.proofs@[0].end_chunk + 1 == req.proofs@[1].start_chunk,
    ensures
        ({
            let ev0 = WorkerEvent::<R, P, F>::Message(
                GatewayMsg::Combine(CombineMsg::Request(req), tid, ip),
            );
            let (p1, a1) = worker_step(WorkerPhase::Idle, ev0);
            let (p2, a2) = worker_step(p1, WorkerEvent::<R, P, F>::Combined(res));
            &&& event_allowed(WorkerPhase::Idle, ev0)
            &&& event_allowed(p1, WorkerEvent::<R, P, F>::Combined(res))
            &&& a1 == WorkerAction::<R, P, F>::Combine(req)
            &&& a2 == WorkerAction::<R, P, F>::Reply(
                GatewayMsg::Combine(CombineMsg::Response(res), tid, ip),
            )
            &&& p2 is Idle
        }),
{
}

/// The completing merge of a single proof skips the merge stage: the proof
/// goes straight to compress, then embed and verify, and the worker finishes
/// with the final proof.
pub proof fn lemma_single_proof_path<R, P, F>(
    req: CombineRequest<P>,
    tid: TaskId,
    ip: IpAddr,
    c: CompressResponse<P>,
    e: EmbedResponse<F>,
    f: F,
)
    requires
        req.flag_complete,
        req.proofs@.len() == 1,
    ensures
        ({
            let ev0 = WorkerEvent::<R, P, F>::Message(
                GatewayMsg::Combine(CombineMsg::Request(req), tid, ip),
            );
            let (p1, a1) = worker_step(WorkerPhase::Idle, ev0);
            let (p2, a2) = worker_step(p1, WorkerEvent::<R, P, F>::Compressed(c));
            let (p3, a3) = worker_step(p2, WorkerEvent::<R, P, F>::Embedded(e));
            let (p4, a4) = worker_step(p3, WorkerEvent::<R, P, F>::Verified(f, true));
            &&& event_allowed(WorkerPhase::Idle, ev0)
            &&& event_allowed(p1, WorkerEvent::<R, P, F>::Compressed(c))
            &&& event_allowed(p2, WorkerEvent::<R, P, F>::Embedded(e))
            &&& event_allowed(p3, WorkerEvent::<R, P, F>::Verified(f, true))
            &&& a1 matches WorkerAction::Compress(cr) && cr.proof == req.proofs@[0]
                && cr.chunk_index == req.chunk_index
            &&& a2 matches WorkerAction::Embed(er) && er.proof == c.proof
            &&& a3 == WorkerAction::<R, P, F>::Verify(e)
            &&& a4 == WorkerAction::<R, P, F>::Finish(f)
            &&& p4 is Stopped
        }),
{
}

} // verus!
