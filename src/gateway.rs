//! The coordinator: applies pipeline events to the proof tree, asks for merges
//! and decides when proving is over.
use crate::messages::{
    decimal, decimal_text, CombineMsg, CombineRequest, GatewayMsg, RiscvMsg,
};
use crate::proof_tree::{
    after_init, after_set, has_slot, sorted_slots, IndexedProof, ProofIndex,
    ProofTree, Slots, SlotState,
};
use vstd::prelude::*;

verus! {

/// What the coordinator knows, as seen by contracts.
pub ghost struct GatewayState<P, F> {
    /// The producer has emitted its last chunk.
    pub producer_complete: bool,
    /// The proof tree.
    pub slots: Slots<P>,
    /// The final proof, once a worker has sent it.
    pub embed: Option<F>,
    /// The one merge that completes the run has been asked for.
    pub final_requested: bool,
}

/// `out` asks for the merge of `pair` into slot `index`.
pub open spec fn is_merge_request<R, P, F>(
    out: Option<GatewayMsg<R, P, F>>,
    index: ProofIndex,
    pair: Seq<IndexedProof<P>>,
    flag_complete: bool,
) -> bool {
    match out {
        Some(GatewayMsg::Combine(CombineMsg::Request(req), task_id, ip)) => {
            &&& req.chunk_index == index
            &&& req.proofs@ == pair
            &&& req.flag_complete == flag_complete
            &&& task_id@ == decimal(index as nat)
            &&& ip@ == Seq::<char>::empty()
        },
        _ => false,
    }
}

/// The state is `old` with the tree replaced by `slots`.
pub open spec fn with_slots<P, F>(old: GatewayState<P, F>, slots: Slots<P>) -> GatewayState<P, F> {
    GatewayState {
        producer_complete: old.producer_complete,
        slots,
        embed: old.embed,
        final_requested: old.final_requested,
    }
}

/// A run of a single chunk never pairs two proofs. Once the producer is done
/// and the only slot holds a finished proof, that proof alone is sent on as
/// the completing merge; the worker skips the merge itself and goes on to
/// compress and embed it.
pub open spec fn sole_proof_rule<R, P, F>(
    old: GatewayState<P, F>,
    producer_complete: bool,
    t: Slots<P>,
    new: GatewayState<P, F>,
    out: Option<GatewayMsg<R, P, F>>,
) -> bool {
    if producer_complete && !old.final_requested && t.len() == 1 && t[0].1 is Proved {
        let p = t[0].1->Proved_0;
        &&& new.slots == seq![(t[0].0, SlotState::InProgress(seq![p]))]
        &&& new.final_requested
        &&& is_merge_request(out, t[0].0, seq![p], true)
    } else {
        &&& new.slots == t
        &&& new.final_requested == old.final_requested
        &&& out is None
    }
}

/// The effect of a proof arriving for slot `index`.
pub open spec fn proved_post<R, P, F>(
    old: GatewayState<P, F>,
    index: ProofIndex,
    proof: IndexedProof<P>,
    new: GatewayState<P, F>,
    out: Option<GatewayMsg<R, P, F>>,
) -> bool {
    let (t, pair) = after_set(old.slots, index, proof);
    &&& new.producer_complete == old.producer_complete
    &&& new.embed == old.embed
    &&& match pair {
        Some(ps) => {
            &&& new.slots == t
            &&& is_merge_request(out, index, ps, t.len() == 1)
            &&& new.final_requested == (old.final_requested || t.len() == 1)
        },
        None => sole_proof_rule(old, old.producer_complete, t, new, out),
    }
}

/// `msg` is valid for the coordinator in state `s`. Once proving is complete
/// every message is; before, only those the protocol allows.
pub open spec fn accepts<R, P, F>(s: GatewayState<P, F>, msg: GatewayMsg<R, P, F>) -> bool {
    s.embed is Some || match msg {
        GatewayMsg::EmulatorComplete => true,
        GatewayMsg::Riscv(RiscvMsg::Request(req), _, _) => !has_slot(s.slots, req.chunk_index)
            && s.slots.len() < usize::MAX,
        GatewayMsg::Riscv(RiscvMsg::Response(res), _, _) => has_slot(s.slots, res.chunk_index),
        GatewayMsg::Combine(CombineMsg::Response(res), _, _) => has_slot(s.slots, res.chunk_index),
        GatewayMsg::Embed(_) => true,
        _ => false,
    }
}

/// The state after `msg`, and the message sent in reply.
pub open spec fn process_post<R, P, F>(
    old: GatewayState<P, F>,
    msg: GatewayMsg<R, P, F>,
    new: GatewayState<P, F>,
    out: Option<GatewayMsg<R, P, F>>,
) -> bool {
    if old.embed is Some {
        new == old && out matches Some(GatewayMsg::Exit)
    } else {
        match msg {
            GatewayMsg::EmulatorComplete => {
                &&& new.producer_complete
                &&& new.embed == old.embed
                &&& sole_proof_rule(old, true, old.slots, new, out)
            },
            GatewayMsg::Riscv(RiscvMsg::Request(req), _, _) => {
                new == with_slots(old, after_init(old.slots, req.chunk_index)) && out is None
            },
            GatewayMsg::Riscv(RiscvMsg::Response(res), _, _) => proved_post(
                old,
                res.chunk_index,
                res.proof,
                new,
                out,
            ),
            GatewayMsg::Combine(CombineMsg::Response(res), _, _) => proved_post(
                old,
                res.chunk_index,
                res.proof,
                new,
                out,
            ),
            GatewayMsg::Embed(f) => {
                &&& new == GatewayState {
                    producer_complete: old.producer_complete,
                    slots: old.slots,
                    embed: Some(f),
                    final_requested: old.final_requested,
                }
                &&& out matches Some(GatewayMsg::Exit)
            },
            _ => false,
        }
    }
}

/// What the coordinator loop does after an event.
pub enum GatewayAction<R, P, F> {
    /// Nothing to send; wait for the next event.
    Continue,
    /// Send this message to the workers.
    Forward(GatewayMsg<R, P, F>),
    /// Proving is complete: render the final proof, publish it and stop.
    Finish,
}

/// The reply of the handler that an action stands for.
pub open spec fn sent<R, P, F>(act: GatewayAction<R, P, F>) -> Option<GatewayMsg<R, P, F>> {
    match act {
        GatewayAction::Continue => None,
        GatewayAction::Forward(m) => Some(m),
        GatewayAction::Finish => Some(GatewayMsg::Exit),
    }
}

/// A message the producer may send in state `s`.
pub open spec fn producer_msg_allowed<R, P, F>(s: GatewayState<P, F>, msg: GatewayMsg<R, P, F>) -> bool {
    match msg {
        GatewayMsg::Riscv(RiscvMsg::Request(req), _, _) => !has_slot(s.slots, req.chunk_index)
            && s.slots.len() < usize::MAX,
        GatewayMsg::EmulatorComplete => true,
        _ => false,
    }
}

/// A message a worker may send in state `s`.
pub open spec fn worker_msg_allowed<R, P, F>(s: GatewayState<P, F>, msg: GatewayMsg<R, P, F>) -> bool {
    match msg {
        GatewayMsg::RequestTask => true,
        GatewayMsg::Riscv(RiscvMsg::Response(_), _, _) => accepts(s, msg),
        GatewayMsg::Combine(CombineMsg::Response(_), _, _) => accepts(s, msg),
        GatewayMsg::Embed(_) => true,
        GatewayMsg::Exit => s.embed is Some,
        _ => false,
    }
}

/// The bytes published at the end: the rendered proof, or nothing where
/// rendering failed or no final proof was at hand.
pub fn completion_bytes(rendered: Option<Vec<u8>>) -> (r: Vec<u8>)
    ensures
        r@ == match rendered {
            Some(b) => b@,
            None => Seq::<u8>::empty(),
        },
{
    match rendered {
        Some(b) => b,
        None => Vec::new(),
    }
}

/// Applies pipeline events to the proof tree.
pub struct GatewayHandler<P, F> {
    /// The producer has emitted its last chunk.
    emulator_complete: bool,
    proof_tree: ProofTree<P>,
    /// The final proof, once received.
    embed_proof: Option<F>,
    /// The completing merge has been asked for.
    final_requested: bool,
}

impl<P, F> View for GatewayHandler<P, F> {
    type V = GatewayState<P, F>;

    closed spec fn view(&self) -> GatewayState<P, F> {
        GatewayState {
            producer_complete: self.emulator_complete,
            slots: self.proof_tree@,
            embed: self.embed_proof,
            final_requested: self.final_requested,
        }
    }
}

impl<P, F> GatewayHandler<P, F> {
    /// The proof tree is well formed.
    pub open spec fn wf(&self) -> bool {
        sorted_slots(self@.slots)
    }

    pub fn new() -> (r: Self)
        ensures
            r.wf(),
            r@ == (GatewayState::<P, F> {
                producer_complete: false,
                slots: Seq::empty(),
                embed: None,
                final_requested: false,
            }),
    {
        Self {
            emulator_complete: false,
            proof_tree: ProofTree::new(),
            embed_proof: None,
            final_requested: false,
        }
    }

    /// The final proof has arrived.
    pub fn complete(&self) -> (r: bool)
        ensures
            r == self@.embed is Some,
    {
        self.embed_proof.is_some()
    }

    /// The final proof, if it has arrived.
    pub fn get_embed_proof(&self) -> (r: Option<&F>)
        ensures
            r is Some == self@.embed is Some,
            r is Some ==> *r->Some_0 == self@.embed->Some_0,
    {
        match &self.embed_proof {
            Some(f) => Some(f),
            None => None,
        }
    }

    pub fn set_embed_proof(&mut self, proof: F)
        ensures
            final(self)@ == (GatewayState {
                producer_complete: old(self)@.producer_complete,
                slots: old(self)@.slots,
                embed: Some(proof),
                final_requested: old(self)@.final_requested,
            }),
    {
        self.embed_proof = Some(proof);
    }

    /// The number of live slots in the proof tree.
    pub fn tree_len(&self) -> (r: usize)
        ensures
            r == self@.slots.len(),
    {
        self.proof_tree.len()
    }

    /// Registers the slot of a chunk that the producer has emitted.
    pub fn process_riscv_req<R>(&mut self, msg: &GatewayMsg<R, P, F>)
        requires
            old(self).wf(),
            msg matches GatewayMsg::Riscv(RiscvMsg::Request(req), _, _) && !has_slot(
                old(self)@.slots,
                req.chunk_index,
            ) && old(self)@.slots.len() < usize::MAX,
        ensures
            final(self).wf(),
            msg matches GatewayMsg::Riscv(RiscvMsg::Request(req), _, _) && final(self)@
                == with_slots(old(self)@, after_init(old(self)@.slots, req.chunk_index)),
    {
        match msg {
            GatewayMsg::Riscv(RiscvMsg::Request(req), _, _) => {
                self.proof_tree.init_node(req.chunk_index);
            },
            _ => {},
        }
    }

    /// Sends the only proof on as the completing merge, where the sole-proof
    /// rule applies.
    fn offer_sole_proof<R>(&mut self) -> (r: Option<GatewayMsg<R, P, F>>)
        requires
            old(self).wf(),
        ensures
            final(self).wf(),
            final(self)@.producer_complete == old(self)@.producer_complete,
            final(self)@.embed == old(self)@.embed,
            sole_proof_rule(
                old(self)@,
                old(self)@.producer_complete,
                old(self)@.slots,
                final(self)@,
                r,
            ),
    {
        if !self.emulator_complete || self.final_requested {
            return None;
        }
        match self.proof_tree.take_sole_proof() {
            Some((index, proof)) => {
                self.final_requested = true;
                let proofs = vec![proof];
                let req = CombineRequest { flag_complete: true, chunk_index: index, proofs };
                assert(req.proofs@ =~= seq![proof]);
                Some(GatewayMsg::Combine(CombineMsg::Request(req), decimal_text(index as u64), String::new()))
            },
            None => None,
        }
    }

    /// Records the proof of slot `index` and asks for a merge if one is due.
    fn record_proof<R>(&mut self, index: ProofIndex, proof: IndexedProof<P>) -> (r: Option<
        GatewayMsg<R, P, F>,
    >)
        requires
            old(self).wf(),
            old(self)@.embed is None,
            has_slot(old(self)@.slots, index),
        ensures
            final(self).wf(),
            proved_post(old(self)@, index, proof, final(self)@, r),
    {
        match self.proof_tree.set_proof(index, proof) {
            Some(proofs) => {
                let flag_complete = self.proof_tree.len() == 1;
                if flag_complete {
                    self.final_requested = true;
                }
                let req = CombineRequest { flag_complete, chunk_index: index, proofs };
                Some(GatewayMsg::Combine(CombineMsg::Request(req), decimal_text(index as u64), String::new()))
            },
            None => self.offer_sole_proof(),
        }
    }

    /// Applies one event and returns the message it calls for, if any.
    ///
    /// Once the final proof has arrived every call returns `Exit` and changes
    /// nothing. Otherwise: a ready chunk gets a slot; a chunk or merge proof is
    /// recorded, and a merge request comes back when it pairs with a
    /// neighbour, flagged complete exactly when the tree is then down to one
    /// slot; the final proof is stored and `Exit` returned; the producer's
    /// last word is noted.
    pub fn process<R>(&mut self, msg: GatewayMsg<R, P, F>) -> (r: Option<GatewayMsg<R, P, F>>)
        requires
            old(self).wf(),
            accepts(old(self)@, msg),
        ensures
            final(self).wf(),
            process_post(old(self)@, msg, final(self)@, r),
    {
        if self.complete() {
            return Some(GatewayMsg::Exit);
        }
        match msg {
            GatewayMsg::EmulatorComplete => {
                self.emulator_complete = true;
                self.offer_sole_proof()
            },
            GatewayMsg::Riscv(RiscvMsg::Request(req), _, _) => {
                self.proof_tree.init_node(req.chunk_index);
                None
            },
            GatewayMsg::Riscv(RiscvMsg::Response(res), _, _) => {
                self.record_proof(res.chunk_index, res.proof)
            },
            GatewayMsg::Combine(CombineMsg::Response(res), _, _) => {
                self.record_proof(res.chunk_index, res.proof)
            },
            GatewayMsg::Embed(f) => {
                self.set_embed_proof(f);
                Some(GatewayMsg::Exit)
            },
            _ => None,
        }
    }

    /// `msg` may come from the producer now.
    pub fn allows_producer_msg<R>(&self, msg: &GatewayMsg<R, P, F>) -> (r: bool)
        ensures
            r == producer_msg_allowed(self@, *msg),
    {
        match msg {
            GatewayMsg::Riscv(RiscvMsg::Request(req), _, _) => {
                !self.proof_tree.contains(req.chunk_index) && self.proof_tree.len() < usize::MAX
            },
            GatewayMsg::EmulatorComplete => true,
            _ => false,
        }
    }

    /// `msg` may come from a worker now.
    pub fn allows_worker_msg<R>(&self, msg: &GatewayMsg<R, P, F>) -> (r: bool)
        ensures
            r == worker_msg_allowed(self@, *msg),
    {
        match msg {
            GatewayMsg::RequestTask => true,
            GatewayMsg::Riscv(RiscvMsg::Response(res), _, _) => {
                self.complete() || self.proof_tree.contains(res.chunk_index)
            },
            GatewayMsg::Combine(CombineMsg::Response(res), _, _) => {
                self.complete() || self.proof_tree.contains(res.chunk_index)
            },
            GatewayMsg::Embed(_) => true,
            GatewayMsg::Exit => self.complete(),
            _ => false,
        }
    }

    /// Turns a reply of the handler into the loop's next action.
    fn act_on<R>(out: Option<GatewayMsg<R, P, F>>) -> (r: GatewayAction<R, P, F>)
        ensures
            sent(r) == out,
            !(r matches GatewayAction::Forward(GatewayMsg::Exit)),
    {
        match out {
            None => GatewayAction::Continue,
            Some(GatewayMsg::Exit) => GatewayAction::Finish,
            Some(m) => GatewayAction::Forward(m),
        }
    }

    /// Handles a message from the producer. A ready chunk gets its slot and
    /// is passed on unchanged to the workers; the producer's last word is
    /// applied here and not passed on.
    pub fn route_producer_msg<R>(&mut self, msg: GatewayMsg<R, P, F>) -> (r: GatewayAction<R, P, F>)
        requires
            old(self).wf(),
            producer_msg_allowed(old(self)@, msg),
        ensures
            final(self).wf(),
            match msg {
                GatewayMsg::Riscv(RiscvMsg::Request(req), _, _) => {
                    &&& final(self)@ == with_slots(old(self)@, after_init(old(self)@.slots, req.chunk_index))
                    &&& r == GatewayAction::Forward(msg)
                },
                _ => process_post(old(self)@, msg, final(self)@, sent(r)) && !(r matches GatewayAction::Forward(GatewayMsg::Exit)),
            },
    {
        match msg {
            GatewayMsg::Riscv(RiscvMsg::Request(_), _, _) => {
                self.process_riscv_req(&msg);
                GatewayAction::Forward(msg)
            },
            _ => {
                let out = self.process(msg);
                Self::act_on(out)
            },
        }
    }

    /// Handles a message from a worker. A pull for work changes nothing; a
    /// proof is applied and any merge it calls for is passed on; the final
    /// proof ends the loop.
    pub fn route_worker_msg<R>(&mut self, msg: GatewayMsg<R, P, F>) -> (r: GatewayAction<R, P, F>)
        requires
            old(self).wf(),
            worker_msg_allowed(old(self)@, msg),
        ensures
            final(self).wf(),
            match msg {
                GatewayMsg::RequestTask => final(self)@ == old(self)@ && r is Continue,
                _ => process_post(old(self)@, msg, final(self)@, sent(r)) && !(r matches GatewayAction::Forward(GatewayMsg::Exit)),
            },
    {
        match msg {
            GatewayMsg::RequestTask => GatewayAction::Continue,
            _ => {
                let out = self.process(msg);
                Self::act_on(out)
            },
        }
    }
}

} // verus!
