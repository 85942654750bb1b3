//! The decisions of a worker: which stage to run for a message, and what to
//! send once it is done.
//!
//! A worker pulls work, runs one stage and replies. For the merge that
//! completes the run it keeps going on its own: compress, embed and verify,
//! then it sends the final proof and `Exit` and stops. Running the stages and
//! moving messages is left to the caller, which feeds back each result as an
//! event.
use crate::messages::{
    CombineMsg, CombineRequest, CombineResponse, CompressRequest, CompressResponse, EmbedRequest,
    EmbedResponse, GatewayMsg, IpAddr, RiscvMsg, RiscvRequest, RiscvResponse, TaskId,
};
use crate::proof_tree::IndexedProof;
use vstd::prelude::*;

verus! {

/// Where a worker stands.
pub enum WorkerPhase<P> {
    /// Waiting for a message from the coordinator.
    Idle,
    /// Proving a chunk.
    Converting { task_id: TaskId, ip: IpAddr },
    /// Merging two proofs.
    Combining { flag_complete: bool, task_id: TaskId, ip: IpAddr },
    /// Compressing the merged proof of the whole run.
    Compressing { combined: CombineResponse<P>, task_id: TaskId, ip: IpAddr },
    /// Embedding the compressed proof.
    Embedding { combined: CombineResponse<P>, task_id: TaskId, ip: IpAddr },
    /// Checking the final proof against the verifying key.
    Verifying { combined: CombineResponse<P>, task_id: TaskId, ip: IpAddr },
    /// Done.
    Stopped,
}

/// What happened since the last step.
pub enum WorkerEvent<R, P, F> {
    /// A message arrived from the coordinator.
    Message(GatewayMsg<R, P, F>),
    /// The coordinator's channel is closed.
    Closed,
    /// A chunk has been proved.
    Converted(RiscvResponse<P>),
    /// Two proofs have been merged.
    Combined(CombineResponse<P>),
    /// The merged proof has been compressed.
    Compressed(CompressResponse<P>),
    /// The compressed proof has been embedded.
    Embedded(EmbedResponse<F>),
    /// The final proof has been checked; `true` when it holds.
    Verified(F, bool),
}

/// What the worker does next.
pub enum WorkerAction<R, P, F> {
    /// Send this reply, then ask for the next task.
    Reply(GatewayMsg<R, P, F>),
    /// Prove a chunk.
    Convert(RiscvRequest<R>),
    /// Merge two neighbouring proofs.
    Combine(CombineRequest<P>),
    /// Compress the proof of the whole run.
    Compress(CompressRequest<P>),
    /// Embed the compressed proof.
    Embed(EmbedRequest<P>),
    /// Check the final proof against the verifying key.
    Verify(EmbedResponse<F>),
    /// Send the final proof, then `Exit`, and stop.
    Finish(F),
    /// Stop without sending anything.
    Stop,
}

/// A merge request that a worker can serve: two proofs whose ranges meet, or
/// the single proof of a one-chunk run sent as the completing merge.
pub open spec fn combine_request_ok<P>(req: CombineRequest<P>) -> bool {
    ||| req.proofs@.len() == 2 && req.proofs@[0].end_chunk + 1 == req.proofs@[1].start_chunk
    ||| req.proofs@.len() == 1 && req.flag_complete
}

/// The event may happen in `phase`.
pub open spec fn event_allowed<R, P, F>(phase: WorkerPhase<P>, event: WorkerEvent<R, P, F>) -> bool {
    match phase {
        WorkerPhase::Idle => match event {
            WorkerEvent::Message(GatewayMsg::Riscv(RiscvMsg::Request(_), _, _)) => true,
            WorkerEvent::Message(GatewayMsg::Combine(CombineMsg::Request(req), _, _)) => combine_request_ok(req),
            WorkerEvent::Message(GatewayMsg::Exit) => true,
            WorkerEvent::Closed => true,
            _ => false,
        },
        WorkerPhase::Converting { .. } => event is Converted,
        WorkerPhase::Combining { .. } => event is Combined,
        WorkerPhase::Compressing { .. } => event is Compressed,
        WorkerPhase::Embedding { .. } => event is Embedded,
        WorkerPhase::Verifying { .. } => event is Verified,
        WorkerPhase::Stopped => false,
    }
}

/// The next phase and action of a worker in `phase` after `event`.
pub open spec fn worker_step<R, P, F>(phase: WorkerPhase<P>, event: WorkerEvent<R, P, F>) -> (
    WorkerPhase<P>,
    WorkerAction<R, P, F>,
) {
    match phase {
        WorkerPhase::Idle => match event {
            WorkerEvent::Message(GatewayMsg::Riscv(RiscvMsg::Request(req), task_id, ip)) => (
                WorkerPhase::Converting { task_id, ip },
                WorkerAction::Convert(req),
            ),
            WorkerEvent::Message(GatewayMsg::Combine(CombineMsg::Request(req), task_id, ip)) => {
                if req.proofs@.len() == 1 {
                    let combined = CombineResponse {
                        chunk_index: req.chunk_index,
                        proof: req.proofs@[0],
                    };
                    (
                        WorkerPhase::Compressing { combined, task_id, ip },
                        WorkerAction::Compress(
                            CompressRequest { chunk_index: req.chunk_index, proof: req.proofs@[0] },
                        ),
                    )
                } else {
                    (
                        WorkerPhase::Combining { flag_complete: req.flag_complete, task_id, ip },
                        WorkerAction::Combine(req),
                    )
                }
            },
            _ => (WorkerPhase::Stopped, WorkerAction::Stop),
        },
        WorkerPhase::Converting { task_id, ip } => match event {
            WorkerEvent::Converted(res) => (
                WorkerPhase::Idle,
                WorkerAction::Reply(GatewayMsg::Riscv(RiscvMsg::Response(res), task_id, ip)),
            ),
            _ => (WorkerPhase::Stopped, WorkerAction::Stop),
        },
        WorkerPhase::Combining { flag_complete, task_id, ip } => match event {
            WorkerEvent::Combined(res) => if flag_complete {
                (
                    WorkerPhase::Compressing { combined: res, task_id, ip },
                    WorkerAction::Compress(
                        CompressRequest { chunk_index: res.chunk_index, proof: res.proof },
                    ),
                )
            } else {
                (
                    WorkerPhase::Idle,
                    WorkerAction::Reply(GatewayMsg::Combine(CombineMsg::Response(res), task_id, ip)),
                )
            },
            _ => (WorkerPhase::Stopped, WorkerAction::Stop),
        },
        WorkerPhase::Compressing { combined, task_id, ip } => match event {
            WorkerEvent::Compressed(c) => (
                WorkerPhase::Embedding { combined, task_id, ip },
                WorkerAction::Embed(EmbedRequest { chunk_index: c.chunk_index, proof: c.proof }),
            ),
            _ => (WorkerPhase::Stopped, WorkerAction::Stop),
        },
        WorkerPhase::Embedding { combined, task_id, ip } => match event {
            WorkerEvent::Embedded(e) => (
                WorkerPhase::Verifying { combined, task_id, ip },
                WorkerAction::Verify(e),
            ),
            _ => (WorkerPhase::Stopped, WorkerAction::Stop),
        },
        WorkerPhase::Verifying { combined, task_id, ip } => match event {
            WorkerEvent::Verified(f, true) => (WorkerPhase::Stopped, WorkerAction::Finish(f)),
            WorkerEvent::Verified(_, false) => (
                WorkerPhase::Idle,
                WorkerAction::Reply(GatewayMsg::Combine(CombineMsg::Response(combined), task_id, ip)),
            ),
            _ => (WorkerPhase::Stopped, WorkerAction::Stop),
        },
        WorkerPhase::Stopped => (WorkerPhase::Stopped, WorkerAction::Stop),
    }
}

/// The decision state of one worker.
pub struct WorkerPipeline<P> {
    phase: WorkerPhase<P>,
}

impl<P> View for WorkerPipeline<P> {
    type V = WorkerPhase<P>;

    closed spec fn view(&self) -> WorkerPhase<P> {
        self.phase
    }
}

impl<P> WorkerPipeline<P> {
    /// A worker waiting for its first message. The caller first sends
    /// `RequestTask`.
    pub fn new() -> (r: Self)
        ensures
            r@ is Idle,
    {
        Self { phase: WorkerPhase::Idle }
    }

    /// The worker has stopped.
    pub fn is_stopped(&self) -> (r: bool)
        ensures
            r == self@ is Stopped,
    {
        match self.phase {
            WorkerPhase::Stopped => true,
            _ => false,
        }
    }

    /// `event` may happen now.
    pub fn allows<R, F>(&self, event: &WorkerEvent<R, P, F>) -> (r: bool)
        ensures
            r == event_allowed(self@, *event),
    {
        match &self.phase {
            WorkerPhase::Idle => match event {
                WorkerEvent::Message(GatewayMsg::Riscv(RiscvMsg::Request(_), _, _)) => true,
                WorkerEvent::Message(GatewayMsg::Combine(CombineMsg::Request(req), _, _)) => {
                    let n = req.proofs.len();
                    if n == 2 {
                        req.proofs[0].end_chunk < usize::MAX && req.proofs[0].end_chunk + 1
                            == req.proofs[1].start_chunk
                    } else {
                        n == 1 && req.flag_complete
                    }
                },
                WorkerEvent::Message(GatewayMsg::Exit) => true,
                WorkerEvent::Closed => true,
                _ => false,
            },
            WorkerPhase::Converting { .. } => matches!(event, WorkerEvent::Converted(_)),
            WorkerPhase::Combining { .. } => matches!(event, WorkerEvent::Combined(_)),
            WorkerPhase::Compressing { .. } => matches!(event, WorkerEvent::Compressed(_)),
            WorkerPhase::Embedding { .. } => matches!(event, WorkerEvent::Embedded(_)),
            WorkerPhase::Verifying { .. } => matches!(event, WorkerEvent::Verified(..)),
            WorkerPhase::Stopped => false,
        }
    }

    /// Takes one event and returns what to do next.
    ///
    /// A chunk goes to conversion and its proof back as a reply. A merge goes
    /// to the merge stage; its result is the reply, unless the merge completes
    /// the run: then the worker compresses, embeds and verifies the proof
    /// itself and, when it verifies, finishes with the final proof. A failed
    /// check falls back to the ordinary reply. A completing merge of a single
    /// proof skips the merge stage. `Exit` or a closed channel stops the
    /// worker.
    pub fn step<R, F>(&mut self, event: WorkerEvent<R, P, F>) -> (r: WorkerAction<R, P, F>)
        requires
            event_allowed(old(self)@, event),
        ensures
            (final(self)@, r) == worker_step(old(self)@, event),
    {
        let mut phase = WorkerPhase::Stopped;
        std::mem::swap(&mut phase, &mut self.phase);
        match phase {
            WorkerPhase::Idle => match event {
                WorkerEvent::Message(GatewayMsg::Riscv(RiscvMsg::Request(req), task_id, ip)) => {
                    self.phase = WorkerPhase::Converting { task_id, ip };
                    WorkerAction::Convert(req)
                },
                WorkerEvent::Message(GatewayMsg::Combine(CombineMsg::Request(req), task_id, ip)) => {
                    if req.proofs.len() == 1 {
                        let proof: IndexedProof<P> = req.proofs[0].duplicate();
                        let chunk_index = req.chunk_index;
                        let combined = CombineResponse { chunk_index, proof: proof.duplicate() };
                        self.phase = WorkerPhase::Compressing { combined, task_id, ip };
                        WorkerAction::Compress(CompressRequest { chunk_index, proof })
                    } else {
                        self.phase = WorkerPhase::Combining {
                            flag_complete: req.flag_complete,
                            task_id,
                            ip,
                        };
                        WorkerAction::Combine(req)
                    }
                },
                _ => WorkerAction::Stop,
            },
            WorkerPhase::Converting { task_id, ip } => match event {
                WorkerEvent::Converted(res) => {
                    self.phase = WorkerPhase::Idle;
                    WorkerAction::Reply(GatewayMsg::Riscv(RiscvMsg::Response(res), task_id, ip))
                },
                _ => WorkerAction::Stop,
            },
            WorkerPhase::Combining { flag_complete, task_id, ip } => match event {
                WorkerEvent::Combined(res) => {
                    if flag_complete {
                        let req = CompressRequest {
                            chunk_index: res.chunk_index,
                            proof: res.proof.duplicate(),
                        };
                        self.phase = WorkerPhase::Compressing { combined: res, task_id, ip };
                        WorkerAction::Compress(req)
                    } else {
                        self.phase = WorkerPhase::Idle;
                        WorkerAction::Reply(
                            GatewayMsg::Combine(CombineMsg::Response(res), task_id, ip),
                        )
                    }
                },
                _ => WorkerAction::Stop,
            },
            WorkerPhase::Compressing { combined, task_id, ip } => match event {
                WorkerEvent::Compressed(c) => {
                    self.phase = WorkerPhase::Embedding { combined, task_id, ip };
                    WorkerAction::Embed(EmbedRequest { chunk_index: c.chunk_index, proof: c.proof })
                },
                _ => WorkerAction::Stop,
            },
            WorkerPhase::Embedding { combined, task_id, ip } => match event {
                WorkerEvent::Embedded(e) => {
                    self.phase = WorkerPhase::Verifying { combined, task_id, ip };
                    WorkerAction::Verify(e)
                },
                _ => WorkerAction::Stop,
            },
            WorkerPhase::Verifying { combined, task_id, ip } => match event {
                WorkerEvent::Verified(f, ok) => {
                    if ok {
                        WorkerAction::Finish(f)
                    } else {
                        self.phase = WorkerPhase::Idle;
                        WorkerAction::Reply(
                            GatewayMsg::Combine(CombineMsg::Response(combined), task_id, ip),
                        )
                    }
                },
                _ => WorkerAction::Stop,
            },
            WorkerPhase::Stopped => WorkerAction::Stop,
        }
    }
}

} // verus!
