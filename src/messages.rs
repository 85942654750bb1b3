//! The closed set of messages exchanged between the chunk producer, the
//! coordinator and the workers.
//!
//! `R` is the raw record of a chunk, `P` a proof of the recursive stages and
//! `F` the final proof.
use crate::proof_tree::IndexedProof;
use vstd::prelude::*;

verus! {

/// Identifier of the task a message belongs to.
pub type TaskId = String;

/// Address of the peer that sent a message.
pub type IpAddr = String;

/// Work on one chunk: prove its record.
pub struct RiscvRequest<R> {
    pub chunk_index: usize,
    pub record: R,
}

/// The proof of one chunk.
pub struct RiscvResponse<P> {
    pub chunk_index: usize,
    pub proof: IndexedProof<P>,
}

pub enum RiscvMsg<R, P> {
    /// A chunk is ready to be proved.
    Request(RiscvRequest<R>),
    /// A chunk has been proved.
    Response(RiscvResponse<P>),
}

/// Merge two neighbouring proofs into the slot `chunk_index`.
pub struct CombineRequest<P> {
    /// This is the last merge: the result covers the whole run.
    pub flag_complete: bool,
    pub chunk_index: usize,
    pub proofs: Vec<IndexedProof<P>>,
}

/// The merged proof of slot `chunk_index`.
pub struct CombineResponse<P> {
    pub chunk_index: usize,
    pub proof: IndexedProof<P>,
}

pub enum CombineMsg<P> {
    Request(CombineRequest<P>),
    Response(CombineResponse<P>),
}

/// Compress the proof of the whole run.
pub struct CompressRequest<P> {
    pub chunk_index: usize,
    pub proof: IndexedProof<P>,
}

pub struct CompressResponse<P> {
    pub chunk_index: usize,
    pub proof: IndexedProof<P>,
}

/// Embed the compressed proof into the final proof system.
pub struct EmbedRequest<P> {
    pub chunk_index: usize,
    pub proof: IndexedProof<P>,
}

pub struct EmbedResponse<F> {
    pub chunk_index: usize,
    pub proof: IndexedProof<F>,
}

/// A pipeline event.
pub enum GatewayMsg<R, P, F> {
    /// The producer has emitted its last chunk.
    EmulatorComplete,
    /// A worker is idle and asks for work.
    RequestTask,
    /// Chunk work: a ready chunk or its proof.
    Riscv(RiscvMsg<R, P>, TaskId, IpAddr),
    /// Merge work: a pair to merge or the merged proof.
    Combine(CombineMsg<P>, TaskId, IpAddr),
    /// The final proof.
    Embed(F),
    /// A peer leaves.
    Close(IpAddr),
    /// Proving is over.
    Exit,
}

impl<R, P, F> GatewayMsg<R, P, F> {
    /// The address the message came from; empty where it carries none.
    pub fn ip_addr(&self) -> (r: String)
        ensures
            r@ == match self {
                GatewayMsg::Riscv(_, _, ip) => ip@,
                GatewayMsg::Combine(_, _, ip) => ip@,
                GatewayMsg::Close(ip) => ip@,
                _ => Seq::<char>::empty(),
            },
    {
        match self {
            GatewayMsg::Riscv(_, _, ip) => ip.clone(),
            GatewayMsg::Combine(_, _, ip) => ip.clone(),
            GatewayMsg::Close(ip) => ip.clone(),
            _ => String::new(),
        }
    }
}

/// The decimal digit `d`.
pub open spec fn digit_char(d: nat) -> char {
    seq!['0', '1', '2', '3', '4', '5', '6', '7', '8', '9'][d as int]
}

/// The decimal text of `n`, without sign or leading zeros.
pub open spec fn decimal(n: nat) -> Seq<char>
    decreases n,
{
    if n < 10 {
        seq![digit_char(n)]
    } else {
        decimal(n / 10).push(digit_char(n % 10))
    }
}

/// Relies on `ToString` for `u64` (its `Display`): the plain decimal digits.
#[verifier::external_body]
pub(crate) fn decimal_text(n: u64) -> (r: String)
    ensures
        r@ == decimal(n as nat),
{
    n.to_string()
}

/// Relies on `String::push_str`: `t` is appended to `s`.
#[verifier::external_body]
pub(crate) fn append(s: &mut String, t: &str)
    ensures
        final(s)@ == old(s)@ + t@,
{
    s.push_str(t);
}

} // verus!
