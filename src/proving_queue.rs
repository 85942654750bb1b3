//! Task identities, finished proofs and the memory tier of the result cache.
//!
//! A finished proof is kept in memory until it is fetched once; it is also
//! handed on for durable storage, which serves any later fetch.
use crate::proof_tree::share;
use dashmap::DashMap;
use std::sync::Arc;
use vstd::prelude::*;

verus! {

/// The identity of a proving task.
#[derive(Debug, Clone, PartialEq, Eq, Hash)]
pub struct ProvingKey {
    app_id: String,
    task_id: String,
}

impl View for ProvingKey {
    type V = (Seq<char>, Seq<char>);

    closed spec fn view(&self) -> (Seq<char>, Seq<char>) {
        (self.app_id@, self.task_id@)
    }
}

impl ProvingKey {
    pub fn new(app_id: String, task_id: String) -> (r: Self)
        ensures
            r@ == (app_id@, task_id@),
    {
        Self { app_id, task_id }
    }

    pub fn app_id(&self) -> (r: &str)
        ensures
            r@ == self@.0,
    {
        self.app_id.as_str()
    }

    pub fn task_id(&self) -> (r: &str)
        ensures
            r@ == self@.1,
    {
        self.task_id.as_str()
    }

    /// A copy of the key.
    pub fn duplicate(&self) -> (r: Self)
        ensures
            r@ == self@,
    {
        Self { app_id: self.app_id.clone(), task_id: self.task_id.clone() }
    }
}

/// The bytes of a finished proof, shared between its readers.
pub struct ProvingOutput {
    pub proof: Arc<Vec<u8>>,
}

impl View for ProvingOutput {
    type V = Seq<u8>;

    open spec fn view(&self) -> Seq<u8> {
        self.proof@
    }
}

impl ProvingOutput {
    pub fn new(proof: Arc<Vec<u8>>) -> (r: Self)
        ensures
            r@ == proof@,
    {
        Self { proof }
    }
}

/// Finished proofs in memory, by task.
pub type ProvingOutputs = DashMap<ProvingKey, ProvingOutput>;

#[verifier::external_type_specification]
#[verifier::external_body]
#[verifier::reject_recursive_types(K)]
#[verifier::reject_recursive_types(V)]
#[verifier::reject_recursive_types(S)]
pub struct ExDashMap<K, V, S>(DashMap<K, V, S>);

/// The proofs a map holds, by the view of their keys.
pub uninterp spec fn stored_outputs(m: DashMap<ProvingKey, ProvingOutput>) -> OutputMap;

/// Relies on `DashMap::new`: the map starts empty.
#[verifier::external_body]
fn outputs_new() -> (r: ProvingOutputs)
    ensures
        stored_outputs(r) == OutputMap::empty(),
{
    DashMap::new()
}

/// Relies on `DashMap::insert`: the key now maps to the value, replacing any
/// earlier one; keys are equal exactly when both of their strings are.
#[verifier::external_body]
fn outputs_insert(m: &mut ProvingOutputs, key: ProvingKey, value: ProvingOutput)
    ensures
        stored_outputs(*final(m)) == stored_outputs(*old(m)).insert(key@, value@),
{
    m.insert(key, value);
}

/// Relies on `DashMap::remove`: the entry of the key, if any, is taken out and
/// its value returned.
#[verifier::external_body]
fn outputs_remove(m: &mut ProvingOutputs, key: &ProvingKey) -> (r: Option<ProvingOutput>)
    ensures
        stored_outputs(*final(m)) == stored_outputs(*old(m)).remove(key@),
        match r {
            Some(v) => stored_outputs(*old(m)).contains_key(key@) && v@ == stored_outputs(
                *old(m),
            )[key@],
            None => !stored_outputs(*old(m)).contains_key(key@),
        },
{
    m.remove(key).map(|(_, v)| v)
}

/// Proofs by the view of their task's key.
pub type OutputMap = Map<(Seq<char>, Seq<char>), Seq<u8>>;

/// The view of an optional proof.
pub open spec fn output_view(o: Option<ProvingOutput>) -> Option<Seq<u8>> {
    match o {
        Some(v) => Some(v@),
        None => None,
    }
}

/// What a fetch from memory gives for `key`.
pub open spec fn fetched(
    m: OutputMap,
    key: (Seq<char>, Seq<char>),
) -> Option<Seq<u8>> {
    if m.contains_key(key) {
        Some(m[key])
    } else {
        None
    }
}

/// What to do once a task has run.
pub enum TaskOutcome {
    /// Write the proof of the task to durable storage; a failure there is
    /// only logged.
    Persist(ProvingKey, Arc<Vec<u8>>),
    /// The task failed: log it; nothing is stored and nothing retried.
    Failed(ProvingKey),
}

/// The memory tier of finished proofs.
pub struct ProvingQueue {
    outputs: ProvingOutputs,
}

impl View for ProvingQueue {
    type V = OutputMap;

    closed spec fn view(&self) -> OutputMap {
        stored_outputs(self.outputs)
    }
}

impl ProvingQueue {
    /// An empty memory tier.
    pub fn new() -> (r: Self)
        ensures
            r@ == OutputMap::empty(),
    {
        Self { outputs: outputs_new() }
    }

    /// Takes the proof of a task out of memory, if it is there: a proof is
    /// served from memory at most once.
    pub fn pop_output(&mut self, key: &ProvingKey) -> (r: Option<ProvingOutput>)
        ensures
            output_view(r) == fetched(old(self)@, key@),
            final(self)@ == old(self)@.remove(key@),
    {
        outputs_remove(&mut self.outputs, key)
    }

    /// Records how a task ended. A proof is kept in memory under the task's
    /// key and handed on, with the same bytes, for durable storage; a failure
    /// leaves memory as it was.
    pub fn complete_task(&mut self, key: ProvingKey, result: Option<Vec<u8>>) -> (r: TaskOutcome)
        ensures
            match result {
                Some(bytes) => {
                    &&& final(self)@ == old(self)@.insert(key@, bytes@)
                    &&& r matches TaskOutcome::Persist(k, b) && k@ == key@ && b@ == bytes@
                },
                None => {
                    &&& final(self)@ == old(self)@
                    &&& r matches TaskOutcome::Failed(k) && k@ == key@
                },
            },
    {
        match result {
            Some(bytes) => {
                let proof = Arc::new(bytes);
                let kept = share(&proof);
                let durable_key = key.duplicate();
                outputs_insert(&mut self.outputs, key, ProvingOutput::new(kept));
                TaskOutcome::Persist(durable_key, proof)
            },
            None => TaskOutcome::Failed(key),
        }
    }
}

/// After a task succeeds, the first fetch takes its proof from memory and
/// the second finds memory empty, so the caller goes to durable storage, where
/// the same bytes were handed on.
pub proof fn lemma_fetch_once(
    m: OutputMap,
    key: (Seq<char>, Seq<char>),
    bytes: Seq<u8>,
)
    ensures
        fetched(m.insert(key, bytes), key) == Some(bytes),
        fetched(m.insert(key, bytes).remove(key), key) is None,
{
}

} // verus!
