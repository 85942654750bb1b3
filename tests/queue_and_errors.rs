use pico_proving_service::app_row::AppRow;
use pico_proving_service::auth::{validate_auth, AuthMethod};
use pico_proving_service::error::PicoError;
use pico_proving_service::proving_queue::{ProvingKey, ProvingOutput, ProvingQueue, TaskOutcome};
use std::collections::HashMap;
use std::sync::Arc;

#[test]
fn proving_key_parts() {
    let k = ProvingKey::new("app".to_string(), "task-1".to_string());
    assert_eq!(k.app_id(), "app");
    assert_eq!(k.task_id(), "task-1");
    assert_eq!(k.duplicate(), k);
}

#[test]
fn finished_proof_is_fetched_from_memory_once_then_from_storage() {
    let mut queue = ProvingQueue::new();
    let mut durable: HashMap<(String, String), Vec<u8>> = HashMap::new();
    let key = ProvingKey::new("app".to_string(), "t1".to_string());

    match queue.complete_task(key.duplicate(), Some(vec![9, 8, 7])) {
        TaskOutcome::Persist(k, bytes) => {
            assert_eq!(k, key);
            durable.insert((k.app_id().to_string(), k.task_id().to_string()), bytes.to_vec());
        },
        TaskOutcome::Failed(_) => panic!("task succeeded"),
    }

    let first = queue.pop_output(&key).expect("proof in memory");
    assert_eq!(*first.proof, vec![9, 8, 7]);
    assert!(queue.pop_output(&key).is_none());
    let stored = durable.get(&("app".to_string(), "t1".to_string())).unwrap();
    assert_eq!(stored, &vec![9, 8, 7]);
}

#[test]
fn failed_task_stores_nothing() {
    let mut queue = ProvingQueue::new();
    let key = ProvingKey::new("app".to_string(), "t2".to_string());
    match queue.complete_task(key.duplicate(), None) {
        TaskOutcome::Failed(k) => assert_eq!(k, key),
        TaskOutcome::Persist(..) => panic!("task failed"),
    }
    assert!(queue.pop_output(&key).is_none());
}

#[test]
fn outputs_are_kept_per_task() {
    let mut queue = ProvingQueue::new();
    let a = ProvingKey::new("app".to_string(), "a".to_string());
    let b = ProvingKey::new("app".to_string(), "b".to_string());
    queue.complete_task(a.duplicate(), Some(vec![1]));
    queue.complete_task(b.duplicate(), Some(vec![2]));
    queue.complete_task(a.duplicate(), Some(vec![3]));
    assert_eq!(*queue.pop_output(&b).unwrap().proof, vec![2]);
    assert_eq!(*queue.pop_output(&a).unwrap().proof, vec![3]);
    assert!(queue.pop_output(&a).is_none());
}

#[test]
fn proving_output_holds_bytes() {
    let out = ProvingOutput::new(Arc::new(vec![4, 5]));
    assert_eq!(*out.proof, vec![4, 5]);
}

#[test]
fn error_messages() {
    assert_eq!(PicoError::ExceededCycleLimit(1000).message(), "input exceeded cycle limit of 1000");
    assert_eq!(PicoError::ExceededCycleLimit(0).message(), "input exceeded cycle limit of 0");
    assert_eq!(PicoError::InternalError("boom".to_string()).message(), "internal error: boom");
}

#[test]
fn bearer_auth_needs_a_token() {
    assert!(validate_auth(AuthMethod::NoAuth, None).is_ok());
    let token = "SECRET-REDACTED".to_string();
    assert!(validate_auth(AuthMethod::Bearer, Some(&token)).is_ok());
    assert_eq!(
        validate_auth(AuthMethod::Bearer, None),
        Err("Bearer token must be provided when auth_method is 'bearer'.".to_string())
    );
}

#[test]
fn app_row_fields() {
    let row = AppRow {
        app_id: "ab".to_string(),
        program: vec![1],
        pk: vec![2],
        vk: vec![3],
        info: None,
    };
    assert_eq!(row.app_id, "ab");
    assert_eq!((row.program, row.pk, row.vk), (vec![1], vec![2], vec![3]));
}
