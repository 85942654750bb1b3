use pico_proving_service::gateway::{completion_bytes, GatewayAction, GatewayHandler};
use pico_proving_service::messages::{
    CombineMsg, CombineRequest, CombineResponse, GatewayMsg, RiscvMsg, RiscvRequest, RiscvResponse,
};
use pico_proving_service::proof_tree::IndexedProof;

type Msg = GatewayMsg<u32, String, String>;

fn chunk_ready(i: usize) -> Msg {
    GatewayMsg::Riscv(
        RiscvMsg::Request(RiscvRequest { chunk_index: i, record: i as u32 }),
        i.to_string(),
        String::new(),
    )
}

fn chunk_proved(i: usize) -> Msg {
    GatewayMsg::Riscv(
        RiscvMsg::Response(RiscvResponse {
            chunk_index: i,
            proof: IndexedProof::new(format!("[{i}]"), i, i),
        }),
        i.to_string(),
        "10.0.0.1".to_string(),
    )
}

fn merge_proved(slot: usize, text: String, start: usize, end: usize) -> Msg {
    GatewayMsg::Combine(
        CombineMsg::Response(CombineResponse {
            chunk_index: slot,
            proof: IndexedProof::new(text, start, end),
        }),
        slot.to_string(),
        String::new(),
    )
}

fn as_merge(out: Option<Msg>) -> Option<(CombineRequest<String>, String, String)> {
    match out {
        Some(GatewayMsg::Combine(CombineMsg::Request(req), task, ip)) => Some((req, task, ip)),
        None => None,
        Some(_) => panic!("unexpected reply"),
    }
}

/// Runs the coordinator over `n` chunks proved in `order`, merging as asked,
/// and returns how many merge requests were flagged complete and the text of
/// the completing merge.
fn synthetic_run(n: usize, order: &[usize]) -> (usize, usize, String) {
    let mut h: GatewayHandler<String, String> = GatewayHandler::new();
    for i in 0..n {
        assert!(h.process(chunk_ready(i)).is_none());
    }
    assert!(h.process::<u32>(GatewayMsg::EmulatorComplete).is_none());
    let mut pending = Vec::new();
    for &i in order {
        if let Some(m) = as_merge(h.process(chunk_proved(i))) {
            assert_eq!(m.0.flag_complete, h.tree_len() == 1);
            pending.push(m);
        }
    }
    let mut flagged = 0;
    let mut merges = 0;
    let mut last = String::new();
    while let Some((req, task, ip)) = pending.pop() {
        merges += 1;
        assert_eq!(task, req.chunk_index.to_string());
        assert_eq!(ip, "");
        assert_eq!(req.proofs.len(), 2);
        assert_eq!(req.proofs[0].end_chunk + 1, req.proofs[1].start_chunk);
        let text = format!("{}{}", req.proofs[0].inner, req.proofs[1].inner);
        if req.flag_complete {
            flagged += 1;
            last = text;
            continue;
        }
        let out = h.process(merge_proved(
            req.chunk_index,
            text,
            req.proofs[0].start_chunk,
            req.proofs[1].end_chunk,
        ));
        if let Some(m) = as_merge(out) {
            assert_eq!(m.0.flag_complete, h.tree_len() == 1);
            pending.push(m);
        }
    }
    (flagged, merges, last)
}

#[test]
fn four_chunk_run_flags_one_merge() {
    let (flagged, merges, last) = synthetic_run(4, &[2, 0, 3, 1]);
    assert_eq!(flagged, 1);
    assert_eq!(merges, 3);
    assert_eq!(last, "[0][1][2][3]");
}

#[test]
fn eight_chunk_run_flags_one_merge() {
    let (flagged, merges, last) = synthetic_run(8, &[5, 1, 7, 0, 3, 6, 2, 4]);
    assert_eq!(flagged, 1);
    assert_eq!(merges, 7);
    assert_eq!(last, "[0][1][2][3][4][5][6][7]");
    let (flagged, merges, _) = synthetic_run(8, &[0, 1, 2, 3, 4, 5, 6, 7]);
    assert_eq!((flagged, merges), (1, 7));
}

#[test]
fn first_merge_request_carries_pair_and_task_id() {
    let mut h: GatewayHandler<String, String> = GatewayHandler::new();
    for i in 0..3 {
        h.process(chunk_ready(i));
    }
    assert!(h.process(chunk_proved(1)).is_none());
    let (req, task, ip) = as_merge(h.process(chunk_proved(2))).unwrap();
    assert_eq!(req.chunk_index, 2);
    assert!(!req.flag_complete);
    assert_eq!(*req.proofs[0].inner, "[1]");
    assert_eq!(*req.proofs[1].inner, "[2]");
    assert_eq!(task, "2");
    assert_eq!(ip, "");
    assert_eq!(h.tree_len(), 2);
}

#[test]
fn final_proof_completes_and_exit_follows() {
    let mut h: GatewayHandler<String, String> = GatewayHandler::new();
    h.process(chunk_ready(0));
    assert!(!h.complete());
    assert!(matches!(h.process(GatewayMsg::<u32, String, String>::Embed("final".to_string())), Some(GatewayMsg::Exit)));
    assert!(h.complete());
    assert_eq!(h.get_embed_proof().map(|s| s.as_str()), Some("final"));
    // once complete, anything is answered with Exit before it is looked at
    assert!(matches!(h.process(chunk_proved(0)), Some(GatewayMsg::Exit)));
    assert!(matches!(h.process::<u32>(GatewayMsg::Exit), Some(GatewayMsg::Exit)));
    assert_eq!(h.tree_len(), 1);
}

#[test]
fn single_chunk_run_sends_its_proof_alone_when_producer_done_first() {
    let mut h: GatewayHandler<String, String> = GatewayHandler::new();
    h.process(chunk_ready(0));
    assert!(h.process::<u32>(GatewayMsg::EmulatorComplete).is_none());
    let (req, task, _) = as_merge(h.process(chunk_proved(0))).unwrap();
    assert!(req.flag_complete);
    assert_eq!(req.chunk_index, 0);
    assert_eq!(req.proofs.len(), 1);
    assert_eq!(*req.proofs[0].inner, "[0]");
    assert_eq!(task, "0");
    assert_eq!(h.tree_len(), 1);
}

#[test]
fn single_chunk_run_sends_its_proof_alone_when_proof_comes_first() {
    let mut h: GatewayHandler<String, String> = GatewayHandler::new();
    h.process(chunk_ready(0));
    assert!(h.process(chunk_proved(0)).is_none());
    let (req, _, _) = as_merge(h.process::<u32>(GatewayMsg::EmulatorComplete)).unwrap();
    assert!(req.flag_complete);
    assert_eq!(req.proofs.len(), 1);
    // a failed fast path returns the proof; it is not sent again
    let back = merge_proved(0, "[0]".to_string(), 0, 0);
    assert!(h.process(back).is_none());
}

#[test]
fn producer_messages_are_routed() {
    let mut h: GatewayHandler<String, String> = GatewayHandler::new();
    match h.route_producer_msg(chunk_ready(4)) {
        GatewayAction::Forward(GatewayMsg::Riscv(RiscvMsg::Request(req), task, _)) => {
            assert_eq!(req.chunk_index, 4);
            assert_eq!(req.record, 4);
            assert_eq!(task, "4");
        },
        _ => panic!("chunk must be forwarded"),
    }
    assert_eq!(h.tree_len(), 1);
    assert!(matches!(h.route_producer_msg::<u32>(GatewayMsg::EmulatorComplete), GatewayAction::Continue));
}

#[test]
fn worker_messages_are_routed() {
    let mut h: GatewayHandler<String, String> = GatewayHandler::new();
    h.route_producer_msg(chunk_ready(0));
    h.route_producer_msg(chunk_ready(1));
    assert!(matches!(h.route_worker_msg::<u32>(GatewayMsg::RequestTask), GatewayAction::Continue));
    assert!(matches!(h.route_worker_msg(chunk_proved(0)), GatewayAction::Continue));
    match h.route_worker_msg(chunk_proved(1)) {
        GatewayAction::Forward(GatewayMsg::Combine(CombineMsg::Request(req), _, _)) => {
            assert!(req.flag_complete);
            assert_eq!(req.chunk_index, 1);
        },
        _ => panic!("merge must be forwarded"),
    }
    assert!(matches!(
        h.route_worker_msg::<u32>(GatewayMsg::Embed("final".to_string())),
        GatewayAction::Finish
    ));
    assert!(matches!(h.route_worker_msg::<u32>(GatewayMsg::Exit), GatewayAction::Finish));
}

#[test]
fn completion_bytes_are_empty_on_render_failure() {
    assert_eq!(completion_bytes(Some(vec![1, 2, 3])), vec![1, 2, 3]);
    assert!(completion_bytes(None).is_empty());
}

#[test]
fn ip_addr_of_messages() {
    assert_eq!(chunk_proved(0).ip_addr(), "10.0.0.1");
    assert_eq!(GatewayMsg::<u32, String, String>::Close("w1".to_string()).ip_addr(), "w1");
    assert_eq!(GatewayMsg::<u32, String, String>::Exit.ip_addr(), "");
    assert_eq!(GatewayMsg::<u32, String, String>::RequestTask.ip_addr(), "");
}

#[test]
fn no_merge_after_the_completing_one() {
    let mut h: GatewayHandler<String, String> = GatewayHandler::new();
    h.process(chunk_ready(0));
    h.process(chunk_ready(1));
    h.process::<u32>(GatewayMsg::EmulatorComplete);
    assert!(h.process(chunk_proved(1)).is_none());
    let (req, _, _) = as_merge(h.process(chunk_proved(0))).unwrap();
    assert!(req.flag_complete);
    assert_eq!(req.chunk_index, 0);
    assert_eq!(h.tree_len(), 1);
    // the fast path failed and the merged proof came back: nothing more to do
    assert!(h.process(merge_proved(0, "[0][1]".to_string(), 0, 1)).is_none());
    assert!(h.process::<u32>(GatewayMsg::EmulatorComplete).is_none());
    assert_eq!(h.tree_len(), 1);
}
