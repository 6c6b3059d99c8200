use cuuri::context::Role;
use cuuri::pipeline::{AbortReason, Action, Event, Orchestrator, OrchestratorError, Stage};
use cuuri::records::ChatHistory;

fn delta_line(content: &str) -> String {
    format!("data: {{\"choices\":[{{\"delta\":{{\"content\":\"{}\"}}}}]}}\n", content)
}

fn start(api_key: &str) -> Orchestrator {
    Orchestrator::new(
        "s1".to_string(),
        "Hello".to_string(),
        None,
        "gpt-4o".to_string(),
        api_key.to_string(),
    )
}

fn entry(id: i32, question: &str, answer: &str) -> ChatHistory {
    ChatHistory {
        id,
        session_id: "s1".to_string(),
        question: question.to_string(),
        answer: answer.to_string(),
        created_at: id as i64,
    }
}

fn open(o: &mut Orchestrator, history: Vec<ChatHistory>) -> usize {
    let n = match o.handle(Event::HistoryLoaded(history)) {
        Action::OpenStream(req) => {
            assert!(req.stream);
            assert_eq!(req.model, "gpt-4o");
            assert_eq!(req.api_key, "key");
            req.messages.len()
        }
        _ => panic!("expected a request"),
    };
    match o.handle(Event::StreamOpened) {
        Action::Read(f) => assert!(f.is_empty()),
        _ => panic!("expected a read"),
    }
    n
}

#[test]
fn scenario_a_full_answer_is_persisted() {
    let mut o = start("key");
    assert_eq!(open(&mut o, Vec::new()), 1);
    let mut delivered: Vec<String> = Vec::new();
    match o.handle(Event::Chunk(delta_line("Hi").into_bytes())) {
        Action::Read(f) => delivered.extend(f),
        _ => panic!("expected a read"),
    }
    let mut tail = delta_line(" there");
    tail.push_str("data: [DONE]\n");
    let record = match o.handle(Event::Chunk(tail.into_bytes())) {
        Action::Persist(f, record) => {
            delivered.extend(f);
            record
        }
        _ => panic!("expected a write"),
    };
    assert_eq!(delivered, vec!["Hi".to_string(), " there".to_string()]);
    assert_eq!(record.session_id, "s1");
    assert_eq!(record.question, "Hello");
    assert_eq!(record.answer, "Hi there");
    assert_eq!(o.stage(), Stage::Persisting);
    match o.handle(Event::Persisted) {
        Action::Finish(Ok(resp)) => {
            assert_eq!(resp.response, "Hi there");
            assert!(!resp.created_at.is_empty());
        }
        _ => panic!("expected a finished answer"),
    }
    assert_eq!(o.stage(), Stage::Done);
}

#[test]
fn scenario_b_interrupted_stream_is_not_persisted() {
    let mut o = start("key");
    open(&mut o, Vec::new());
    let mut delivered: Vec<String> = Vec::new();
    match o.handle(Event::Chunk(delta_line("Partial").into_bytes())) {
        Action::Read(f) => delivered.extend(f),
        _ => panic!("expected a read"),
    }
    assert_eq!(delivered, vec!["Partial".to_string()]);
    assert!(matches!(
        o.handle(Event::StreamFailed),
        Action::Finish(Err(OrchestratorError::StreamInterrupted))
    ));
    assert_eq!(o.stage(), Stage::Aborted(AbortReason::StreamInterrupted));
    assert!(matches!(o.handle(Event::Persisted), Action::Ignored));
}

#[test]
fn scenario_c_rejected_request_emits_nothing() {
    let mut o = start("key");
    assert!(matches!(o.handle(Event::HistoryLoaded(Vec::new())), Action::OpenStream(_)));
    assert!(matches!(
        o.handle(Event::RequestRejected),
        Action::Finish(Err(OrchestratorError::RequestFailed))
    ));
    assert_eq!(o.stage(), Stage::Aborted(AbortReason::RequestFailed));
    assert_eq!(o.answer(), "");
    assert!(matches!(o.handle(Event::Chunk(delta_line("x").into_bytes())), Action::Ignored));
}

#[test]
fn scenario_d_two_exchanges_give_five_messages() {
    let mut o = start("key");
    let history = vec![entry(1, "q1", "a1"), entry(2, "q2", "a2")];
    match o.handle(Event::HistoryLoaded(history)) {
        Action::OpenStream(req) => {
            let roles: Vec<Role> = req.messages.iter().map(|m| m.role).collect();
            assert_eq!(
                roles,
                vec![Role::User, Role::Assistant, Role::User, Role::Assistant, Role::User]
            );
        }
        _ => panic!("expected a request"),
    }
}

#[test]
fn unparseable_frames_leave_the_answer_alone() {
    let mut o = start("key");
    open(&mut o, Vec::new());
    let mut stream = delta_line("one");
    stream.push_str("data: {garbage\n");
    stream.push_str("data: not json at all\n");
    stream.push_str(&delta_line(" two"));
    match o.handle(Event::Chunk(stream.into_bytes())) {
        Action::Read(f) => assert_eq!(f, vec!["one".to_string(), " two".to_string()]),
        _ => panic!("expected a read"),
    }
    assert_eq!(o.answer(), "one two");
}

#[test]
fn history_failure_aborts() {
    let mut o = start("key");
    assert!(matches!(
        o.handle(Event::HistoryFailed),
        Action::Finish(Err(OrchestratorError::HistoryFetchFailed))
    ));
    assert_eq!(o.stage(), Stage::Aborted(AbortReason::HistoryFetchFailed));
}

#[test]
fn empty_credential_fails_the_request() {
    let mut o = start("");
    assert!(matches!(
        o.handle(Event::HistoryLoaded(Vec::new())),
        Action::Finish(Err(OrchestratorError::RequestFailed))
    ));
    assert_eq!(o.stage(), Stage::Aborted(AbortReason::RequestFailed));
}

#[test]
fn persistence_failure_returns_the_unsaved_answer() {
    let mut o = start("key");
    open(&mut o, Vec::new());
    let mut stream = delta_line("kept");
    stream.push_str("data: [DONE]\n");
    assert!(matches!(o.handle(Event::Chunk(stream.into_bytes())), Action::Persist(_, _)));
    match o.handle(Event::PersistFailed) {
        Action::Finish(Err(OrchestratorError::PersistenceFailed(resp))) => {
            assert_eq!(resp.response, "kept")
        }
        _ => panic!("expected an unsaved answer"),
    }
    assert_eq!(o.stage(), Stage::Aborted(AbortReason::PersistenceFailed));
}

#[test]
fn stream_end_without_marker_is_an_interruption() {
    let mut o = start("key");
    open(&mut o, Vec::new());
    assert!(matches!(o.handle(Event::Chunk(delta_line("cut").into_bytes())), Action::Read(_)));
    assert!(matches!(
        o.handle(Event::StreamEnded),
        Action::Finish(Err(OrchestratorError::StreamInterrupted))
    ));
}

#[test]
fn empty_answer_is_persisted_when_done_comes_first() {
    let mut o = start("key");
    open(&mut o, Vec::new());
    match o.handle(Event::Chunk(b"data: [DONE]\n".to_vec())) {
        Action::Persist(f, record) => {
            assert!(f.is_empty());
            assert_eq!(record.answer, "");
        }
        _ => panic!("expected a write"),
    }
}

#[test]
fn events_out_of_stage_are_ignored() {
    let mut o = start("key");
    assert!(matches!(o.handle(Event::StreamOpened), Action::Ignored));
    assert!(matches!(o.handle(Event::Persisted), Action::Ignored));
    assert_eq!(o.stage(), Stage::BuildingContext);
}
