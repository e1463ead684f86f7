use chat_assistant::state::TaskResult;
use chat_assistant::task::{answer_results, on_reply, ReplyStep};
use rig_core::completion::Message;

#[test]
fn first_answer_is_used() {
    match on_reply(None, Ok("jawaban".to_string())) {
        ReplyStep::Answered(a) => assert_eq!(a, "jawaban"),
        other => panic!("unexpected {:?}", other),
    }
}

#[test]
fn first_failure_calls_the_fallback() {
    match on_reply(None, Err("rate limit".to_string())) {
        ReplyStep::CallFallback(e) => assert_eq!(e, "rate limit"),
        other => panic!("unexpected {:?}", other),
    }
}

#[test]
fn fallback_answer_is_used() {
    match on_reply(Some("rate limit".to_string()), Ok("cadangan".to_string())) {
        ReplyStep::Answered(a) => assert_eq!(a, "cadangan"),
        other => panic!("unexpected {:?}", other),
    }
}

#[test]
fn both_failing_reports_the_first_error() {
    match on_reply(Some("rate limit".to_string()), Err("timeout".to_string())) {
        ReplyStep::Failed(e) => assert_eq!(e, "rate limit"),
        other => panic!("unexpected {:?}", other),
    }
}

#[test]
fn answer_alone() {
    let history = vec![Message::user("hai")];
    let r = answer_results("halo".to_string(), history.clone(), 2, false);
    assert_eq!(r.len(), 1);
    match &r[0] {
        TaskResult::AiResponse { response, updated_history, memory_count } => {
            assert_eq!(response, "halo");
            assert_eq!(updated_history, &history);
            assert_eq!(*memory_count, 2);
        }
        _ => panic!("expected the answer"),
    }
}

#[test]
fn compression_notice_comes_first() {
    let r = answer_results("halo".to_string(), vec![], 0, true);
    assert_eq!(r.len(), 2);
    match &r[0] {
        TaskResult::SystemMessage(m) => {
            assert_eq!(m, "🗜️ Percakapan lama dirangkum dan disimpan ke memori")
        }
        _ => panic!("expected the notice first"),
    }
    assert!(matches!(&r[1], TaskResult::AiResponse { response, .. } if response == "halo"));
}
