use gong::choice::{RequestUserInputAnswer, RequestUserInputResponse};
use gong::events::read_line;
use gong::items::{
    complete_stage_item, stage_item, Action, AgentMessageContent, McpToolCallItem,
    McpToolCallStatus, TurnItem,
};
use gong::question::{TurnInput, UserInput};
use gong::stages::Figures;
use gong::turn::{Outcome, Phase, Signal, Step, Turn};
use serde_json::Value;

fn input(text: &str) -> Vec<TurnInput> {
    vec![TurnInput::UserInput { content: vec![UserInput::Text { text: text.to_string() }] }]
}

fn no_figures() -> Figures {
    Figures { latency: None, bytes: None, wall_ms: None }
}

fn begun(text: &str) -> Turn {
    let (turn, step) = Turn::start(&input(text), "t1".to_string(), "m0".to_string());
    assert!(step.actions.is_empty());
    assert!(step.outcome.is_none());
    turn
}

fn running() -> Turn {
    let mut turn = begun("who asked?");
    turn.step(Signal::SidecarReady, String::new());
    turn.step(Signal::Written, String::new());
    assert!(matches!(turn.phase, Phase::Running));
    turn
}

fn event(line: &str) -> Signal {
    Signal::Event(read_line(line, "t1").unwrap().event, no_figures())
}

fn hear(turn: &mut Turn, line: &str, id: &str) -> Step {
    turn.step(event(line), id.to_string())
}

fn said(item: &TurnItem) -> (&str, &str) {
    match item {
        TurnItem::AgentMessage(message) => {
            assert_eq!(message.content.len(), 1);
            assert!(message.phase.is_none());
            assert!(message.memory_citation.is_none());
            assert!(message.delivery.is_none());
            match &message.content[0] {
                AgentMessageContent::Text { text } => (message.id.as_str(), text.as_str()),
            }
        }
        TurnItem::McpToolCall(_) => panic!("not a message"),
    }
}

fn assert_message(actions: &[Action], id: &str, text: &str) {
    assert_eq!(actions.len(), 2);
    match (&actions[0], &actions[1]) {
        (Action::ItemStarted(started), Action::ItemCompleted(completed)) => {
            assert_eq!(said(started), (id, text));
            assert_eq!(said(completed), (id, text));
        }
        _ => panic!("not a message"),
    }
}

fn call(item: &TurnItem) -> &McpToolCallItem {
    match item {
        TurnItem::McpToolCall(call) => call,
        TurnItem::AgentMessage(_) => panic!("not a call"),
    }
}

fn sent(step: &Step) -> Value {
    assert_eq!(step.actions.len(), 1);
    match &step.actions[0] {
        Action::Send(line) => {
            assert!(line.ends_with('\n'));
            assert_eq!(line.matches('\n').count(), 1);
            serde_json::from_str(line).unwrap()
        }
        _ => panic!("nothing sent"),
    }
}

fn final_message(step: &Step) -> Option<&str> {
    match &step.outcome {
        Some(Outcome::Said(text)) => Some(text),
        _ => None,
    }
}

#[test]
fn blank_question_is_answered_at_once() {
    for blank in ["", "  \n"] {
        let (turn, step) = Turn::start(&input(blank), "t1".to_string(), "m1".to_string());
        let text = "Ask a Gong retrieval question in natural language.";
        assert_message(&step.actions, "m1", text);
        assert_eq!(final_message(&step), Some(text));
        assert!(matches!(turn.phase, Phase::Done));
    }
}

#[test]
fn control_tokens_alone_ask_nothing() {
    for tokens in [
        "[gong:fast] ",
        "[gong:interactive] ",
        "[gong:interactive] [gong:fast] ",
        " \n[gong:fast]   [gong:interactive] \n",
    ] {
        let (mut turn, step) = Turn::start(&input(tokens), "t1".to_string(), "m1".to_string());
        let text = "Ask a Gong retrieval question in natural language.";
        assert_eq!(turn.question.text, "");
        assert_message(&step.actions, "m1", text);
        assert_eq!(final_message(&step), Some(text));
        let step = turn.step(Signal::SidecarReady, String::new());
        assert!(step.actions.is_empty());
    }
}

#[test]
fn lines_of_another_turn_are_never_shown() {
    let mut turn = running();
    for line in [
        "not json",
        "{\"id\":\"t0\",\"event\":\"results\"}",
        "{\"event\":\"error\"}",
        "{\"id\":\"t1\",\"event\":\"tick\"}",
    ] {
        if let Some(received) = read_line(line, &turn.id) {
            let step = turn.step(Signal::Event(received.event, no_figures()), "x".to_string());
            assert!(step.actions.is_empty());
            assert!(step.outcome.is_none());
        }
    }
    assert!(matches!(turn.phase, Phase::Running));
}

#[test]
fn stage_stays_open_across_other_events() {
    let mut turn = running();
    hear(&mut turn, "{\"id\":\"t1\",\"event\":\"stage_begin\"}", "s1");
    hear(&mut turn, "{\"id\":\"t1\",\"event\":\"plan\"}", "m1");
    turn.step(Signal::Cancelled, String::new());
    let step = hear(&mut turn, "{\"id\":\"t1\",\"event\":\"stage_end\"}", "x");
    match &step.actions[0] {
        Action::ItemCompleted(item) => {
            assert_eq!(call(item).id, "s1");
            assert_eq!(call(item).tool, "Retrieval stage");
        }
        _ => panic!("no end"),
    }
}

#[test]
fn question_is_sent_once_there_is_a_sidecar() {
    let mut turn = begun("[gong:fast] who asked?");
    let step = turn.step(Signal::SidecarReady, String::new());
    let request = sent(&step);
    assert_eq!(request["op"], "ask");
    assert_eq!(request["id"], "t1");
    assert_eq!(request["question"], "who asked?");
    assert_eq!(request["mode"], "run");
    assert_eq!(request["search"], "fast");
    assert!(matches!(turn.phase, Phase::Asking));
}

#[test]
fn failed_start_is_reported() {
    let mut turn = begun("x");
    let step = turn.step(Signal::SidecarFailed("no such file".to_string()), "m1".to_string());
    let text = "Gong sidecar failed to start: no such file";
    assert_message(&step.actions, "m1", text);
    assert_eq!(final_message(&step), Some(text));
}

#[test]
fn unwritten_question_is_reported() {
    let mut turn = begun("x");
    turn.step(Signal::SidecarReady, String::new());
    let step = turn.step(Signal::WriteFailed("broken pipe".to_string()), "m1".to_string());
    let text = "Gong sidecar is unreachable: broken pipe";
    assert!(matches!(step.actions[0], Action::DropSidecar));
    assert_message(&step.actions[1..], "m1", text);
    assert_eq!(final_message(&step), Some(text));
}

#[test]
fn stage_is_one_call() {
    let mut turn = running();
    let step = hear(
        &mut turn,
        "{\"id\":\"t1\",\"event\":\"stage_begin\",\"stage\":\"mcp_search\"}",
        "s1",
    );
    assert_eq!(step.actions.len(), 1);
    match &step.actions[0] {
        Action::ItemStarted(item) => {
            let call = call(item);
            assert_eq!(call.id, "s1");
            assert_eq!(call.server, "gong");
            assert_eq!(call.tool, "Searching Fivetran AI (hybrid)");
            assert_eq!(call.arguments.to_string(), "{\"stage\":\"mcp_search\"}");
            assert_eq!(call.read_only_hint, Some(true));
            assert_eq!(call.status, McpToolCallStatus::InProgress);
            assert!(call.result.is_none());
            assert!(call.error.is_none());
            assert_eq!(call.duration_ms, None);
        }
        _ => panic!("no start"),
    }
    let end = read_line(
        "{\"id\":\"t1\",\"event\":\"stage_end\",\"stage\":\"mcp_search\",\"search_attempts\":2}",
        "t1",
    )
    .unwrap();
    let figures = Figures { latency: None, bytes: None, wall_ms: Some(1234) };
    let step = turn.step(Signal::Event(end.event, figures), "unused".to_string());
    assert_eq!(step.actions.len(), 1);
    match &step.actions[0] {
        Action::ItemCompleted(item) => {
            let call = call(item);
            assert_eq!(call.id, "s1");
            assert_eq!(call.tool, "Searching Fivetran AI (hybrid)");
            assert_eq!(call.arguments.to_string(), "{\"stage\":\"mcp_search\"}");
            assert_eq!(call.status, McpToolCallStatus::Completed);
            assert_eq!(call.duration_ms, Some(1234));
            let result = call.result.as_ref().unwrap();
            assert_eq!(result.content.len(), 1);
            assert_eq!(
                result.content[0].to_string(),
                "{\"text\":\"2 searches\",\"type\":\"text\"}"
            );
            assert!(result.structured_content.is_none());
            assert_eq!(result.is_error, Some(false));
            assert!(result.meta.is_none());
        }
        _ => panic!("no end"),
    }
    assert!(turn.open_stage.is_none());
}

#[test]
fn stage_end_alone_shows_nothing() {
    let mut turn = running();
    let step = hear(&mut turn, "{\"id\":\"t1\",\"event\":\"stage_end\"}", "x");
    assert!(step.actions.is_empty());
    assert!(step.outcome.is_none());
}

#[test]
fn later_stage_takes_the_place_of_an_open_one() {
    let mut turn = running();
    hear(&mut turn, "{\"id\":\"t1\",\"event\":\"stage_begin\",\"stage\":\"planning\"}", "s1");
    hear(&mut turn, "{\"id\":\"t1\",\"event\":\"stage_begin\"}", "s2");
    let step = hear(&mut turn, "{\"id\":\"t1\",\"event\":\"stage_end\"}", "x");
    match &step.actions[0] {
        Action::ItemCompleted(item) => {
            assert_eq!(call(item).id, "s2");
            assert_eq!(call(item).tool, "Retrieval stage");
            assert_eq!(call(item).arguments.to_string(), "{\"stage\":\"\"}");
        }
        _ => panic!("no end"),
    }
    let step = hear(&mut turn, "{\"id\":\"t1\",\"event\":\"stage_end\"}", "x");
    assert!(step.actions.is_empty());
}

#[test]
fn plan_is_said() {
    let mut turn = running();
    let step = hear(
        &mut turn,
        "{\"id\":\"t1\",\"event\":\"plan\",\"themes\":[{\"value\":\"churn\"}]}",
        "m1",
    );
    assert_message(&step.actions, "m1", "**Planned retrieval**\n- themes: \"churn\"");
    assert!(step.outcome.is_none());
}

#[test]
fn pool_is_a_finished_call() {
    let mut turn = running();
    let step = hear(&mut turn, "{\"id\":\"t1\",\"event\":\"pool\",\"candidate_count\":31}", "p1");
    match (&step.actions[0], &step.actions[1]) {
        (Action::ItemStarted(started), Action::ItemCompleted(completed)) => {
            assert_eq!(call(started).tool, "Candidate pool");
            assert_eq!(call(started).status, McpToolCallStatus::InProgress);
            assert_eq!(call(started).arguments.to_string(), "{}");
            assert_eq!(call(completed).id, "p1");
            assert_eq!(call(completed).status, McpToolCallStatus::Completed);
            assert_eq!(
                call(completed).result.as_ref().unwrap().content[0]["text"],
                "31 calls"
            );
        }
        _ => panic!("not a call"),
    }
    let step = hear(&mut turn, "{\"id\":\"t1\",\"event\":\"pool\"}", "p2");
    assert!(step.actions.is_empty());
}

const CHOICE: &str = "{\"id\":\"t1\",\"event\":\"choice\",\"choice_id\":\"c1\",\
                      \"options\":[{\"label\":\"a\"},{\"label\":\"b\"}]}";

#[test]
fn choice_is_put_and_settled() {
    let mut turn = running();
    let step = hear(&mut turn, CHOICE, "u1");
    assert_eq!(step.actions.len(), 1);
    match &step.actions[0] {
        Action::AskUser { call_id, args } => {
            assert_eq!(call_id, "u1");
            assert_eq!(args.questions[0].id, "c1");
        }
        _ => panic!("not a question"),
    }
    let response = RequestUserInputResponse {
        answers: vec![RequestUserInputAnswer {
            question_id: "c1".to_string(),
            answers: vec!["b".to_string()],
        }],
    };
    let step = turn.step(Signal::Answered(Some(response)), String::new());
    let reply = sent(&step);
    assert_eq!(reply["op"], "choose");
    assert_eq!(reply["id"], "t1");
    assert_eq!(reply["choice_id"], "c1");
    assert_eq!(reply["selected"].as_u64(), Some(1));
    turn.step(Signal::Written, String::new());
    assert!(matches!(turn.phase, Phase::Running));
}

#[test]
fn declined_choice_keeps_the_default() {
    let mut turn = running();
    hear(&mut turn, CHOICE, "u1");
    let step = turn.step(Signal::Answered(None), String::new());
    let reply = sent(&step);
    assert!(reply["selected"].is_null());
    assert!(reply.as_object().unwrap().contains_key("selected"));
}

#[test]
fn choice_without_options_is_settled_at_once() {
    let mut turn = running();
    let step = hear(&mut turn, "{\"id\":\"t1\",\"event\":\"choice\",\"choice_id\":4}", "u1");
    let reply = sent(&step);
    assert_eq!(reply["choice_id"].as_u64(), Some(4));
    assert!(reply["selected"].is_null());
    assert!(matches!(turn.phase, Phase::Replying));
}

#[test]
fn unwritten_reply_is_reported_even_when_called_off() {
    let mut turn = running();
    turn.step(Signal::Cancelled, String::new());
    hear(&mut turn, CHOICE, "u1");
    turn.step(Signal::Answered(None), String::new());
    let step = turn.step(Signal::WriteFailed("x".to_string()), "m1".to_string());
    assert!(matches!(step.actions[0], Action::DropSidecar));
    assert_message(&step.actions[1..], "m1", "Gong sidecar is unreachable.");
    assert_eq!(final_message(&step), Some("Gong sidecar is unreachable."));
}

#[test]
fn results_end_the_turn_quietly() {
    let mut turn = running();
    let step = hear(&mut turn, "{\"id\":\"t1\",\"event\":\"results\"}", "m1");
    assert_message(&step.actions, "m1", "**Results**  ()\n_No calls returned._");
    assert!(matches!(step.outcome, Some(Outcome::Quiet)));
    let step = hear(&mut turn, "{\"id\":\"t1\",\"event\":\"results\"}", "m2");
    assert!(step.actions.is_empty());
    assert!(step.outcome.is_none());
}

#[test]
fn abstention_ends_the_turn() {
    let mut turn = running();
    let step = hear(&mut turn, "{\"id\":\"t1\",\"event\":\"abstain\",\"message\":\"Who?\"}", "m1");
    assert_message(&step.actions, "m1", "**Need more to go on.** Who?");
    assert!(matches!(step.outcome, Some(Outcome::Quiet)));
    let mut turn = running();
    let step = hear(&mut turn, "{\"id\":\"t1\",\"event\":\"abstain\"}", "m1");
    assert_message(&step.actions, "m1", "**Need more to go on.** ");
}

#[test]
fn error_ends_the_turn() {
    let mut turn = running();
    let step = hear(&mut turn, "{\"id\":\"t1\",\"event\":\"error\",\"message\":\"boom\"}", "m1");
    assert_message(&step.actions, "m1", "Retrieval failed: boom");
    assert!(matches!(step.outcome, Some(Outcome::Quiet)));
    let mut turn = running();
    let step = hear(&mut turn, "{\"id\":\"t1\",\"event\":\"error\"}", "m1");
    assert_message(&step.actions, "m1", "Retrieval failed: unknown error");
}

#[test]
fn unknown_event_changes_nothing() {
    let mut turn = running();
    let step = hear(&mut turn, "{\"id\":\"t1\",\"event\":\"tick\"}", "x");
    assert!(step.actions.is_empty());
    assert!(step.outcome.is_none());
    assert!(matches!(turn.phase, Phase::Running));
}

#[test]
fn called_off_turn_tells_the_sidecar_once() {
    let mut turn = running();
    let step = turn.step(Signal::Cancelled, String::new());
    let request = sent(&step);
    assert_eq!(request["op"], "cancel");
    assert_eq!(request["id"], "t1");
    let step = turn.step(Signal::Cancelled, String::new());
    assert!(step.actions.is_empty());
    assert!(turn.cancelled);
}

#[test]
fn called_off_turn_is_aborted() {
    let mut turn = running();
    turn.step(Signal::Cancelled, String::new());
    let step = hear(&mut turn, "{\"id\":\"t1\",\"event\":\"error\"}", "m1");
    assert!(step.actions.is_empty());
    assert!(matches!(step.outcome, Some(Outcome::Aborted)));

    let mut turn = running();
    turn.step(Signal::Cancelled, String::new());
    let step = hear(&mut turn, "{\"id\":\"t1\",\"event\":\"results\"}", "m1");
    assert_eq!(step.actions.len(), 2);
    assert!(matches!(step.outcome, Some(Outcome::Aborted)));

    let mut turn = running();
    turn.step(Signal::Cancelled, String::new());
    let step = turn.step(Signal::Closed, "m1".to_string());
    assert_eq!(step.actions.len(), 1);
    assert!(matches!(step.actions[0], Action::DropSidecar));
    assert!(matches!(step.outcome, Some(Outcome::Aborted)));
}

#[test]
fn lost_sidecar_is_reported() {
    let mut turn = running();
    let step = turn.step(Signal::Closed, "m1".to_string());
    assert!(matches!(step.actions[0], Action::DropSidecar));
    assert_message(&step.actions[1..], "m1", "Gong sidecar exited unexpectedly.");
    assert_eq!(final_message(&step), Some("Gong sidecar exited unexpectedly."));
}

#[test]
fn signals_out_of_place_change_nothing() {
    let mut turn = begun("x");
    for signal in [Signal::Written, Signal::Cancelled, Signal::Closed, Signal::Answered(None)] {
        let step = turn.step(signal, String::new());
        assert!(step.actions.is_empty());
        assert!(step.outcome.is_none());
    }
    assert!(matches!(turn.phase, Phase::Starting));
    assert!(!turn.cancelled);
}

fn assert_random_id(id: &str) {
    assert_eq!(id.len(), 36);
    for (i, c) in id.chars().enumerate() {
        match i {
            8 | 13 | 18 | 23 => assert_eq!(c, '-'),
            14 => assert_eq!(c, '4'),
            19 => assert!("89ab".contains(c)),
            _ => assert!("0123456789abcdef".contains(c)),
        }
    }
}

#[test]
fn identifiers_are_random_and_new() {
    let (mut one, _) = Turn::open(&input("x"));
    let (other, _) = Turn::open(&input("x"));
    assert_random_id(&one.id);
    assert_random_id(&other.id);
    assert_ne!(one.id, other.id);
    let step = one.advance(Signal::SidecarFailed("e".to_string()));
    match &step.actions[0] {
        Action::ItemStarted(item) => {
            let (id, text) = said(item);
            assert_random_id(id);
            assert_ne!(id, one.id);
            assert_eq!(text, "Gong sidecar failed to start: e");
        }
        _ => panic!("no message"),
    }
}

#[test]
fn call_is_completed_in_place() {
    let item = stage_item("i".to_string(), "T", Value::from("a"));
    let copy = item.copy();
    assert_eq!(copy.id, "i");
    assert_eq!(copy.tool, "T");
    let done = complete_stage_item(item, "d");
    assert_eq!(done.id, "i");
    assert_eq!(done.arguments, "a");
    assert_eq!(done.status, McpToolCallStatus::Completed);
    assert_eq!(done.copy().result.unwrap().content[0]["text"], "d");
}
