use gong::events::{interpret, is_ready, read_line, Received, SidecarEvent};
use gong::question::{Mode, Question, Search};
use gong::requests::{ask_line, cancel_line, choose_line, write_line};
use serde_json::Value;

fn value(text: &str) -> Value {
    serde_json::from_str(text).unwrap()
}

fn read(line: &str) -> Received {
    read_line(line, "t1").unwrap()
}

#[test]
fn ask_line_reads_back() {
    let question = Question {
        text: "who \"asked\"\nabout\u{1}é?".to_string(),
        mode: Mode::Interactive,
        search: Search::Fast,
    };
    let line = ask_line("t1", &question);
    assert!(line.ends_with('\n'));
    assert_eq!(line.matches('\n').count(), 1);
    let request = value(&line);
    assert_eq!(request["v"].as_u64(), Some(1));
    assert_eq!(request["op"], "ask");
    assert_eq!(request["id"], "t1");
    assert_eq!(request["question"], "who \"asked\"\nabout\u{1}é?");
    assert_eq!(request["mode"], "interactive");
    assert_eq!(request["search"], "fast");
    assert_eq!(request.as_object().unwrap().len(), 6);
}

#[test]
fn cancel_line_is_compact() {
    assert_eq!(cancel_line("t1"), "{\"id\":\"t1\",\"op\":\"cancel\",\"v\":1}\n");
}

#[test]
fn choose_line_echoes_the_choice() {
    assert_eq!(
        choose_line("t1", &value("[1,{\"a\":null}]"), Some(2)),
        "{\"choice_id\":[1,{\"a\":null}],\"id\":\"t1\",\"op\":\"choose\",\"selected\":2,\"v\":1}\n"
    );
    assert_eq!(
        choose_line("t1", &Value::Null, None),
        "{\"choice_id\":null,\"id\":\"t1\",\"op\":\"choose\",\"selected\":null,\"v\":1}\n"
    );
}

#[test]
fn written_line_is_the_document() {
    assert_eq!(write_line(&value(" { \"b\" : [ true , 1.5 ] } ")), "{\"b\":[true,1.5]}\n");
}

#[test]
fn other_lines_are_ignored() {
    assert!(read_line("not json", "t1").is_none());
    assert!(read_line("", "t1").is_none());
    assert!(read_line("{\"event\":\"plan\"}", "t1").is_none());
    assert!(read_line("{\"id\":\"t2\",\"event\":\"plan\"}", "t1").is_none());
    assert!(read_line("{\"id\":1,\"event\":\"plan\"}", "1").is_none());
    assert!(read_line("[\"t1\"]", "t1").is_none());
}

#[test]
fn unknown_events_are_told_apart() {
    assert!(matches!(read("{\"id\":\"t1\",\"event\":\"tick\"}").event, SidecarEvent::Other));
    assert!(matches!(read("{\"id\":\"t1\",\"event\":3}").event, SidecarEvent::Other));
    assert!(matches!(read("{\"id\":\"t1\"}").event, SidecarEvent::Other));
}

#[test]
fn stage_events_are_read() {
    let begin = read("{\"id\":\"t1\",\"event\":\"stage_begin\",\"stage\":\"ranking\"}");
    match begin.event {
        SidecarEvent::StageBegin { stage } => assert_eq!(stage.as_deref(), Some("ranking")),
        _ => panic!("not a stage"),
    }
    let end = read(
        "{\"id\":\"t1\",\"event\":\"stage_end\",\"stage\":\"ranking\",\"candidates_in\":40,\
         \"results_out\":-1,\"search_attempts\":2.0,\"warehouse_jobs\":18446744073709551615,\
         \"selection_route\":\"full_llm_ranking\",\"warehouse_latency_ms\":12.5,\
         \"latency_ms\":1,\"bytes_processed\":4096,\"wall_latency_ms\":99.9}",
    );
    match end.event {
        SidecarEvent::StageEnd(end) => {
            assert_eq!(end.stage.as_deref(), Some("ranking"));
            assert_eq!(end.candidates_in, Some(40));
            assert_eq!(end.results_out, None);
            assert_eq!(end.search_attempts, None);
            assert_eq!(end.warehouse_jobs, Some(u64::MAX));
            assert_eq!(end.selection_route.as_deref(), Some("full_llm_ranking"));
        }
        _ => panic!("not a stage"),
    }
    assert_eq!(end.measured.latency_ms.as_f64(), Some(12.5));
    assert_eq!(end.measured.bytes.as_f64(), Some(4096.0));
    assert_eq!(end.measured.wall_ms.as_f64(), Some(99.9));
}

#[test]
fn plan_event_is_read() {
    let plan = read(
        "{\"id\":\"t1\",\"event\":\"plan\",\"entities\":[{\"value\":\"Acme\",\"entity\":1}],\
         \"time_windows\":\"x\",\"bindings\":[{\"member\":\"m\",\"value\":\"v\"}],\
         \"themes\":[3,{\"value\":\"t\"}]}",
    );
    match plan.event {
        SidecarEvent::Plan(plan) => {
            assert_eq!(plan.entities.len(), 1);
            assert_eq!(plan.entities[0].value.as_deref(), Some("Acme"));
            assert_eq!(plan.entities[0].entity, None);
            assert!(plan.time_windows.is_empty());
            assert_eq!(plan.bindings[0].member.as_deref(), Some("m"));
            assert_eq!(plan.bindings[0].value.as_deref(), Some("v"));
            assert_eq!(plan.themes.len(), 2);
            assert_eq!(plan.themes[0].value, None);
            assert_eq!(plan.themes[1].value.as_deref(), Some("t"));
        }
        _ => panic!("not a plan"),
    }
}

#[test]
fn results_event_is_read() {
    let received = read(
        "{\"id\":\"t1\",\"event\":\"results\",\"total_candidates\":9,\"warehouse_jobs\":2,\
         \"latency_ms\":1500,\"warehouse_latency_ms\":7,\"bytes_processed\":null,\
         \"results\":[{\"rank\":1,\"title\":\"T\",\"started\":\"2025-01-02T\",\"url\":\"u\",\
         \"brief_excerpt\":\"b\",\"matched\":[\"bm25\",4,null,\"calls.title\"]},7]}",
    );
    assert_eq!(received.measured.latency_ms.as_f64(), Some(1500.0));
    assert!(received.measured.bytes.is_null());
    assert!(received.measured.wall_ms.is_null());
    match received.event {
        SidecarEvent::Results(results) => {
            assert_eq!(results.total_candidates, Some(9));
            assert_eq!(results.warehouse_jobs, Some(2));
            assert_eq!(results.rows.len(), 2);
            assert_eq!(results.rows[0].rank, Some(1));
            assert_eq!(results.rows[0].title.as_deref(), Some("T"));
            assert_eq!(results.rows[0].started.as_deref(), Some("2025-01-02T"));
            assert_eq!(results.rows[0].url.as_deref(), Some("u"));
            assert_eq!(results.rows[0].brief_excerpt.as_deref(), Some("b"));
            assert_eq!(results.rows[0].matched, ["bm25", "calls.title"]);
            assert_eq!(results.rows[1].rank, None);
            assert!(results.rows[1].matched.is_empty());
        }
        _ => panic!("not results"),
    }
}

#[test]
fn remaining_events_are_read() {
    match read("{\"id\":\"t1\",\"event\":\"pool\",\"candidate_count\":5}").event {
        SidecarEvent::Pool { candidate_count } => assert_eq!(candidate_count, Some(5)),
        _ => panic!("not a pool"),
    }
    match read("{\"id\":\"t1\",\"event\":\"abstain\",\"message\":\"m\"}").event {
        SidecarEvent::Abstain { message } => assert_eq!(message.as_deref(), Some("m")),
        _ => panic!("not an abstention"),
    }
    match read("{\"id\":\"t1\",\"event\":\"error\"}").event {
        SidecarEvent::Error { message } => assert_eq!(message, None),
        _ => panic!("not an error"),
    }
    match read(
        "{\"id\":\"t1\",\"event\":\"choice\",\"choice_id\":7,\"prompt\":\"p\",\
         \"options\":[{\"label\":\"a\",\"description\":\"d\"},{}]}",
    )
    .event
    {
        SidecarEvent::Choice(choice) => {
            assert_eq!(choice.choice_id, None);
            assert_eq!(choice.echo.as_u64(), Some(7));
            assert_eq!(choice.prompt.as_deref(), Some("p"));
            assert_eq!(choice.options.len(), 2);
            assert_eq!(choice.options[0].label.as_deref(), Some("a"));
            assert_eq!(choice.options[0].description.as_deref(), Some("d"));
            assert_eq!(choice.options[1].label, None);
        }
        _ => panic!("not a choice"),
    }
}

#[test]
fn values_are_interpreted_like_lines() {
    let event = value("{\"id\":\"t1\",\"event\":\"pool\",\"candidate_count\":5}");
    assert!(interpret(&event, "t1").is_some());
    assert!(interpret(&event, "t2").is_none());
}

#[test]
fn readiness_is_an_event() {
    assert!(is_ready(&value("{\"event\":\"ready\"}")));
    assert!(!is_ready(&value("{\"event\":\"Ready\"}")));
    assert!(!is_ready(&value("\"ready\"")));
}
