use gong::results::friendly_signal;
use gong::stages::{stage_detail, stage_label, Figures, StageEnd};

#[test]
fn stages_have_their_labels() {
    assert_eq!(stage_label("planning"), "Planning retrieval");
    assert_eq!(stage_label("cross_type_entity_repair"), "Reconciling entity types");
    assert_eq!(stage_label("indexed_entity_resolution"), "Resolving entities");
    assert_eq!(
        stage_label("pre_binding_constraints"),
        "Applying identity & time constraints"
    );
    assert_eq!(stage_label("binding_resolution"), "Resolving structured bindings");
    assert_eq!(stage_label("theme_resolution"), "Theme retrieval (BM25)");
    assert_eq!(stage_label("finalization"), "Building candidate pool");
    assert_eq!(stage_label("ranking_evidence"), "Hydrating candidate evidence");
    assert_eq!(stage_label("ranking"), "Reranking candidates");
    assert_eq!(stage_label("mcp_search"), "Searching Fivetran AI (hybrid)");
}

#[test]
fn unknown_stage_has_the_general_label() {
    assert_eq!(stage_label("Planning"), "Retrieval stage");
    assert_eq!(stage_label(""), "Retrieval stage");
}

#[test]
fn signals_have_their_labels() {
    assert_eq!(friendly_signal("calls.title"), "call title");
    assert_eq!(friendly_signal("calls.brief"), "call brief");
    assert_eq!(friendly_signal("calls.started"), "call date");
    assert_eq!(friendly_signal("users.full_name"), "your name");
    assert_eq!(friendly_signal("users.identity"), "your name");
    assert_eq!(friendly_signal("users.email_address"), "your email");
    assert_eq!(friendly_signal("participants.name"), "participant name");
    assert_eq!(friendly_signal("participants.email_address"), "participant email");
    assert_eq!(
        friendly_signal("participants.email_domain"),
        "participant email domain"
    );
    assert_eq!(friendly_signal("organizations.identity"), "organization");
    assert_eq!(friendly_signal("call_topic_occurrences.name"), "call topic");
    assert_eq!(friendly_signal("trackers.name"), "tracker");
    assert_eq!(friendly_signal("tracker_occurrences.name"), "tracker");
    assert_eq!(friendly_signal("outline_sections.section"), "call outline");
    assert_eq!(friendly_signal("outline_items.text"), "call outline");
    assert_eq!(friendly_signal("transcript_turns.sentence_text"), "transcript");
    assert_eq!(friendly_signal("bm25"), "keywords (BM25)");
    assert_eq!(friendly_signal("declared_index"), "theme index");
    assert_eq!(friendly_signal("theme_index:bm25"), "theme index");
}

#[test]
fn unknown_signal_is_spaced_out() {
    assert_eq!(friendly_signal("crm_deals.owner_name"), "crm deals owner name");
    assert_eq!(friendly_signal("é_ü"), "é ü");
    assert_eq!(friendly_signal(""), "");
}

fn stage_end(stage: &str) -> StageEnd {
    StageEnd {
        stage: Some(stage.to_string()),
        search_attempts: None,
        candidates_in: None,
        results_out: None,
        selection_route: None,
        warehouse_jobs: None,
    }
}

fn no_figures() -> Figures {
    Figures { latency: None, bytes: None, wall_ms: None }
}

fn all_figures() -> Figures {
    Figures {
        latency: Some("1.5s".to_string()),
        bytes: Some("2.0 MB".to_string()),
        wall_ms: Some(7),
    }
}

#[test]
fn search_stage_counts_searches() {
    let mut event = stage_end("mcp_search");
    assert_eq!(stage_detail(&event, &all_figures()), "");
    event.search_attempts = Some(1);
    event.warehouse_jobs = Some(3);
    assert_eq!(stage_detail(&event, &all_figures()), "1 search");
    event.search_attempts = Some(0);
    assert_eq!(stage_detail(&event, &all_figures()), "0 searches");
    event.search_attempts = Some(12);
    assert_eq!(stage_detail(&event, &all_figures()), "12 searches");
}

#[test]
fn ranking_stage_tells_candidates_and_route() {
    let mut event = stage_end("ranking");
    event.candidates_in = Some(40);
    assert_eq!(stage_detail(&event, &all_figures()), "");
    event.results_out = Some(10);
    assert_eq!(stage_detail(&event, &all_figures()), "40 candidates → 10 results");
    event.selection_route = Some("full_llm_ranking".to_string());
    assert_eq!(
        stage_detail(&event, &all_figures()),
        "40 candidates → 10 results · full LLM ranking"
    );
    event.candidates_in = None;
    assert_eq!(stage_detail(&event, &no_figures()), "full LLM ranking");
    event.selection_route = Some("other".to_string());
    assert_eq!(stage_detail(&event, &no_figures()), "");
}

#[test]
fn other_stages_tell_jobs_and_figures() {
    let mut event = stage_end("planning");
    assert_eq!(stage_detail(&event, &no_figures()), "");
    event.warehouse_jobs = Some(0);
    assert_eq!(stage_detail(&event, &all_figures()), "1.5s · 2.0 MB");
    event.warehouse_jobs = Some(1);
    assert_eq!(
        stage_detail(&event, &all_figures()),
        "1 warehouse job · 1.5s · 2.0 MB"
    );
    event.warehouse_jobs = Some(18446744073709551615);
    event.stage = None;
    assert_eq!(
        stage_detail(&event, &no_figures()),
        "18446744073709551615 warehouse jobs"
    );
}
