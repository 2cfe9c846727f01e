use gong::plan::{plan_markdown, Binding, Entity, Plan, Theme, TimeWindow};
use gong::results::{results_markdown, ResultRow, Results};
use gong::stages::Figures;

fn some(text: &str) -> Option<String> {
    Some(text.to_string())
}

fn empty_plan() -> Plan {
    Plan {
        entities: Vec::new(),
        time_windows: Vec::new(),
        bindings: Vec::new(),
        themes: Vec::new(),
    }
}

fn no_figures() -> Figures {
    Figures { latency: None, bytes: None, wall_ms: None }
}

fn bare_row() -> ResultRow {
    ResultRow {
        rank: None,
        title: None,
        started: None,
        url: None,
        brief_excerpt: None,
        matched: Vec::new(),
    }
}

#[test]
fn plan_without_lists_is_only_its_title() {
    assert_eq!(plan_markdown(&empty_plan()), "**Planned retrieval**");
}

#[test]
fn plan_shows_every_list() {
    let plan = Plan {
        entities: vec![
            Entity { value: some("Acme"), entity: some("organization") },
            Entity { value: None, entity: None },
        ],
        time_windows: vec![
            TimeWindow { start: some("2025-01-01"), end_exclusive: None },
            TimeWindow { start: None, end_exclusive: some("2025-02-01") },
        ],
        bindings: vec![
            Binding { member: some("calls.title"), value: some("Kickoff") },
            Binding { member: None, value: None },
        ],
        themes: vec![Theme { value: some("pricing") }, Theme { value: None }],
    };
    assert_eq!(
        plan_markdown(&plan),
        "**Planned retrieval**\n\
         - entities: Acme (organization) · ? (?)\n\
         - time: 2025-01-01 → … · … → 2025-02-01\n\
         - bindings: calls.title = \"Kickoff\" · ? = \"?\"\n\
         - themes: \"pricing\" · \"?\""
    );
}

#[test]
fn plan_leaves_out_empty_lists() {
    let mut plan = empty_plan();
    plan.themes = vec![Theme { value: some("churn") }];
    assert_eq!(plan_markdown(&plan), "**Planned retrieval**\n- themes: \"churn\"");
}

#[test]
fn no_calls_are_noted() {
    let results = Results { rows: Vec::new(), total_candidates: None, warehouse_jobs: None };
    assert_eq!(
        results_markdown(&results, &no_figures()),
        "**Results**  ()\n_No calls returned._"
    );
}

#[test]
fn summary_lists_what_is_known() {
    let results = Results {
        rows: Vec::new(),
        total_candidates: Some(120),
        warehouse_jobs: Some(1),
    };
    let figures = Figures {
        latency: some("3.2s"),
        bytes: some("1.5 GB"),
        wall_ms: None,
    };
    assert_eq!(
        results_markdown(&results, &figures),
        "**Results**  (0 of 120 candidates · 3.2s · 1 warehouse jobs · 1.5 GB scanned)\n\
         _No calls returned._"
    );
}

#[test]
fn rows_are_shown_in_order() {
    let results = Results {
        rows: vec![
            ResultRow {
                rank: Some(1),
                title: some("Acme kickoff"),
                started: some("2025-03-04T10:00:00Z"),
                url: some("https://example.com/1"),
                brief_excerpt: some("They agreed."),
                matched: vec!["calls.title".to_string(), "bm25".to_string()],
            },
            ResultRow { rank: Some(2), title: some("Review"), ..bare_row() },
        ],
        total_candidates: Some(9),
        warehouse_jobs: None,
    };
    assert_eq!(
        results_markdown(&results, &no_figures()),
        "**Results**  (2 of 9 candidates)\n\
         1. **[Acme kickoff](https://example.com/1)** — 2025-03-04\n   \
         *Brief:* They agreed.\n   \
         *Matched on:* call title · keywords (BM25)\n\
         \n\
         2. **Review** — \n"
    );
}

#[test]
fn bare_row_has_defaults() {
    let results = Results {
        rows: vec![bare_row()],
        total_candidates: None,
        warehouse_jobs: None,
    };
    assert_eq!(
        results_markdown(&results, &no_figures()),
        "**Results**  ()\n0. **(untitled call)** — \n"
    );
}

#[test]
fn empty_brief_is_left_out_and_short_dates_are_kept() {
    let results = Results {
        rows: vec![ResultRow { brief_excerpt: some(""), started: some("2025"), ..bare_row() }],
        total_candidates: None,
        warehouse_jobs: None,
    };
    assert_eq!(
        results_markdown(&results, &no_figures()),
        "**Results**  ()\n0. **(untitled call)** — 2025\n"
    );
}

#[test]
fn dates_are_counted_in_characters() {
    let results = Results {
        rows: vec![ResultRow { started: some("ééééééééééX"), ..bare_row() }],
        total_candidates: None,
        warehouse_jobs: None,
    };
    assert_eq!(
        results_markdown(&results, &no_figures()),
        "**Results**  ()\n0. **(untitled call)** — éééééééééé\n"
    );
}

#[test]
fn neighbouring_labels_are_shown_once() {
    let signals = ["trackers.name", "tracker_occurrences.name", "bm25", "trackers.name"];
    let results = Results {
        rows: vec![ResultRow {
            matched: signals.iter().map(|signal| signal.to_string()).collect(),
            ..bare_row()
        }],
        total_candidates: None,
        warehouse_jobs: None,
    };
    assert_eq!(
        results_markdown(&results, &no_figures()),
        "**Results**  ()\n0. **(untitled call)** — \n   \
         *Matched on:* tracker · keywords (BM25) · tracker\n"
    );
}

#[test]
fn blank_evidence_is_left_out() {
    let results = Results {
        rows: vec![ResultRow { matched: vec![String::new(), String::new()], ..bare_row() }],
        total_candidates: None,
        warehouse_jobs: None,
    };
    assert_eq!(
        results_markdown(&results, &no_figures()),
        "**Results**  ()\n0. **(untitled call)** — \n"
    );
}
