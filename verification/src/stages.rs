//! Retrieval stages: their labels and what is said of one that has ended.

use vstd::prelude::*;
use crate::text::{add_part, copied, decimal, is_text, join, joined, listed, number, optional};

verus! {

/// What is shown for the stage that the sidecar calls `stage`.
pub open spec fn label_of(stage: Seq<char>) -> Seq<char> {
    if stage == "planning"@ {
        "Planning retrieval"@
    } else if stage == "cross_type_entity_repair"@ {
        "Reconciling entity types"@
    } else if stage == "indexed_entity_resolution"@ {
        "Resolving entities"@
    } else if stage == "pre_binding_constraints"@ {
        "Applying identity & time constraints"@
    } else if stage == "binding_resolution"@ {
        "Resolving structured bindings"@
    } else if stage == "theme_resolution"@ {
        "Theme retrieval (BM25)"@
    } else if stage == "finalization"@ {
        "Building candidate pool"@
    } else if stage == "ranking_evidence"@ {
        "Hydrating candidate evidence"@
    } else if stage == "ranking"@ {
        "Reranking candidates"@
    } else if stage == "mcp_search"@ {
        "Searching Fivetran AI (hybrid)"@
    } else {
        "Retrieval stage"@
    }
}

/// The label under which a stage is shown.
pub fn stage_label(stage: &str) -> (label: &'static str)
    ensures
        label@ == label_of(stage@),
{
    if stage.eq("planning") {
        "Planning retrieval"
    } else if stage.eq("cross_type_entity_repair") {
        "Reconciling entity types"
    } else if stage.eq("indexed_entity_resolution") {
        "Resolving entities"
    } else if stage.eq("pre_binding_constraints") {
        "Applying identity & time constraints"
    } else if stage.eq("binding_resolution") {
        "Resolving structured bindings"
    } else if stage.eq("theme_resolution") {
        "Theme retrieval (BM25)"
    } else if stage.eq("finalization") {
        "Building candidate pool"
    } else if stage.eq("ranking_evidence") {
        "Hydrating candidate evidence"
    } else if stage.eq("ranking") {
        "Reranking candidates"
    } else if stage.eq("mcp_search") {
        "Searching Fivetran AI (hybrid)"
    } else {
        "Retrieval stage"
    }
}

/// What the sidecar reports when a stage ends.
pub struct StageEnd {
    pub stage: Option<String>,
    pub search_attempts: Option<u64>,
    pub candidates_in: Option<u64>,
    pub results_out: Option<u64>,
    pub selection_route: Option<String>,
    pub warehouse_jobs: Option<u64>,
}

pub struct StageEndView {
    pub stage: Option<Seq<char>>,
    pub search_attempts: Option<u64>,
    pub candidates_in: Option<u64>,
    pub results_out: Option<u64>,
    pub selection_route: Option<Seq<char>>,
    pub warehouse_jobs: Option<u64>,
}

impl View for StageEnd {
    type V = StageEndView;

    open spec fn view(&self) -> StageEndView {
        StageEndView {
            stage: optional(self.stage),
            search_attempts: self.search_attempts,
            candidates_in: self.candidates_in,
            results_out: self.results_out,
            selection_route: optional(self.selection_route),
            warehouse_jobs: self.warehouse_jobs,
        }
    }
}

/// The measured quantities of an event, ready to be shown: a latency and a
/// number of bytes as text, and the wall-clock time in milliseconds.
pub struct Figures {
    pub latency: Option<String>,
    pub bytes: Option<String>,
    pub wall_ms: Option<u64>,
}

pub struct FiguresView {
    pub latency: Option<Seq<char>>,
    pub bytes: Option<Seq<char>>,
    pub wall_ms: Option<u64>,
}

impl View for Figures {
    type V = FiguresView;

    open spec fn view(&self) -> FiguresView {
        FiguresView {
            latency: optional(self.latency),
            bytes: optional(self.bytes),
            wall_ms: self.wall_ms,
        }
    }
}

/// How many searches a search stage made.
pub open spec fn searches(event: StageEndView) -> Option<Seq<char>> {
    match event.search_attempts {
        Some(n) => Some(decimal(n as nat) + " search"@ + if n == 1 {
            ""@
        } else {
            "es"@
        }),
        None => None,
    }
}

/// How many candidates a ranking stage took in and how many it let through.
pub open spec fn ranked(event: StageEndView) -> Option<Seq<char>> {
    match (event.candidates_in, event.results_out) {
        (Some(taken), Some(given)) => Some(
            decimal(taken as nat) + " candidates → "@ + decimal(given as nat) + " results"@,
        ),
        _ => None,
    }
}

/// That a ranking stage went through the model in full.
pub open spec fn ranking_route(event: StageEndView) -> Option<Seq<char>> {
    if event.selection_route == Some("full_llm_ranking"@) {
        Some("full LLM ranking"@)
    } else {
        None
    }
}

/// How many warehouse jobs a stage ran, where it ran any.
pub open spec fn jobs_run(event: StageEndView) -> Option<Seq<char>> {
    match event.warehouse_jobs {
        Some(n) => if n > 0 {
            Some(decimal(n as nat) + " warehouse job"@ + if n == 1 {
                ""@
            } else {
                "s"@
            })
        } else {
            None
        },
        None => None,
    }
}

/// What is said of an ended stage, part by part.
pub open spec fn detail_parts(event: StageEndView, figures: FiguresView) -> Seq<Seq<char>> {
    if event.stage == Some("mcp_search"@) {
        listed(searches(event))
    } else if event.stage == Some("ranking"@) {
        listed(ranked(event)) + listed(ranking_route(event))
    } else {
        listed(jobs_run(event)) + listed(figures.latency) + listed(figures.bytes)
    }
}

fn searches_text(event: &StageEnd) -> (part: Option<String>)
    ensures
        optional(part) == searches(event@),
{
    match event.search_attempts {
        Some(n) => {
            let plural = if n == 1 {
                ""
            } else {
                "es"
            };
            Some(number(n).concat(" search").concat(plural))
        },
        None => None,
    }
}

fn ranked_text(event: &StageEnd) -> (part: Option<String>)
    ensures
        optional(part) == ranked(event@),
{
    match (event.candidates_in, event.results_out) {
        (Some(taken), Some(given)) => {
            let given = number(given);
            Some(number(taken).concat(" candidates → ").concat(given.as_str()).concat(" results"))
        },
        _ => None,
    }
}

fn jobs_text(event: &StageEnd) -> (part: Option<String>)
    ensures
        optional(part) == jobs_run(event@),
{
    match event.warehouse_jobs {
        Some(n) => {
            if n > 0 {
                let plural = if n == 1 {
                    ""
                } else {
                    "s"
                };
                Some(number(n).concat(" warehouse job").concat(plural))
            } else {
                None
            }
        },
        None => None,
    }
}

/// What is shown as the result of a stage once it has ended.
pub fn stage_detail(event: &StageEnd, figures: &Figures) -> (detail: String)
    ensures
        detail@ == joined(detail_parts(event@, figures@), " · "@),
{
    let mut parts: Vec<String> = Vec::new();
    if is_text(&event.stage, "mcp_search") {
        add_part(&mut parts, searches_text(event));
    } else if is_text(&event.stage, "ranking") {
        add_part(&mut parts, ranked_text(event));
        if is_text(&event.selection_route, "full_llm_ranking") {
            add_part(&mut parts, Some("full LLM ranking".to_owned()));
        }
    } else {
        add_part(&mut parts, jobs_text(event));
        add_part(&mut parts, copied(&figures.latency));
        add_part(&mut parts, copied(&figures.bytes));
    }
    assert(crate::text::texts(parts@) == detail_parts(event@, figures@));
    join(&parts, " · ")
}

/// The stages that have a label of their own, each with its label.
pub open spec fn known_stages() -> Seq<(Seq<char>, Seq<char>)> {
    seq![
        ("planning"@, "Planning retrieval"@),
        ("cross_type_entity_repair"@, "Reconciling entity types"@),
        ("indexed_entity_resolution"@, "Resolving entities"@),
        ("pre_binding_constraints"@, "Applying identity & time constraints"@),
        ("binding_resolution"@, "Resolving structured bindings"@),
        ("theme_resolution"@, "Theme retrieval (BM25)"@),
        ("finalization"@, "Building candidate pool"@),
        ("ranking_evidence"@, "Hydrating candidate evidence"@),
        ("ranking"@, "Reranking candidates"@),
        ("mcp_search"@, "Searching Fivetran AI (hybrid)"@),
    ]
}

/// Every known stage has its label, and all others share one.
pub proof fn law_stage_labels(stage: Seq<char>)
    ensures
        forall|i: int|
            0 <= i < known_stages().len() && (#[trigger] known_stages()[i]).0 == stage
                ==> label_of(stage) == known_stages()[i].1,
        (forall|i: int|
            0 <= i < known_stages().len() ==> (#[trigger] known_stages()[i]).0 != stage)
            ==> label_of(stage) == "Retrieval stage"@,
{
    let known = known_stages();
    reveal_strlit("planning");
    reveal_strlit("cross_type_entity_repair");
    reveal_strlit("indexed_entity_resolution");
    reveal_strlit("pre_binding_constraints");
    reveal_strlit("binding_resolution");
    reveal_strlit("theme_resolution");
    reveal_strlit("finalization");
    reveal_strlit("ranking_evidence");
    reveal_strlit("ranking");
    reveal_strlit("mcp_search");
    assert("planning"@.len() == 8);
    assert("cross_type_entity_repair"@.len() == 24);
    assert("indexed_entity_resolution"@.len() == 25);
    assert("pre_binding_constraints"@.len() == 23);
    assert("binding_resolution"@.len() == 18);
    assert("theme_resolution"@.len() == 16);
    assert("finalization"@.len() == 12);
    assert("ranking_evidence"@.len() == 16);
    assert("ranking"@.len() == 7);
    assert("mcp_search"@.len() == 10);
    assert("theme_resolution"@[0] != "ranking_evidence"@[0]);
    assert(known[0].0 == "planning"@);
    assert(known[1].0 == "cross_type_entity_repair"@);
    assert(known[2].0 == "indexed_entity_resolution"@);
    assert(known[3].0 == "pre_binding_constraints"@);
    assert(known[4].0 == "binding_resolution"@);
    assert(known[5].0 == "theme_resolution"@);
    assert(known[6].0 == "finalization"@);
    assert(known[7].0 == "ranking_evidence"@);
    assert(known[8].0 == "ranking"@);
    assert(known[9].0 == "mcp_search"@);
}

/// A stage is shown under its label.
pub proof fn law_stage_is_labelled(stage: &str, label: &'static str, i: int)
    requires
        call_ensures(stage_label, (stage,), label),
        0 <= i < known_stages().len(),
        stage@ == known_stages()[i].0,
    ensures
        label@ == known_stages()[i].1,
{
    law_stage_labels(stage@);
}

} // verus!
