//! The events that the sidecar reports, one JSON object per line.

use vstd::prelude::*;
use crate::choice::{Choice, ChoiceOption, ChoiceOptionView, ChoiceView};
use crate::json::{self, document, documents, parsed, Json};
use crate::model::contents;
use crate::plan::{
    Binding, BindingView, Entity, EntityView, Plan, PlanView, Theme, ThemeView,
    TimeWindow, TimeWindowView,
};
use crate::results::{ResultRow, ResultRowView, Results, ResultsView};
use crate::stages::{StageEnd, StageEndView};
use crate::text::{is_text, optional, texts};

verus! {

/// Something that the sidecar reports of a turn.
pub enum SidecarEvent {
    StageBegin { stage: Option<String> },
    StageEnd(StageEnd),
    Plan(Plan),
    Pool { candidate_count: Option<u64> },
    Choice(Choice),
    Results(Results),
    Abstain { message: Option<String> },
    Error { message: Option<String> },
    Other,
}

pub enum SidecarEventView {
    StageBegin { stage: Option<Seq<char>> },
    StageEnd(StageEndView),
    Plan(PlanView),
    Pool { candidate_count: Option<u64> },
    Choice(ChoiceView),
    Results(ResultsView),
    Abstain { message: Option<Seq<char>> },
    Error { message: Option<Seq<char>> },
    Other,
}

impl View for SidecarEvent {
    type V = SidecarEventView;

    open spec fn view(&self) -> SidecarEventView {
        match self {
            SidecarEvent::StageBegin { stage } => SidecarEventView::StageBegin {
                stage: optional(*stage),
            },
            SidecarEvent::StageEnd(event) => SidecarEventView::StageEnd(event@),
            SidecarEvent::Plan(plan) => SidecarEventView::Plan(plan@),
            SidecarEvent::Pool { candidate_count } => SidecarEventView::Pool {
                candidate_count: *candidate_count,
            },
            SidecarEvent::Choice(choice) => SidecarEventView::Choice(choice@),
            SidecarEvent::Results(results) => SidecarEventView::Results(results@),
            SidecarEvent::Abstain { message } => SidecarEventView::Abstain {
                message: optional(*message),
            },
            SidecarEvent::Error { message } => SidecarEventView::Error {
                message: optional(*message),
            },
            SidecarEvent::Other => SidecarEventView::Other,
        }
    }
}

/// The quantities that an event gives as numbers of any kind, as they came: a
/// latency in milliseconds, a number of bytes, and the wall-clock time in
/// milliseconds. What is missing is `Null`.
pub struct Measured {
    pub latency_ms: serde_json::Value,
    pub bytes: serde_json::Value,
    pub wall_ms: serde_json::Value,
}

pub struct MeasuredView {
    pub latency_ms: Json,
    pub bytes: Json,
    pub wall_ms: Json,
}

impl View for Measured {
    type V = MeasuredView;

    open spec fn view(&self) -> MeasuredView {
        MeasuredView {
            latency_ms: document(self.latency_ms),
            bytes: document(self.bytes),
            wall_ms: document(self.wall_ms),
        }
    }
}

/// An event of the turn, with what was measured.
pub struct Received {
    pub event: SidecarEvent,
    pub measured: Measured,
}

pub struct ReceivedView {
    pub event: SidecarEventView,
    pub measured: MeasuredView,
}

impl View for Received {
    type V = ReceivedView;

    open spec fn view(&self) -> ReceivedView {
        ReceivedView { event: self.event@, measured: self.measured@ }
    }
}

/// Something that can be read from any JSON document.
pub trait Readable: View + Sized {
    /// What a document says.
    spec fn read_as(json: Json) -> Self::V;

    /// What the value says.
    fn read(value: &serde_json::Value) -> (item: Self)
        ensures
            item@ == Self::read_as(document(*value)),
    ;
}

/// What the elements of an array say; nothing where `json` is no array.
pub open spec fn list_in<T: Readable>(json: Json) -> Seq<T::V> {
    match json.items() {
        Some(items) => items.map_values(|item: Json| T::read_as(item)),
        None => Seq::empty(),
    }
}

/// The strings among the elements of an array.
pub open spec fn strings_among(items: Seq<Json>) -> Seq<Seq<char>>
    decreases items.len(),
{
    if items.len() == 0 {
        Seq::empty()
    } else {
        let front = strings_among(items.drop_last());
        match items.last().text() {
            Some(text) => front.push(text),
            None => front,
        }
    }
}

/// The strings in an array; nothing where `json` is no array.
pub open spec fn strings_in(json: Json) -> Seq<Seq<char>> {
    match json.items() {
        Some(items) => strings_among(items),
        None => Seq::empty(),
    }
}

/// The string under `key`.
fn text_at(value: &serde_json::Value, key: &str) -> (text: Option<String>)
    ensures
        optional(text) == document(*value).field(key@).text(),
{
    match json::field(value, key).as_str() {
        Some(text) => Some(text.to_owned()),
        None => None,
    }
}

/// The whole number under `key`.
fn count_at(value: &serde_json::Value, key: &str) -> (count: Option<u64>)
    ensures
        count == document(*value).field(key@).count(),
{
    json::field(value, key).as_u64()
}

/// A copy of what stands under `key`.
fn value_at(value: &serde_json::Value, key: &str) -> (member: serde_json::Value)
    ensures
        document(member) == document(*value).field(key@),
{
    json::field(value, key).clone()
}

/// The elements of the array under `key`.
fn list_at<T: Readable>(value: &serde_json::Value, key: &str) -> (list: Vec<T>)
    ensures
        contents(list@) == list_in::<T>(document(*value).field(key@)),
{
    let mut list: Vec<T> = Vec::new();
    if let Some(items) = json::field(value, key).as_array() {
        let mut i: usize = 0;
        while i < items.len()
            invariant
                i <= items@.len(),
                list@.len() == i,
                forall|j: int|
                    0 <= j < i ==> (#[trigger] list@[j])@ == T::read_as(document(items@[j])),
            decreases items@.len() - i,
        {
            list.push(T::read(&items[i]));
            i = i + 1;
        }
        assert(contents(list@) == documents(items@).map_values(|item: Json| T::read_as(item)));
    }
    assert(contents(list@) == list_in::<T>(document(*value).field(key@)));
    list
}

/// The strings in the array under `key`.
fn strings_at(value: &serde_json::Value, key: &str) -> (list: Vec<String>)
    ensures
        texts(list@) == strings_in(document(*value).field(key@)),
{
    let mut list: Vec<String> = Vec::new();
    if let Some(items) = json::field(value, key).as_array() {
        let ghost all = documents(items@);
        let mut i: usize = 0;
        while i < items.len()
            invariant
                i <= items@.len(),
                all == documents(items@),
                texts(list@) == strings_among(all.take(i as int)),
            decreases items@.len() - i,
        {
            let ghost before = texts(list@);
            proof {
                assert(all.take(i + 1).drop_last() == all.take(i as int));
                assert(all.take(i + 1).last() == document(items@[i as int]));
            }
            if let Some(text) = items[i].as_str() {
                list.push(text.to_owned());
                assert(texts(list@) == before.push(text@));
            }
            i = i + 1;
        }
        assert(all.take(i as int) == all);
    }
    list
}

impl Readable for Entity {
    open spec fn read_as(json: Json) -> EntityView {
        EntityView { value: json.field("value"@).text(), entity: json.field("entity"@).text() }
    }

    fn read(value: &serde_json::Value) -> (item: Entity) {
        Entity { value: text_at(value, "value"), entity: text_at(value, "entity") }
    }
}

impl Readable for TimeWindow {
    open spec fn read_as(json: Json) -> TimeWindowView {
        TimeWindowView {
            start: json.field("start"@).text(),
            end_exclusive: json.field("end_exclusive"@).text(),
        }
    }

    fn read(value: &serde_json::Value) -> (item: TimeWindow) {
        TimeWindow {
            start: text_at(value, "start"),
            end_exclusive: text_at(value, "end_exclusive"),
        }
    }
}

impl Readable for Binding {
    open spec fn read_as(json: Json) -> BindingView {
        BindingView { member: json.field("member"@).text(), value: json.field("value"@).text() }
    }

    fn read(value: &serde_json::Value) -> (item: Binding) {
        Binding { member: text_at(value, "member"), value: text_at(value, "value") }
    }
}

impl Readable for Theme {
    open spec fn read_as(json: Json) -> ThemeView {
        ThemeView { value: json.field("value"@).text() }
    }

    fn read(value: &serde_json::Value) -> (item: Theme) {
        Theme { value: text_at(value, "value") }
    }
}

impl Readable for Plan {
    open spec fn read_as(json: Json) -> PlanView {
        PlanView {
            entities: list_in::<Entity>(json.field("entities"@)),
            time_windows: list_in::<TimeWindow>(json.field("time_windows"@)),
            bindings: list_in::<Binding>(json.field("bindings"@)),
            themes: list_in::<Theme>(json.field("themes"@)),
        }
    }

    fn read(value: &serde_json::Value) -> (item: Plan) {
        Plan {
            entities: list_at(value, "entities"),
            time_windows: list_at(value, "time_windows"),
            bindings: list_at(value, "bindings"),
            themes: list_at(value, "themes"),
        }
    }
}

impl Readable for StageEnd {
    open spec fn read_as(json: Json) -> StageEndView {
        StageEndView {
            stage: json.field("stage"@).text(),
            search_attempts: json.field("search_attempts"@).count(),
            candidates_in: json.field("candidates_in"@).count(),
            results_out: json.field("results_out"@).count(),
            selection_route: json.field("selection_route"@).text(),
            warehouse_jobs: json.field("warehouse_jobs"@).count(),
        }
    }

    fn read(value: &serde_json::Value) -> (item: StageEnd) {
        StageEnd {
            stage: text_at(value, "stage"),
            search_attempts: count_at(value, "search_attempts"),
            candidates_in: count_at(value, "candidates_in"),
            results_out: count_at(value, "results_out"),
            selection_route: text_at(value, "selection_route"),
            warehouse_jobs: count_at(value, "warehouse_jobs"),
        }
    }
}

impl Readable for ChoiceOption {
    open spec fn read_as(json: Json) -> ChoiceOptionView {
        ChoiceOptionView {
            label: json.field("label"@).text(),
            description: json.field("description"@).text(),
        }
    }

    fn read(value: &serde_json::Value) -> (item: ChoiceOption) {
        ChoiceOption {
            label: text_at(value, "label"),
            description: text_at(value, "description"),
        }
    }
}

impl Readable for Choice {
    open spec fn read_as(json: Json) -> ChoiceView {
        ChoiceView {
            options: list_in::<ChoiceOption>(json.field("options"@)),
            prompt: json.field("prompt"@).text(),
            choice_id: json.field("choice_id"@).text(),
            echo: json.field("choice_id"@),
        }
    }

    fn read(value: &serde_json::Value) -> (item: Choice) {
        Choice {
            options: list_at(value, "options"),
            prompt: text_at(value, "prompt"),
            choice_id: text_at(value, "choice_id"),
            echo: value_at(value, "choice_id"),
        }
    }
}

impl Readable for ResultRow {
    open spec fn read_as(json: Json) -> ResultRowView {
        ResultRowView {
            rank: json.field("rank"@).count(),
            title: json.field("title"@).text(),
            started: json.field("started"@).text(),
            url: json.field("url"@).text(),
            brief_excerpt: json.field("brief_excerpt"@).text(),
            matched: strings_in(json.field("matched"@)),
        }
    }

    fn read(value: &serde_json::Value) -> (item: ResultRow) {
        ResultRow {
            rank: count_at(value, "rank"),
            title: text_at(value, "title"),
            started: text_at(value, "started"),
            url: text_at(value, "url"),
            brief_excerpt: text_at(value, "brief_excerpt"),
            matched: strings_at(value, "matched"),
        }
    }
}

impl Readable for Results {
    open spec fn read_as(json: Json) -> ResultsView {
        ResultsView {
            rows: list_in::<ResultRow>(json.field("results"@)),
            total_candidates: json.field("total_candidates"@).count(),
            warehouse_jobs: json.field("warehouse_jobs"@).count(),
        }
    }

    fn read(value: &serde_json::Value) -> (item: Results) {
        let rows: Vec<ResultRow> = list_at(value, "results");
        Results {
            rows,
            total_candidates: count_at(value, "total_candidates"),
            warehouse_jobs: count_at(value, "warehouse_jobs"),
        }
    }
}

impl Readable for SidecarEvent {
    open spec fn read_as(json: Json) -> SidecarEventView {
        let kind = json.field("event"@).text();
        if kind == Some("stage_begin"@) {
            SidecarEventView::StageBegin { stage: json.field("stage"@).text() }
        } else if kind == Some("stage_end"@) {
            SidecarEventView::StageEnd(StageEnd::read_as(json))
        } else if kind == Some("plan"@) {
            SidecarEventView::Plan(Plan::read_as(json))
        } else if kind == Some("pool"@) {
            SidecarEventView::Pool { candidate_count: json.field("candidate_count"@).count() }
        } else if kind == Some("choice"@) {
            SidecarEventView::Choice(Choice::read_as(json))
        } else if kind == Some("results"@) {
            SidecarEventView::Results(Results::read_as(json))
        } else if kind == Some("abstain"@) {
            SidecarEventView::Abstain { message: json.field("message"@).text() }
        } else if kind == Some("error"@) {
            SidecarEventView::Error { message: json.field("message"@).text() }
        } else {
            SidecarEventView::Other
        }
    }

    fn read(value: &serde_json::Value) -> (item: SidecarEvent) {
        let kind = text_at(value, "event");
        if is_text(&kind, "stage_begin") {
            SidecarEvent::StageBegin { stage: text_at(value, "stage") }
        } else if is_text(&kind, "stage_end") {
            SidecarEvent::StageEnd(StageEnd::read(value))
        } else if is_text(&kind, "plan") {
            SidecarEvent::Plan(Plan::read(value))
        } else if is_text(&kind, "pool") {
            SidecarEvent::Pool { candidate_count: count_at(value, "candidate_count") }
        } else if is_text(&kind, "choice") {
            SidecarEvent::Choice(Choice::read(value))
        } else if is_text(&kind, "results") {
            SidecarEvent::Results(Results::read(value))
        } else if is_text(&kind, "abstain") {
            SidecarEvent::Abstain { message: text_at(value, "message") }
        } else if is_text(&kind, "error") {
            SidecarEvent::Error { message: text_at(value, "message") }
        } else {
            SidecarEvent::Other
        }
    }
}

impl Readable for Measured {
    open spec fn read_as(json: Json) -> MeasuredView {
        MeasuredView {
            latency_ms: json.field(
                if json.field("event"@).text() == Some("results"@) {
                    "latency_ms"@
                } else {
                    "warehouse_latency_ms"@
                },
            ),
            bytes: json.field("bytes_processed"@),
            wall_ms: json.field("wall_latency_ms"@),
        }
    }

    fn read(value: &serde_json::Value) -> (item: Measured) {
        let latency = if is_text(&text_at(value, "event"), "results") {
            "latency_ms"
        } else {
            "warehouse_latency_ms"
        };
        Measured {
            latency_ms: value_at(value, latency),
            bytes: value_at(value, "bytes_processed"),
            wall_ms: value_at(value, "wall_latency_ms"),
        }
    }
}

/// What a document reports of the turn `turn_id`; `None` where it is about
/// something else.
pub open spec fn reported(json: Json, turn_id: Seq<char>) -> Option<ReceivedView> {
    if json.field("id"@) == Json::Text(turn_id) {
        Some(
            ReceivedView {
                event: SidecarEvent::read_as(json),
                measured: Measured::read_as(json),
            },
        )
    } else {
        None
    }
}

/// What a line reports of the turn `turn_id`; `None` where it is no JSON or is
/// about something else.
pub open spec fn reported_line(line: Seq<char>, turn_id: Seq<char>) -> Option<ReceivedView> {
    match parsed(line) {
        Some(json) => reported(json, turn_id),
        None => None,
    }
}

/// The contents of an event that may be missing.
pub open spec fn optional_received(received: Option<Received>) -> Option<ReceivedView> {
    match received {
        Some(received) => Some(received@),
        None => None,
    }
}

/// Reads what a value reports of the turn `turn_id`.
pub fn interpret(value: &serde_json::Value, turn_id: &str) -> (received: Option<Received>)
    ensures
        optional_received(received) == reported(document(*value), turn_id@),
{
    if is_text(&text_at(value, "id"), turn_id) {
        Some(Received { event: SidecarEvent::read(value), measured: Measured::read(value) })
    } else {
        None
    }
}

/// Reads what a line reports of the turn `turn_id`.
pub fn read_line(line: &str, turn_id: &str) -> (received: Option<Received>)
    ensures
        optional_received(received) == reported_line(line@, turn_id@),
{
    match json::parse(line) {
        Ok(value) => interpret(&value, turn_id),
        Err(_) => None,
    }
}

/// Whether a document reports that the sidecar is ready.
pub open spec fn says_ready(json: Json) -> bool {
    json.field("event"@) == Json::Text("ready"@)
}

/// Whether a value reports that the sidecar is ready.
pub fn is_ready(value: &serde_json::Value) -> (answer: bool)
    ensures
        answer == says_ready(document(*value)),
{
    is_text(&text_at(value, "event"), "ready")
}

/// A document reports of one turn at most.
pub proof fn law_one_turn_each(json: Json, one: Seq<char>, other: Seq<char>)
    requires
        reported(json, one) is Some,
        one != other,
    ensures
        reported(json, other) is None,
{
}

/// A line is taken as an event of a turn exactly where it is a document with the
/// identifier of the turn.
pub proof fn law_read_by_identifier(line: &str, turn_id: &str, received: Option<Received>)
    requires
        call_ensures(read_line, (line, turn_id), received),
    ensures
        received is Some <==> parsed(line@) is Some && parsed(line@)->0.field("id"@) == Json::Text(
            turn_id@,
        ),
{
}

/// The bounds of a time window are read from the members named after them.
pub proof fn law_window_is_read(value: &serde_json::Value, window: TimeWindow)
    requires
        call_ensures(TimeWindow::read, (value,), window),
    ensures
        match document(*value).field("start"@) {
            Json::Text(start) => window.start is Some && window.start->0@ == start,
            _ => window.start is None,
        },
        match document(*value).field("end_exclusive"@) {
            Json::Text(end) => window.end_exclusive is Some && window.end_exclusive->0@ == end,
            _ => window.end_exclusive is None,
        },
{
    assert(window@ == TimeWindow::read_as(document(*value)));
}

} // verus!
