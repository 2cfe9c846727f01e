//! What the user sees of what the sidecar reports: from the members of a JSON
//! document to the characters of the transcript.

use vstd::prelude::*;
use crate::events::{list_in, reported, reported_line, strings_among, Readable};
use crate::history::{on_line, LineHeard};
use crate::items::{
    ActionView, AgentMessageContentView, AgentMessageItemView, CallToolResultView,
    McpToolCallItemView, McpToolCallStatus, TurnItemView,
};
use crate::json::{parsed, Json};
use crate::plan::{
    list_line, plan_lines, Binding, Entity, Plan, Shown, Theme, TimeWindow,
};
use crate::results::{
    brief, evidence, has_headings, heading, is_numbered, law_one_heading_each, matched_on,
    names_call, results_lines, row_lines, rows_lines, signal_label, summary_parts, without_repeats,
    ResultRow, Results,
};
use crate::stages::{
    detail_parts, jobs_run, label_of, ranked, ranking_route, searches, FiguresView, StageEnd,
};
use crate::text::{decimal, joined, law_joined_alone, law_joined_together, listed};
use crate::turn::{next, OutcomeView, PhaseView, SignalView, StepView, TurnView};

verus! {

/// What a turn does on a document of the sidecar, where `figures` are shown for
/// what was measured and `id` is a new identifier.
pub open spec fn heard(turn: TurnView, json: Json, figures: FiguresView, id: Seq<char>) -> (
    TurnView,
    StepView,
) {
    match reported(json, turn.id) {
        Some(received) => next(turn, SignalView::Event(received.event, figures), id),
        None => (turn, StepView { actions: Seq::empty(), outcome: None }),
    }
}

/// Whether a document is addressed to a running turn, and reports `kind` of it.
pub open spec fn tells(turn: TurnView, json: Json, kind: Seq<char>) -> bool {
    &&& turn.phase is Running
    &&& json.field("id"@) == Json::Text(turn.id)
    &&& json.field("event"@) == Json::Text(kind)
}

/// Whether a step shows one agent message, which says `text`, and nothing else.
pub open spec fn says(step: StepView, id: Seq<char>, text: Seq<char>) -> bool {
    let item = TurnItemView::AgentMessage(
        AgentMessageItemView {
            id,
            content: seq![AgentMessageContentView::Text { text }],
            phase: None,
            memory_citation: None,
            delivery: None,
        },
    );
    step.actions == seq![ActionView::ItemStarted(item), ActionView::ItemCompleted(item)]
}

/// The elements of the array under `key`; none where there is no array.
pub open spec fn items_at(json: Json, key: Seq<char>) -> Seq<Json> {
    match json.field(key) {
        Json::Array(items) => items,
        _ => Seq::empty(),
    }
}

/// Two texts with ` · ` between them, or the one that there is.
pub open spec fn beside(left: Option<Seq<char>>, right: Option<Seq<char>>) -> Option<Seq<char>> {
    match (left, right) {
        (Some(left), Some(right)) => Some(left + " · "@ + right),
        (Some(left), None) => Some(left),
        (None, right) => right,
    }
}

/// The label of the last string among `items`.
pub open spec fn last_signal(items: Seq<Json>) -> Option<Seq<char>>
    decreases items.len(),
{
    if items.len() == 0 {
        None
    } else {
        match items.last() {
            Json::Text(signal) => Some(signal_label(signal)),
            _ => last_signal(items.drop_last()),
        }
    }
}

/// The labels of the strings among `items`, one behind the other, where a label
/// that repeats the one before it is left out.
pub open spec fn signals(items: Seq<Json>) -> Option<Seq<char>>
    decreases items.len(),
{
    if items.len() == 0 {
        None
    } else {
        let front = signals(items.drop_last());
        match items.last() {
            Json::Text(signal) => if last_signal(items.drop_last()) == Some(signal_label(signal)) {
                front
            } else {
                beside(front, Some(signal_label(signal)))
            },
            _ => front,
        }
    }
}

/// The first characters of a text, ten at most.
pub open spec fn first_ten(text: Seq<char>) -> Seq<char> {
    if text.len() <= 10 {
        text
    } else {
        text.subrange(0, 10)
    }
}

/// What is shown of one call of the results, up to the empty line behind it.
pub open spec fn call_text(call: Json) -> Seq<char> {
    let rank = decimal(call.field("rank"@).count().unwrap_or(0) as nat);
    let title = call.field("title"@).text().unwrap_or("(untitled call)"@);
    let date = match call.field("started"@) {
        Json::Text(started) => first_ten(started),
        _ => Seq::empty(),
    };
    let named = match call.field("url"@) {
        Json::Text(url) => rank + ". **["@ + title + "]("@ + url + ")** — "@ + date,
        _ => rank + ". **"@ + title + "** — "@ + date,
    };
    let told = match call.field("brief_excerpt"@) {
        Json::Text(excerpt) => if excerpt.len() > 0 {
            "\n"@ + ("   *Brief:* "@ + excerpt)
        } else {
            Seq::empty()
        },
        _ => Seq::empty(),
    };
    let matched = signals(items_at(call, "matched"@)).unwrap_or(Seq::empty());
    let shown = if matched.len() > 0 {
        "\n"@ + ("   *Matched on:* "@ + matched)
    } else {
        Seq::empty()
    };
    named + told + shown + "\n"@
}

/// What is shown of the calls of the results, each from a new line on.
pub open spec fn calls_text(calls: Seq<Json>) -> Seq<char>
    decreases calls.len(),
{
    if calls.len() == 0 {
        Seq::empty()
    } else {
        calls_text(calls.drop_last()) + "\n"@ + call_text(calls.last())
    }
}

/// What is said of the results as a whole.
pub open spec fn results_summary(json: Json, figures: FiguresView) -> Option<Seq<char>> {
    let candidates = match json.field("total_candidates"@).count() {
        Some(total) => Some(
            decimal(items_at(json, "results"@).len()) + " of "@ + decimal(total as nat)
                + " candidates"@,
        ),
        None => None,
    };
    let jobs = match json.field("warehouse_jobs"@).count() {
        Some(jobs) => Some(decimal(jobs as nat) + " warehouse jobs"@),
        None => None,
    };
    let scanned = match figures.bytes {
        Some(bytes) => Some(bytes + " scanned"@),
        None => None,
    };
    beside(beside(beside(candidates, figures.latency), jobs), scanned)
}

/// `parts` with ` · ` between each two of them; `None` where there are none.
spec fn together(parts: Seq<Seq<char>>) -> Option<Seq<char>> {
    if parts.len() == 0 {
        None
    } else {
        Some(joined(parts, " · "@))
    }
}

proof fn lemma_together(parts: Seq<Seq<char>>, part: Option<Seq<char>>)
    ensures
        together(parts + listed(part)) == beside(together(parts), part),
        joined(parts, " · "@) == together(parts).unwrap_or(Seq::empty()),
{
    match part {
        Some(part) => {
            law_joined_alone(part, " · "@);
            if parts.len() > 0 {
                law_joined_together(parts, seq![part], " · "@);
            } else {
                assert(parts + seq![part] == seq![part]);
            }
        },
        None => {
            assert(parts + Seq::<Seq<char>>::empty() == parts);
        },
    }
}

proof fn lemma_added_line(lines: Seq<Seq<char>>, line: Option<Seq<char>>)
    requires
        lines.len() > 0,
    ensures
        joined(lines + listed(line), "\n"@) == joined(lines, "\n"@) + match line {
            Some(line) => "\n"@ + line,
            None => Seq::empty(),
        },
{
    match line {
        Some(line) => {
            law_joined_alone(line, "\n"@);
            law_joined_together(lines, seq![line], "\n"@);
        },
        None => {
            assert(lines + Seq::<Seq<char>>::empty() == lines);
        },
    }
}

proof fn lemma_signals(items: Seq<Json>)
    ensures
        ({
            let labels = strings_among(items).map_values(|member: Seq<char>| signal_label(member));
            &&& together(without_repeats(labels)) == signals(items)
            &&& last_signal(items) == if labels.len() > 0 {
                Some(labels.last())
            } else {
                None
            }
        }),
    decreases items.len(),
{
    let label = |member: Seq<char>| signal_label(member);
    let labels = strings_among(items).map_values(label);
    if items.len() == 0 {
        assert(labels.len() == 0);
    } else {
        let front = items.drop_last();
        let before = strings_among(front).map_values(label);
        lemma_signals(front);
        match items.last() {
            Json::Text(signal) => {
                assert(labels == before.push(signal_label(signal)));
                assert(labels.drop_last() == before);
                lemma_together(without_repeats(before), Some(signal_label(signal)));
                assert(without_repeats(before) + seq![signal_label(signal)] == without_repeats(
                    before,
                ).push(signal_label(signal)));
            },
            _ => {
                assert(labels == before);
            },
        }
    }
}

proof fn lemma_call_text(call: Json)
    ensures
        joined(row_lines(ResultRow::read_as(call)), "\n"@) == call_text(call),
{
    let row = ResultRow::read_as(call);
    let first = seq![heading(row)];
    let second = first + listed(brief(row));
    let third = second + listed(evidence(row));
    reveal_strlit("");
    law_joined_alone(heading(row), "\n"@);
    lemma_added_line(first, brief(row));
    lemma_added_line(second, evidence(row));
    lemma_added_line(third, Some(""@));
    lemma_signals(items_at(call, "matched"@));
    assert(row.matched == strings_among(items_at(call, "matched"@)));
    lemma_together(
        without_repeats(row.matched.map_values(|member: Seq<char>| signal_label(member))),
        None,
    );
    assert(matched_on(row.matched) == signals(items_at(call, "matched"@)).unwrap_or(Seq::empty()));
    assert(""@ == Seq::<char>::empty());
    match row.started {
        Some(started) => {
            assert(started.take(started.len() as int) == started);
        },
        None => {},
    }
    assert(row_lines(row) == third + listed(Some(""@)));
    let last = "\n"@;
    assert(last + ""@ == last);
}

proof fn lemma_calls_text(head: Seq<Seq<char>>, calls: Seq<Json>)
    requires
        head.len() > 0,
    ensures
        joined(
            head + rows_lines(calls.map_values(|item: Json| ResultRow::read_as(item))),
            "\n"@,
        ) == joined(head, "\n"@) + calls_text(calls),
    decreases calls.len(),
{
    let rows = calls.map_values(|item: Json| ResultRow::read_as(item));
    if calls.len() == 0 {
        assert(head + rows_lines(rows) == head);
    } else {
        let front = calls.drop_last();
        let fewer = front.map_values(|item: Json| ResultRow::read_as(item));
        assert(rows.drop_last() == fewer);
        lemma_calls_text(head, front);
        lemma_call_text(calls.last());
        law_joined_together(head + rows_lines(fewer), row_lines(rows.last()), "\n"@);
        assert(head + rows_lines(rows) == (head + rows_lines(fewer)) + row_lines(rows.last()));
    }
}

proof fn lemma_summary(json: Json, figures: FiguresView)
    ensures
        joined(summary_parts(Results::read_as(json), figures), " · "@) == results_summary(
            json,
            figures,
        ).unwrap_or(Seq::empty()),
{
    let results = Results::read_as(json);
    let calls = items_at(json, "results"@);
    assert(results.rows.len() == calls.len());
    let candidates = match results.total_candidates {
        Some(total) => Some(
            decimal(results.rows.len()) + " of "@ + decimal(total as nat) + " candidates"@,
        ),
        None => None,
    };
    let jobs = match results.warehouse_jobs {
        Some(jobs) => Some(decimal(jobs as nat) + " warehouse jobs"@),
        None => None,
    };
    let scanned = match figures.bytes {
        Some(bytes) => Some(bytes + " scanned"@),
        None => None,
    };
    let none = Seq::<Seq<char>>::empty();
    lemma_together(none, candidates);
    assert(none + listed(candidates) == listed(candidates));
    lemma_together(listed(candidates), figures.latency);
    lemma_together(listed(candidates) + listed(figures.latency), jobs);
    lemma_together(listed(candidates) + listed(figures.latency) + listed(jobs), scanned);
    lemma_together(summary_parts(results, figures), None);
}

/// Where the sidecar reports results, the turn is over, and it says what they
/// took and then each call in order: its rank, its title, with a link where
/// there is an address, its date, its brief and what it was matched on. Where
/// there are no calls it says so.
pub proof fn law_results_are_told(
    turn: TurnView,
    json: Json,
    figures: FiguresView,
    id: Seq<char>,
)
    requires
        tells(turn, json, "results"@),
    ensures
        ({
            let calls = items_at(json, "results"@);
            let (after, step) = heard(turn, json, figures, id);
            let title = "**Results**  ("@ + results_summary(json, figures).unwrap_or(Seq::empty())
                + ")"@;
            &&& says(
                step,
                id,
                title + if calls.len() == 0 {
                    "\n"@ + "_No calls returned._"@
                } else {
                    calls_text(calls)
                },
            )
            &&& after == TurnView { phase: PhaseView::Done, ..turn }
            &&& step.outcome == Some(
                if turn.cancelled {
                    OutcomeView::Aborted
                } else {
                    OutcomeView::Quiet
                },
            )
        }),
{
    let calls = items_at(json, "results"@);
    let results = Results::read_as(json);
    lemma_kinds_differ();
    lemma_summary(json, figures);
    let title = "**Results**  ("@ + joined(summary_parts(results, figures), " · "@) + ")"@;
    law_joined_alone(title, "\n"@);
    assert(results.rows == calls.map_values(|item: Json| ResultRow::read_as(item)));
    if calls.len() == 0 {
        lemma_added_line(seq![title], Some("_No calls returned._"@));
        assert(results_lines(results, figures) == seq![title] + listed(
            Some("_No calls returned._"@),
        ));
    } else {
        lemma_calls_text(seq![title], calls);
        assert(results_lines(results, figures) == seq![title] + rows_lines(results.rows));
    }
}

/// The title under which a call of the results is shown.
pub open spec fn title_of(call: Json) -> Seq<char> {
    match call.field("title"@) {
        Json::Text(title) => title,
        _ => "(untitled call)"@,
    }
}

/// The titles under which the calls of the results are shown.
pub open spec fn titles_of(calls: Seq<Json>) -> Seq<Seq<char>> {
    calls.map_values(|call: Json| title_of(call))
}

/// Whether `parts` stand in `text` one behind the other, at the places `at`.
pub open spec fn stand_in(text: Seq<char>, parts: Seq<Seq<char>>, at: Seq<int>) -> bool {
    &&& at.len() == parts.len()
    &&& forall|i: int|
        0 <= i < at.len() ==> {
            &&& 0 <= #[trigger] at[i]
            &&& at[i] + parts[i].len() <= text.len()
            &&& text.subrange(at[i], at[i] + parts[i].len()) == parts[i]
        }
    &&& forall|i: int, j: int|
        0 <= i < j < at.len() ==> #[trigger] at[i] + parts[i].len() <= #[trigger] at[j]
}

/// Whatever the message on some results says, it holds the titles of all their
/// calls, in the order of the calls.
pub proof fn law_every_title_is_told(
    turn: TurnView,
    json: Json,
    figures: FiguresView,
    id: Seq<char>,
    text: Seq<char>,
)
    requires
        tells(turn, json, "results"@),
        says(heard(turn, json, figures, id).1, id, text),
    ensures
        exists|at: Seq<int>|
            #[trigger] stand_in(text, titles_of(items_at(json, "results"@)), at),
{
    let calls = items_at(json, "results"@);
    let titles = titles_of(calls);
    law_results_are_told(turn, json, figures, id);
    let title = "**Results**  ("@ + results_summary(json, figures).unwrap_or(Seq::empty()) + ")"@;
    if calls.len() == 0 {
        assert(stand_in(text, titles, Seq::<int>::empty()));
    } else {
        lemma_says_one(heard(turn, json, figures, id).1, id, text, title + calls_text(calls));
        lemma_titles(title, calls);
    }
}

proof fn lemma_says_one(step: StepView, id: Seq<char>, one: Seq<char>, other: Seq<char>)
    requires
        says(step, id, one),
        says(step, id, other),
    ensures
        one == other,
{
    match step.actions[0] {
        ActionView::ItemStarted(TurnItemView::AgentMessage(item)) => {
            assert(item.content[0] == AgentMessageContentView::Text { text: one });
            assert(item.content[0] == AgentMessageContentView::Text { text: other });
        },
        _ => {},
    }
}

proof fn lemma_title_in_call(call: Json) -> (k: int)
    ensures
        0 <= k,
        k + title_of(call).len() <= call_text(call).len(),
        call_text(call).subrange(k, k + title_of(call).len()) == title_of(call),
{
    let rank = decimal(call.field("rank"@).count().unwrap_or(0) as nat);
    let title = title_of(call);
    let front = match call.field("url"@) {
        Json::Text(_) => rank + ". **["@,
        _ => rank + ". **"@,
    };
    let k = front.len() as int;
    assert(call_text(call).subrange(k, k + title.len()) == title);
    k
}

proof fn lemma_titles(front: Seq<char>, calls: Seq<Json>)
    ensures
        exists|at: Seq<int>|
            #[trigger] stand_in(front + calls_text(calls), titles_of(calls), at),
    decreases calls.len(),
{
    let titles = titles_of(calls);
    let text = front + calls_text(calls);
    if calls.len() == 0 {
        assert(stand_in(text, titles, Seq::<int>::empty()));
    } else {
        let fewer = calls.drop_last();
        let some = titles_of(fewer);
        let before = front + calls_text(fewer);
        lemma_titles(front, fewer);
        let low = choose|at: Seq<int>| stand_in(before, some, at);
        let k = lemma_title_in_call(calls.last());
        let start = before.len() + "\n"@.len();
        let at = low.push(start + k);
        assert(text == before + "\n"@ + call_text(calls.last()));
        assert(titles == some.push(title_of(calls.last())));
        assert forall|i: int| 0 <= i < at.len() implies {
            &&& 0 <= #[trigger] at[i]
            &&& at[i] + titles[i].len() <= text.len()
            &&& text.subrange(at[i], at[i] + titles[i].len()) == titles[i]
        } by {
            if i < low.len() {
                assert(at[i] == low[i]);
                assert(titles[i] == some[i]);
                assert(text.subrange(at[i], at[i] + titles[i].len()) == before.subrange(
                    low[i],
                    low[i] + some[i].len(),
                ));
            } else {
                let last = call_text(calls.last());
                let title = title_of(calls.last());
                assert(text.subrange(at[i], at[i] + title.len()) == last.subrange(
                    k,
                    k + title.len(),
                ));
            }
        }
        assert forall|i: int, j: int| 0 <= i < j < at.len() implies #[trigger] at[i]
            + titles[i].len() <= #[trigger] at[j] by {
            assert(at[i] == low[i]);
            assert(titles[i] == some[i]);
            if j < low.len() {
                assert(at[j] == low[j]);
            }
        }
        assert(stand_in(text, titles, at));
    }
}

/// Whether the numbered lines among `lines` are those at the places `at`, in
/// this order: one for each of `calls`, which begins with its rank and holds
/// its title.
pub open spec fn numbers_calls(lines: Seq<Seq<char>>, calls: Seq<Json>, at: Seq<int>) -> bool {
    &&& at.len() == calls.len()
    &&& forall|i: int| 0 <= i < at.len() ==> 0 <= #[trigger] at[i] < lines.len()
    &&& forall|i: int, j: int| 0 <= i < j < at.len() ==> #[trigger] at[i] < #[trigger] at[j]
    &&& forall|i: int|
        0 <= i < at.len() ==> names_call(
            lines[#[trigger] at[i]],
            calls[i].field("rank"@).count().unwrap_or(0) as nat,
            title_of(calls[i]),
        )
    &&& forall|k: int|
        0 <= k < lines.len() ==> (is_numbered(#[trigger] lines[k]) <==> at.contains(k))
}

/// The message on some results is made of lines of which one is numbered for
/// each call, and no other; `_No calls returned._` is among them exactly where
/// there are no calls.
pub proof fn law_calls_are_numbered(
    turn: TurnView,
    json: Json,
    figures: FiguresView,
    id: Seq<char>,
)
    requires
        tells(turn, json, "results"@),
    ensures
        ({
            let calls = items_at(json, "results"@);
            exists|lines: Seq<Seq<char>>, at: Seq<int>|
                {
                    &&& says(heard(turn, json, figures, id).1, id, joined(lines, "\n"@))
                    &&& #[trigger] numbers_calls(lines, calls, at)
                    &&& lines.contains("_No calls returned._"@) <==> calls.len() == 0
                }
        }),
{
    let calls = items_at(json, "results"@);
    let results = Results::read_as(json);
    let lines = results_lines(results, figures);
    lemma_kinds_differ();
    law_one_heading_each(results, figures);
    assert(results.rows == calls.map_values(|item: Json| ResultRow::read_as(item)));
    let at = choose|at: Seq<int>| has_headings(lines, results.rows, at);
    assert forall|i: int| 0 <= i < at.len() implies names_call(
        lines[#[trigger] at[i]],
        calls[i].field("rank"@).count().unwrap_or(0) as nat,
        title_of(calls[i]),
    ) by {
        assert(results.rows[i] == ResultRow::read_as(calls[i]));
    }
    assert(numbers_calls(lines, calls, at));
}

/// `items` as `show` puts them, with ` · ` between each two of them.
pub open spec fn listing(items: Seq<Json>, show: spec_fn(Json) -> Seq<char>) -> Seq<char>
    decreases items.len(),
{
    if items.len() == 0 {
        Seq::empty()
    } else if items.len() == 1 {
        show(items[0])
    } else {
        listing(items.drop_last(), show) + " · "@ + show(items.last())
    }
}

/// A line that lists `items` behind `label`, from the line feed before it on;
/// nothing where there are no items.
pub open spec fn list_told(
    label: Seq<char>,
    items: Seq<Json>,
    show: spec_fn(Json) -> Seq<char>,
) -> Seq<char> {
    if items.len() == 0 {
        Seq::empty()
    } else {
        "\n"@ + (label + listing(items, show))
    }
}

/// The text under `key`, or `missing` where there is none.
pub open spec fn text_under(json: Json, key: Seq<char>, missing: Seq<char>) -> Seq<char> {
    match json.field(key) {
        Json::Text(text) => text,
        _ => missing,
    }
}

proof fn lemma_listing<T: Readable + Shown>(
    items: Seq<Json>,
    show: spec_fn(Json) -> Seq<char>,
)
    requires
        forall|item: Json| #[trigger] show(item) == T::shown(T::read_as(item)),
    ensures
        joined(
            items.map_values(|item: Json| T::read_as(item)).map_values(|item: T::V| T::shown(item)),
            " · "@,
        ) == listing(items, show),
    decreases items.len(),
{
    let shown = items.map_values(|item: Json| T::read_as(item)).map_values(
        |item: T::V| T::shown(item),
    );
    if items.len() == 1 {
        law_joined_alone(show(items[0]), " · "@);
        assert(shown == seq![show(items[0])]);
    } else if items.len() > 1 {
        let front = items.drop_last();
        let fewer = front.map_values(|item: Json| T::read_as(item)).map_values(
            |item: T::V| T::shown(item),
        );
        lemma_listing::<T>(front, show);
        assert(shown.drop_last() == fewer);
        assert(shown.last() == show(items.last()));
    }
}

proof fn lemma_list_told<T: Readable + Shown>(
    lines: Seq<Seq<char>>,
    label: Seq<char>,
    json: Json,
    key: Seq<char>,
    show: spec_fn(Json) -> Seq<char>,
)
    requires
        lines.len() > 0,
        forall|item: Json| #[trigger] show(item) == T::shown(T::read_as(item)),
    ensures
        joined(
            lines + listed(list_line::<T>(label, list_in::<T>(json.field(key)))),
            "\n"@,
        ) == joined(lines, "\n"@) + list_told(label, items_at(json, key), show),
{
    let items = items_at(json, key);
    lemma_listing::<T>(items, show);
    assert(list_in::<T>(json.field(key)) == items.map_values(|item: Json| T::read_as(item)));
    lemma_added_line(lines, list_line::<T>(label, list_in::<T>(json.field(key))));
}

/// How a plan shows something that the question names.
pub open spec fn entity_told() -> spec_fn(Json) -> Seq<char> {
    |item: Json|
        text_under(item, "value"@, "?"@) + " ("@ + text_under(item, "entity"@, "?"@) + ")"@
}

/// How a plan shows a span of time.
pub open spec fn window_told() -> spec_fn(Json) -> Seq<char> {
    |item: Json|
        text_under(item, "start"@, "…"@) + " → "@ + text_under(item, "end_exclusive"@, "…"@)
}

/// How a plan shows what a member is bound to.
pub open spec fn binding_told() -> spec_fn(Json) -> Seq<char> {
    |item: Json|
        text_under(item, "member"@, "?"@) + " = \""@ + text_under(item, "value"@, "?"@) + "\""@
}

/// How a plan shows a theme.
pub open spec fn theme_told() -> spec_fn(Json) -> Seq<char> {
    |item: Json| "\""@ + text_under(item, "value"@, "?"@) + "\""@
}

/// Where the sidecar reports a plan, the turn goes on, and it says what the plan
/// lists: each list that has elements on a line of its own, its elements in
/// order.
pub proof fn law_plan_is_told(turn: TurnView, json: Json, figures: FiguresView, id: Seq<char>)
    requires
        tells(turn, json, "plan"@),
    ensures
        ({
            let (after, step) = heard(turn, json, figures, id);
            &&& says(
                step,
                id,
                "**Planned retrieval**"@ + list_told(
                    "- entities: "@,
                    items_at(json, "entities"@),
                    entity_told(),
                ) + list_told("- time: "@, items_at(json, "time_windows"@), window_told())
                    + list_told("- bindings: "@, items_at(json, "bindings"@), binding_told())
                    + list_told("- themes: "@, items_at(json, "themes"@), theme_told()),
            )
            &&& after == turn
            &&& step.outcome is None
        }),
{
    let plan = Plan::read_as(json);
    lemma_kinds_differ();
    let first = seq!["**Planned retrieval**"@];
    law_joined_alone("**Planned retrieval**"@, "\n"@);
    let second = first + listed(list_line::<Entity>("- entities: "@, plan.entities));
    let third = second + listed(list_line::<TimeWindow>("- time: "@, plan.time_windows));
    let fourth = third + listed(list_line::<Binding>("- bindings: "@, plan.bindings));
    lemma_list_told::<Entity>(first, "- entities: "@, json, "entities"@, entity_told());
    lemma_list_told::<TimeWindow>(second, "- time: "@, json, "time_windows"@, window_told());
    lemma_list_told::<Binding>(third, "- bindings: "@, json, "bindings"@, binding_told());
    lemma_list_told::<Theme>(fourth, "- themes: "@, json, "themes"@, theme_told());
    assert(plan_lines(plan) == fourth + listed(list_line::<Theme>("- themes: "@, plan.themes)));
}

/// A plan with one time window says from when to when it is, in this order, on
/// the line for the time.
pub proof fn law_time_window_is_told(
    turn: TurnView,
    json: Json,
    figures: FiguresView,
    id: Seq<char>,
    window: Json,
    start: Seq<char>,
    end: Seq<char>,
)
    requires
        tells(turn, json, "plan"@),
        json.field("time_windows"@) == Json::Array(seq![window]),
        window.field("start"@) == Json::Text(start),
        window.field("end_exclusive"@) == Json::Text(end),
    ensures
        exists|before: Seq<char>, behind: Seq<char>|
            {
                &&& #[trigger] says(
                    heard(turn, json, figures, id).1,
                    id,
                    before + "\n"@ + ("- time: "@ + start + " → "@ + end) + behind,
                )
                &&& behind.len() == 0 || behind[0] == '\n'
            },
{
    law_plan_is_told(turn, json, figures, id);
    let windows = items_at(json, "time_windows"@);
    let before = "**Planned retrieval**"@ + list_told(
        "- entities: "@,
        items_at(json, "entities"@),
        entity_told(),
    );
    let behind = list_told("- bindings: "@, items_at(json, "bindings"@), binding_told())
        + list_told("- themes: "@, items_at(json, "themes"@), theme_told());
    reveal_strlit("\n");
    assert("\n"@[0] == '\n');
    assert(windows[0] == window);
    assert(listing(windows, window_told()) == start + " → "@ + end);
    let line = "- time: "@ + start + " → "@ + end;
    assert("- time: "@ + (start + " → "@ + end) == line);
    assert(before + list_told("- time: "@, windows, window_told()) + list_told(
        "- bindings: "@,
        items_at(json, "bindings"@),
        binding_told(),
    ) + list_told("- themes: "@, items_at(json, "themes"@), theme_told()) == before + "\n"@ + line
        + behind);
    assert(says(heard(turn, json, figures, id).1, id, before + "\n"@ + line + behind));
}

/// A tool call of the sidecar as it begins.
pub open spec fn begun_call(id: Seq<char>, tool: Seq<char>, arguments: Json) -> McpToolCallItemView {
    McpToolCallItemView {
        id,
        server: "gong"@,
        tool,
        arguments,
        connector_id: None,
        mcp_app_resource_uri: None,
        link_id: None,
        app_name: None,
        action_name: None,
        plugin_id: None,
        read_only_hint: Some(true),
        status: McpToolCallStatus::InProgress,
        result: None,
        error: None,
        duration_ms: None,
    }
}

/// Whether `done` is the tool call `item`, completed with the text `detail` and
/// nothing else.
pub open spec fn is_finished(
    item: McpToolCallItemView,
    done: McpToolCallItemView,
    detail: Seq<char>,
) -> bool {
    &&& done == McpToolCallItemView {
        status: McpToolCallStatus::Completed,
        result: done.result,
        duration_ms: done.duration_ms,
        ..item
    }
    &&& done.result == Some(
        CallToolResultView {
            content: seq![
                Json::Object(
                    map!["type"@ => Json::Text("text"@), "text"@ => Json::Text(detail)],
                ),
            ],
            structured_content: None,
            is_error: Some(false),
            meta: None,
        },
    )
}

/// Where the sidecar reports that a stage begins, the turn goes on with that
/// stage open, and it shows a tool call under the label of the stage, which has
/// the name of the stage as its one argument.
pub proof fn law_stage_begins(turn: TurnView, json: Json, figures: FiguresView, id: Seq<char>)
    requires
        tells(turn, json, "stage_begin"@),
    ensures
        ({
            let (after, step) = heard(turn, json, figures, id);
            let stage = text_under(json, "stage"@, Seq::empty());
            let item = begun_call(
                id,
                label_of(stage),
                Json::Object(map!["stage"@ => Json::Text(stage)]),
            );
            &&& step.actions == seq![ActionView::ItemStarted(TurnItemView::McpToolCall(item))]
            &&& step.outcome is None
            &&& after == TurnView { open_stage: Some(item), ..turn }
        }),
{
    lemma_kinds_differ();
    reveal_strlit("");
    assert(""@ == Seq::<char>::empty());
}

/// What is said of a stage that has ended: how many searches it made, how its
/// candidates were ranked, or what it took, by the kind of stage.
pub open spec fn stage_told(json: Json, figures: FiguresView) -> Seq<char> {
    let searched = match json.field("search_attempts"@).count() {
        Some(n) => decimal(n as nat) + if n == 1 {
            " search"@
        } else {
            " searches"@
        },
        None => Seq::empty(),
    };
    let passed = match (
        json.field("candidates_in"@).count(),
        json.field("results_out"@).count(),
    ) {
        (Some(from), Some(to)) => Some(
            decimal(from as nat) + " candidates → "@ + decimal(to as nat) + " results"@,
        ),
        _ => None,
    };
    let route = if json.field("selection_route"@) == Json::Text("full_llm_ranking"@) {
        Some("full LLM ranking"@)
    } else {
        None
    };
    let jobs = match json.field("warehouse_jobs"@).count() {
        Some(n) => if n == 0 {
            None
        } else if n == 1 {
            Some(decimal(1) + " warehouse job"@)
        } else {
            Some(decimal(n as nat) + " warehouse jobs"@)
        },
        None => None,
    };
    if json.field("stage"@) == Json::Text("mcp_search"@) {
        searched
    } else if json.field("stage"@) == Json::Text("ranking"@) {
        beside(passed, route).unwrap_or(Seq::empty())
    } else {
        beside(beside(jobs, figures.latency), figures.bytes).unwrap_or(Seq::empty())
    }
}

/// Where the sidecar reports that a stage has ended, the turn goes on with no
/// stage open, and it shows that the tool call which was open is complete, what
/// the stage did, and how long it took. Where none was open it shows nothing.
pub proof fn law_stage_ends(turn: TurnView, json: Json, figures: FiguresView, id: Seq<char>)
    requires
        tells(turn, json, "stage_end"@),
    ensures
        ({
            let (after, step) = heard(turn, json, figures, id);
            &&& match turn.open_stage {
                Some(item) => exists|done: McpToolCallItemView|
                    {
                        &&& step.actions == seq![
                            ActionView::ItemCompleted(TurnItemView::McpToolCall(done)),
                        ]
                        &&& #[trigger] is_finished(item, done, stage_told(json, figures))
                        &&& done.duration_ms == if figures.wall_ms is Some {
                            figures.wall_ms
                        } else {
                            item.duration_ms
                        }
                    },
                None => step.actions.len() == 0,
            }
            &&& step.outcome is None
            &&& after == TurnView { open_stage: None, ..turn }
        }),
{
    let (after, step) = heard(turn, json, figures, id);
    lemma_kinds_differ();
    lemma_stage_told(json, figures);
    match turn.open_stage {
        Some(item) => {
            match step.actions[0] {
                ActionView::ItemCompleted(TurnItemView::McpToolCall(done)) => {
                    assert(is_finished(item, done, stage_told(json, figures)));
                },
                _ => {},
            }
        },
        None => {},
    }
}

proof fn lemma_stage_told(json: Json, figures: FiguresView)
    ensures
        joined(detail_parts(StageEnd::read_as(json), figures), " · "@) == stage_told(json, figures),
{
    let end = StageEnd::read_as(json);
    let none = Seq::<Seq<char>>::empty();
    reveal_strlit("");
    reveal_strlit(" search");
    reveal_strlit("es");
    reveal_strlit(" searches");
    reveal_strlit(" warehouse job");
    reveal_strlit("s");
    reveal_strlit(" warehouse jobs");
    assert(" search"@ + "es"@ == " searches"@);
    assert(" warehouse job"@ + "s"@ == " warehouse jobs"@);
    lemma_together(none, searches(end));
    assert(none + listed(searches(end)) == listed(searches(end)));
    lemma_together(listed(searches(end)), None);
    lemma_together(none, ranked(end));
    assert(none + listed(ranked(end)) == listed(ranked(end)));
    lemma_together(listed(ranked(end)), ranking_route(end));
    lemma_together(listed(ranked(end)) + listed(ranking_route(end)), None);
    lemma_together(none, jobs_run(end));
    assert(none + listed(jobs_run(end)) == listed(jobs_run(end)));
    lemma_together(listed(jobs_run(end)), figures.latency);
    lemma_together(listed(jobs_run(end)) + listed(figures.latency), figures.bytes);
    lemma_together(
        listed(jobs_run(end)) + listed(figures.latency) + listed(figures.bytes),
        None,
    );
    match end.search_attempts {
        Some(n) => {
            if n == 1 {
                assert(decimal(1) + " search"@ + ""@ == decimal(1) + " search"@);
            } else {
                assert(decimal(n as nat) + " search"@ + "es"@ == decimal(n as nat) + " searches"@);
            }
        },
        None => {},
    }
    match end.warehouse_jobs {
        Some(n) => {
            if n == 1 {
                assert(decimal(1) + " warehouse job"@ + ""@ == decimal(1) + " warehouse job"@);
            } else {
                assert(decimal(n as nat) + " warehouse job"@ + "s"@ == decimal(n as nat)
                    + " warehouse jobs"@);
            }
        },
        None => {},
    }
}

/// Where the sidecar reports how large the pool of candidates is, the turn goes
/// on, and it shows that as a tool call that is complete at once.
pub proof fn law_pool_is_counted(turn: TurnView, json: Json, figures: FiguresView, id: Seq<char>)
    requires
        tells(turn, json, "pool"@),
    ensures
        ({
            let (after, step) = heard(turn, json, figures, id);
            let item = begun_call(id, "Candidate pool"@, Json::Object(Map::empty()));
            &&& match json.field("candidate_count"@).count() {
                Some(n) => exists|done: McpToolCallItemView|
                    {
                        &&& step.actions == seq![
                            ActionView::ItemStarted(TurnItemView::McpToolCall(item)),
                            ActionView::ItemCompleted(TurnItemView::McpToolCall(done)),
                        ]
                        &&& #[trigger] is_finished(item, done, decimal(n as nat) + " calls"@)
                        &&& done.duration_ms is None
                    },
                None => step.actions.len() == 0,
            }
            &&& step.outcome is None
            &&& after == turn
        }),
{
    let (after, step) = heard(turn, json, figures, id);
    lemma_kinds_differ();
    let item = begun_call(id, "Candidate pool"@, Json::Object(Map::empty()));
    match json.field("candidate_count"@).count() {
        Some(n) => {
            match step.actions[1] {
                ActionView::ItemCompleted(TurnItemView::McpToolCall(done)) => {
                    assert(is_finished(item, done, decimal(n as nat) + " calls"@));
                },
                _ => {},
            }
        },
        None => {},
    }
}

/// Where the sidecar abstains, the turn is over, and it says why.
pub proof fn law_abstention_is_told(
    turn: TurnView,
    json: Json,
    figures: FiguresView,
    id: Seq<char>,
)
    requires
        tells(turn, json, "abstain"@),
    ensures
        ({
            let (after, step) = heard(turn, json, figures, id);
            &&& says(
                step,
                id,
                "**Need more to go on.** "@ + text_under(json, "message"@, Seq::empty()),
            )
            &&& after == TurnView { phase: PhaseView::Done, ..turn }
            &&& step.outcome == Some(
                if turn.cancelled {
                    OutcomeView::Aborted
                } else {
                    OutcomeView::Quiet
                },
            )
        }),
{
    lemma_kinds_differ();
    reveal_strlit("");
    assert(""@ == Seq::<char>::empty());
}

/// Where the sidecar reports that it failed, the turn is over, and it says why,
/// unless it was called off: then it shows nothing.
pub proof fn law_failure_is_told(turn: TurnView, json: Json, figures: FiguresView, id: Seq<char>)
    requires
        tells(turn, json, "error"@),
    ensures
        ({
            let (after, step) = heard(turn, json, figures, id);
            &&& after == TurnView { phase: PhaseView::Done, ..turn }
            &&& if turn.cancelled {
                step.actions.len() == 0 && step.outcome == Some(OutcomeView::Aborted)
            } else {
                &&& says(
                    step,
                    id,
                    "Retrieval failed: "@ + text_under(json, "message"@, "unknown error"@),
                )
                &&& step.outcome == Some(OutcomeView::Quiet)
            }
        }),
{
    lemma_kinds_differ();
}

/// A document that is not addressed to the turn, or that reports nothing that a
/// turn knows of, changes nothing.
pub proof fn law_nothing_else_is_told(
    turn: TurnView,
    json: Json,
    figures: FiguresView,
    id: Seq<char>,
)
    requires
        json.field("id"@) != Json::Text(turn.id) || ({
            let kind = json.field("event"@);
            &&& kind != Json::Text("stage_begin"@)
            &&& kind != Json::Text("stage_end"@)
            &&& kind != Json::Text("plan"@)
            &&& kind != Json::Text("pool"@)
            &&& kind != Json::Text("choice"@)
            &&& kind != Json::Text("results"@)
            &&& kind != Json::Text("abstain"@)
            &&& kind != Json::Text("error"@)
        }),
    ensures
        heard(turn, json, figures, id).0 == turn,
        heard(turn, json, figures, id).1.actions.len() == 0,
        heard(turn, json, figures, id).1.outcome is None,
{
}

/// A line is heard as the document on it, and not at all where there is none.
pub proof fn law_line_is_heard(
    turn: TurnView,
    line: Seq<char>,
    figures: FiguresView,
    id: Seq<char>,
)
    ensures
        match parsed(line) {
            Some(json) => {
                &&& on_line(turn, LineHeard { line, figures, id }) == heard(turn, json, figures, id)
                &&& reported_line(line, turn.id) == reported(json, turn.id)
            },
            None => {
                let (after, step) = on_line(turn, LineHeard { line, figures, id });
                &&& after == turn
                &&& step.actions.len() == 0
                &&& step.outcome is None
                &&& reported_line(line, turn.id) is None
            },
        },
{
}

/// A turn that is not running shows nothing, whatever the sidecar reports.
pub proof fn law_only_running_turns_listen(
    turn: TurnView,
    json: Json,
    figures: FiguresView,
    id: Seq<char>,
)
    requires
        !(turn.phase is Running),
    ensures
        heard(turn, json, figures, id).0 == turn,
        heard(turn, json, figures, id).1.actions.len() == 0,
        heard(turn, json, figures, id).1.outcome is None,
{
}

/// What is measured on an event comes from the event: its latency from
/// `latency_ms` where it reports results and from `warehouse_latency_ms`
/// otherwise, its bytes from `bytes_processed`, and its time from
/// `wall_latency_ms`.
pub proof fn law_figures_are_measured(turn_id: Seq<char>, json: Json)
    requires
        json.field("id"@) == Json::Text(turn_id),
    ensures
        reported(json, turn_id) is Some,
        json.field("event"@) == Json::Text("results"@) ==> reported(
            json,
            turn_id,
        )->0.measured.latency_ms == json.field("latency_ms"@),
        json.field("event"@) != Json::Text("results"@) ==> reported(
            json,
            turn_id,
        )->0.measured.latency_ms == json.field("warehouse_latency_ms"@),
        reported(json, turn_id)->0.measured.bytes == json.field("bytes_processed"@),
        reported(json, turn_id)->0.measured.wall_ms == json.field("wall_latency_ms"@),
{
}

/// Where the sidecar leaves a choice with options to the user, the turn waits
/// for the user, and it puts one question: under the name of the choice, with
/// its prompt and with its options in order.
pub proof fn law_choice_is_put(turn: TurnView, json: Json, figures: FiguresView, id: Seq<char>)
    requires
        tells(turn, json, "choice"@),
        items_at(json, "options"@).len() > 0,
    ensures
        ({
            let (after, step) = heard(turn, json, figures, id);
            let options = items_at(json, "options"@);
            &&& step.outcome is None
            &&& step.actions.len() == 1
            &&& match step.actions[0] {
                ActionView::AskUser { call_id, args } => {
                    &&& call_id == id
                    &&& args.is_blocking
                    &&& args.auto_resolution_ms is None
                    &&& args.questions.len() == 1
                    &&& args.questions[0].id == text_under(json, "choice_id"@, "gong-choice"@)
                    &&& args.questions[0].header == "Disambiguate"@
                    &&& args.questions[0].question == text_under(
                        json,
                        "prompt"@,
                        "Which did you mean?"@,
                    )
                    &&& !args.questions[0].is_other
                    &&& !args.questions[0].is_secret
                    &&& args.questions[0].options is Some
                    &&& args.questions[0].options->0.len() == options.len()
                    &&& forall|i: int|
                        0 <= i < options.len() ==> {
                            let put = #[trigger] args.questions[0].options->0[i];
                            &&& put.label == text_under(options[i], "label"@, "(option)"@)
                            &&& put.description == text_under(
                                options[i],
                                "description"@,
                                Seq::empty(),
                            )
                        }
                },
                _ => false,
            }
            &&& after == TurnView { phase: after.phase, ..turn }
            &&& match after.phase {
                PhaseView::Choosing(choice) => {
                    &&& choice.options.len() == options.len()
                    &&& forall|i: int|
                        0 <= i < options.len() ==> (#[trigger] choice.options[i]).label
                            == options[i].field("label"@).text()
                    &&& choice.choice_id == json.field("choice_id"@).text()
                    &&& choice.echo == json.field("choice_id"@)
                },
                _ => false,
            }
        }),
{
    lemma_kinds_differ();
    reveal_strlit("");
    assert(""@ == Seq::<char>::empty());
}

/// The kinds of events are told apart by their names.
proof fn lemma_kinds_differ()
    ensures
        "stage_begin"@.len() == 11,
        "stage_end"@.len() == 9,
        "plan"@.len() == 4,
        "pool"@.len() == 4,
        "plan"@ != "pool"@,
        "choice"@.len() == 6,
        "results"@.len() == 7,
        "abstain"@.len() == 7,
        "results"@ != "abstain"@,
        "error"@.len() == 5,
{
    reveal_strlit("stage_begin");
    reveal_strlit("stage_end");
    reveal_strlit("plan");
    reveal_strlit("pool");
    reveal_strlit("choice");
    reveal_strlit("results");
    reveal_strlit("abstain");
    reveal_strlit("error");
    assert("plan"@[1] != "pool"@[1]);
    assert("results"@[0] != "abstain"@[0]);
}

} // verus!
