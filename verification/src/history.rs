//! What holds of a turn whatever happens to it.

use vstd::prelude::*;
use crate::events::{reported_line, Readable, SidecarEvent, SidecarEventView};
use crate::items::{
    begun, message_shown, tool_shown, ActionView, McpToolCallItemView, McpToolCallStatus,
    TurnItemView,
};
use crate::json::{parsed, Json};
use crate::plan::plan_lines;
use crate::question::TurnInputView;
use crate::results::results_lines;
use crate::stages::{label_of, FiguresView, StageEndView};
use crate::text::{decimal, joined};
use crate::turn::{
    first, goes_on, next, on_event, stage_arguments, stage_ended, well_formed, OutcomeView,
    PhaseView, SignalView, StepView, TurnView,
};

verus! {

/// A signal, and the new identifier that the turn has for what it shows.
pub struct Happening {
    pub signal: SignalView,
    pub id: Seq<char>,
}

/// The turn after all that happened to it, in order.
pub open spec fn state_after(turn: TurnView, history: Seq<Happening>) -> TurnView
    decreases history.len(),
{
    if history.len() == 0 {
        turn
    } else {
        let last = history.last();
        next(state_after(turn, history.drop_last()), last.signal, last.id).0
    }
}

/// All that the turn did on what happened to it, in order.
pub open spec fn actions_after(turn: TurnView, history: Seq<Happening>) -> Seq<ActionView>
    decreases history.len(),
{
    if history.len() == 0 {
        Seq::empty()
    } else {
        let last = history.last();
        let front = history.drop_last();
        actions_after(turn, front) + next(
            state_after(turn, front),
            last.signal,
            last.id,
        ).1.actions
    }
}

/// A turn stays well-formed from its beginning, whatever happens to it.
pub proof fn law_always_well_formed(
    input: Seq<TurnInputView>,
    turn_id: Seq<char>,
    id: Seq<char>,
    history: Seq<Happening>,
)
    ensures
        well_formed(state_after(first(input, turn_id, id).0, history)),
{
    law_well_formed_kept(first(input, turn_id, id).0, history);
}

/// A well-formed turn stays so, whatever happens to it.
pub proof fn law_well_formed_kept(turn: TurnView, history: Seq<Happening>)
    requires
        well_formed(turn),
    ensures
        well_formed(state_after(turn, history)),
    decreases history.len(),
{
    if history.len() > 0 {
        law_well_formed_kept(turn, history.drop_last());
    }
}

/// The identifier and the question of a turn never change.
pub proof fn law_identity_kept(turn: TurnView, history: Seq<Happening>)
    ensures
        state_after(turn, history).id == turn.id,
        state_after(turn, history).question == turn.question,
    decreases history.len(),
{
    if history.len() > 0 {
        law_identity_kept(turn, history.drop_last());
    }
}

/// A turn has an outcome exactly when it comes to its end, and is over from
/// then on.
pub proof fn law_outcome_is_the_end(turn: TurnView, signal: SignalView, id: Seq<char>)
    ensures
        next(turn, signal, id).1.outcome is Some <==> !(turn.phase is Done) && next(
            turn,
            signal,
            id,
        ).0.phase is Done,
{
}

/// A turn that is over does nothing more.
pub proof fn law_over_is_over(turn: TurnView, history: Seq<Happening>)
    requires
        turn.phase is Done,
    ensures
        state_after(turn, history) == turn,
        actions_after(turn, history) == Seq::<ActionView>::empty(),
    decreases history.len(),
{
    if history.len() > 0 {
        law_over_is_over(turn, history.drop_last());
    }
}

/// A turn that was called off ends as aborted, and no other does. The one
/// exception is a reply to a choice that cannot be written: the message that
/// says so is then the outcome.
pub proof fn law_aborted_when_called_off(turn: TurnView, signal: SignalView, id: Seq<char>)
    requires
        well_formed(turn),
        next(turn, signal, id).1.outcome is Some,
    ensures
        next(turn, signal, id).1.outcome == Some(OutcomeView::Aborted) <==> turn.cancelled && !(
        turn.phase is Replying),
{
}

/// Once a turn is called off, it stays so.
pub proof fn law_called_off_kept(turn: TurnView, history: Seq<Happening>)
    requires
        turn.cancelled,
    ensures
        state_after(turn, history).cancelled,
    decreases history.len(),
{
    if history.len() > 0 {
        law_called_off_kept(turn, history.drop_last());
    }
}

/// Whether the turn tells the sidecar that it is called off.
pub open spec fn calls_off(turn: TurnView, signal: SignalView) -> bool {
    turn.phase is Running && signal is Cancelled && !turn.cancelled
}

/// The sidecar is told at most once that a turn is called off.
pub proof fn law_called_off_once(turn: TurnView, history: Seq<Happening>, i: int, j: int)
    requires
        0 <= i < j < history.len(),
        calls_off(state_after(turn, history.take(i)), history[i].signal),
    ensures
        !calls_off(state_after(turn, history.take(j)), history[j].signal),
{
    let off = state_after(turn, history.take(i + 1));
    assert(history.take(i + 1).drop_last() == history.take(i));
    assert(off.cancelled);
    let between = history.subrange(i + 1, j);
    lemma_state_after_both(turn, history.take(i + 1), between);
    assert(history.take(i + 1) + between == history.take(j));
    law_called_off_kept(off, between);
}

/// What happens later happens to the turn as it was left.
proof fn lemma_state_after_both(turn: TurnView, early: Seq<Happening>, late: Seq<Happening>)
    ensures
        state_after(turn, early + late) == state_after(state_after(turn, early), late),
    decreases late.len(),
{
    if late.len() == 0 {
        assert(early + late == early);
    } else {
        assert((early + late).drop_last() == early + late.drop_last());
        lemma_state_after_both(turn, early, late.drop_last());
    }
}

/// A final message is always in the transcript too: it is the last thing that
/// the turn shows.
pub proof fn law_final_message_is_shown(turn: TurnView, signal: SignalView, id: Seq<char>)
    ensures
        match next(turn, signal, id).1.outcome {
            Some(OutcomeView::Said(text)) => {
                let actions = next(turn, signal, id).1.actions;
                actions.len() >= 2 && actions.skip(actions.len() - 2) == message_shown(id, text)
            },
            _ => true,
        },
{
    match next(turn, signal, id).1.outcome {
        Some(OutcomeView::Said(text)) => {
            let actions = next(turn, signal, id).1.actions;
            assert(actions.skip(actions.len() - 2) == message_shown(id, text));
        },
        _ => {},
    }
}

/// A turn without a final message has shown its answer as a message, once, and
/// does nothing else in the end.
pub proof fn law_answer_is_shown(turn: TurnView, signal: SignalView, id: Seq<char>)
    requires
        next(turn, signal, id).1.outcome == Some(OutcomeView::Quiet),
    ensures
        exists|text: Seq<char>|
            next(turn, signal, id).1.actions == #[trigger] message_shown(id, text),
{
}

/// The sidecar is given up exactly when it cannot be written to or its output
/// has ended.
pub proof fn law_sidecar_given_up(turn: TurnView, signal: SignalView, id: Seq<char>)
    ensures
        next(turn, signal, id).1.actions.contains(ActionView::DropSidecar) <==> {
            ||| turn.phase is Asking && signal is WriteFailed
            ||| turn.phase is Replying && signal is WriteFailed
            ||| turn.phase is Running && signal is Closed
        },
{
    let actions = next(turn, signal, id).1.actions;
    if {
        ||| turn.phase is Asking && signal is WriteFailed
        ||| turn.phase is Replying && signal is WriteFailed
        ||| turn.phase is Running && signal is Closed
    } {
        assert(actions[0] == ActionView::DropSidecar);
    }
}

/// A line of the sidecar, with the figures that are shown for it and the new
/// identifier that the turn has for what it shows.
pub struct LineHeard {
    pub line: Seq<char>,
    pub figures: FiguresView,
    pub id: Seq<char>,
}

/// What a turn does on a line: what it does on the event that the line reports
/// of it, and nothing where it reports none.
pub open spec fn on_line(turn: TurnView, heard: LineHeard) -> (TurnView, StepView) {
    match reported_line(heard.line, turn.id) {
        Some(received) => next(
            turn,
            SignalView::Event(received.event, heard.figures),
            heard.id,
        ),
        None => goes_on(turn, Seq::empty()),
    }
}

/// The turn after all these lines, in order.
pub open spec fn state_after_lines(turn: TurnView, lines: Seq<LineHeard>) -> TurnView
    decreases lines.len(),
{
    if lines.len() == 0 {
        turn
    } else {
        on_line(state_after_lines(turn, lines.drop_last()), lines.last()).0
    }
}

/// What the turn does on the line at `i`.
pub open spec fn step_on_line(turn: TurnView, lines: Seq<LineHeard>, i: int) -> StepView {
    on_line(state_after_lines(turn, lines.take(i)), lines[i]).1
}

/// Whether a line says nothing to the turn `turn_id`: it is no JSON, is about
/// something else, or reports an event of an unknown kind.
pub open spec fn says_nothing(line: Seq<char>, turn_id: Seq<char>) -> bool {
    match parsed(line) {
        Some(json) => json.field("id"@) != Json::Text(turn_id) || SidecarEvent::read_as(json)
            == SidecarEventView::Other,
        None => true,
    }
}

/// Lines that say nothing to a turn leave it as it is: it does nothing on any
/// of them, and none of them ends it. So what is reported of an earlier turn is
/// never shown.
pub proof fn law_other_lines_change_nothing(turn: TurnView, lines: Seq<LineHeard>)
    requires
        forall|i: int| 0 <= i < lines.len() ==> says_nothing((#[trigger] lines[i]).line, turn.id),
    ensures
        state_after_lines(turn, lines) == turn,
        forall|i: int|
            0 <= i < lines.len() ==> #[trigger] step_on_line(turn, lines, i) == (StepView {
                actions: Seq::empty(),
                outcome: None,
            }),
    decreases lines.len(),
{
    if lines.len() > 0 {
        let front = lines.drop_last();
        law_other_lines_change_nothing(turn, front);
        assert(says_nothing(lines[lines.len() - 1].line, turn.id));
        assert forall|i: int| 0 <= i < lines.len() implies #[trigger] step_on_line(turn, lines, i)
            == (StepView { actions: Seq::empty(), outcome: None }) by {
            if i < front.len() {
                assert(front.take(i) == lines.take(i));
                assert(step_on_line(turn, front, i) == step_on_line(turn, lines, i));
            } else {
                assert(lines.take(i) == front);
            }
        }
    }
}

/// Whether a signal is the beginning or the end of a stage.
pub open spec fn is_stage_signal(signal: SignalView) -> bool {
    match signal {
        SignalView::Event(event, _) => event is StageBegin || event is StageEnd,
        _ => false,
    }
}

/// Whether the turn was listening when it heard of a stage at `i`.
pub open spec fn heard_of_stage(turn: TurnView, history: Seq<Happening>, i: int) -> bool {
    state_after(turn, history.take(i)).phase is Running && is_stage_signal(history[i].signal)
}

/// The tool call that a stage signal leaves open: that of the stage where one
/// begins, under the general label where it has no name, and none where one
/// ends.
pub open spec fn left_open(happening: Happening) -> Option<McpToolCallItemView> {
    match happening.signal {
        SignalView::Event(SidecarEventView::StageBegin { stage }, _) => {
            let stage = stage.unwrap_or(""@);
            Some(begun(happening.id, label_of(stage), stage_arguments(stage)))
        },
        _ => None,
    }
}

proof fn lemma_open_stage(turn: TurnView, history: Seq<Happening>, k: int)
    requires
        -1 <= k < history.len(),
        k >= 0 ==> heard_of_stage(turn, history, k),
        forall|i: int| k < i < history.len() ==> !#[trigger] heard_of_stage(turn, history, i),
    ensures
        state_after(turn, history).open_stage == if k >= 0 {
            left_open(history[k])
        } else {
            turn.open_stage
        },
    decreases history.len(),
{
    if history.len() > 0 {
        let front = history.drop_last();
        let n = front.len() as int;
        assert(history.take(n) == front);
        if k < n {
            assert(!heard_of_stage(turn, history, n));
            assert forall|i: int| k < i < n implies !#[trigger] heard_of_stage(turn, front, i) by {
                assert(front.take(i) == history.take(i));
                assert(!heard_of_stage(turn, history, i));
            }
            if k >= 0 {
                assert(front.take(k) == history.take(k));
            }
            lemma_open_stage(turn, front, k);
        }
    }
}

/// The end of a stage completes the stage that began last, if it is still open,
/// and shows nothing otherwise, whatever happened between. Here `k` is where
/// the turn last heard of a stage, or -1 where it has not.
pub proof fn law_end_completes_last_stage(
    turn: TurnView,
    history: Seq<Happening>,
    k: int,
    end: StageEndView,
    figures: FiguresView,
    id: Seq<char>,
)
    requires
        state_after(turn, history).phase is Running,
        -1 <= k < history.len(),
        k >= 0 ==> heard_of_stage(turn, history, k),
        forall|i: int| k < i < history.len() ==> !#[trigger] heard_of_stage(turn, history, i),
    ensures
        ({
            let open = if k >= 0 {
                left_open(history[k])
            } else {
                turn.open_stage
            };
            let before = state_after(turn, history);
            let done = next(
                before,
                SignalView::Event(SidecarEventView::StageEnd(end), figures),
                id,
            );
            &&& done.0 == TurnView { open_stage: None, ..before }
            &&& done.1.outcome is None
            &&& done.1.actions == match open {
                Some(item) => seq![
                    ActionView::ItemCompleted(
                        TurnItemView::McpToolCall(stage_ended(item, end, figures)),
                    ),
                ],
                None => Seq::empty(),
            }
        }),
{
    lemma_open_stage(turn, history, k);
}

/// A stage that begins and then ends is one tool call: it starts under the
/// stage's label, or the general one where the stage has no name, and is
/// completed as that same call.
pub proof fn law_stage_is_one_call(
    turn: TurnView,
    stage: Option<Seq<char>>,
    begin_figures: FiguresView,
    end: StageEndView,
    end_figures: FiguresView,
    begin_id: Seq<char>,
    end_id: Seq<char>,
)
    requires
        turn.phase is Running,
    ensures
        ({
            let name = stage.unwrap_or(""@);
            let item = begun(begin_id, label_of(name), stage_arguments(name));
            let begin = next(
                turn,
                SignalView::Event(SidecarEventView::StageBegin { stage }, begin_figures),
                begin_id,
            );
            let done = next(
                begin.0,
                SignalView::Event(SidecarEventView::StageEnd(end), end_figures),
                end_id,
            );
            &&& begin.1.actions == seq![ActionView::ItemStarted(TurnItemView::McpToolCall(item))]
            &&& done.1.actions == seq![
                ActionView::ItemCompleted(
                    TurnItemView::McpToolCall(stage_ended(item, end, end_figures)),
                ),
            ]
            &&& done.0 == TurnView { open_stage: None, ..turn }
        }),
{
}

/// Whether `done` is `item` once it is complete: the same message, or the same
/// tool call, no longer in progress.
pub open spec fn completes(item: TurnItemView, done: TurnItemView) -> bool {
    match (item, done) {
        (TurnItemView::AgentMessage(item), TurnItemView::AgentMessage(done)) => item == done,
        (TurnItemView::McpToolCall(item), TurnItemView::McpToolCall(done)) => {
            &&& item.status == McpToolCallStatus::InProgress
            &&& done == McpToolCallItemView {
                status: McpToolCallStatus::Completed,
                result: done.result,
                duration_ms: done.duration_ms,
                ..item
            }
        },
        _ => false,
    }
}

/// Whether the item completed at `k` was started before.
pub open spec fn started_before(actions: Seq<ActionView>, k: int) -> bool {
    match actions[k] {
        ActionView::ItemCompleted(done) => exists|j: int|
            {
                &&& 0 <= j < k
                &&& match #[trigger] actions[j] {
                    ActionView::ItemStarted(item) => completes(item, done),
                    _ => false,
                }
            },
        _ => true,
    }
}

/// Nothing is shown as complete that was not shown to start before, as the
/// same item.
pub proof fn law_completed_was_started(
    input: Seq<TurnInputView>,
    turn_id: Seq<char>,
    id: Seq<char>,
    history: Seq<Happening>,
    k: int,
)
    requires
        0 <= k < actions_after(first(input, turn_id, id).0, history).len(),
    ensures
        started_before(actions_after(first(input, turn_id, id).0, history), k),
{
    lemma_starts_come_first(first(input, turn_id, id).0, history);
}

/// Whether what is completed in `step` was started in the action before it, or
/// is the stage `shown` and comes first.
#[verifier::opaque]
spec fn starts_in_step(step: Seq<ActionView>, shown: Option<McpToolCallItemView>) -> bool {
    forall|m: int|
        0 <= m < step.len() ==> match #[trigger] step[m] {
            ActionView::ItemCompleted(done) => if m > 0 {
                match step[m - 1] {
                    ActionView::ItemStarted(item) => completes(item, done),
                    _ => false,
                }
            } else {
                match shown {
                    Some(item) => completes(TurnItemView::McpToolCall(item), done),
                    None => false,
                }
            },
            _ => true,
        }
}

/// Whether the stage `shown`, if any, is in progress and was started.
spec fn is_started(actions: Seq<ActionView>, shown: Option<McpToolCallItemView>) -> bool {
    match shown {
        Some(item) => {
            &&& item.status == McpToolCallStatus::InProgress
            &&& actions.contains(ActionView::ItemStarted(TurnItemView::McpToolCall(item)))
        },
        None => true,
    }
}

proof fn lemma_message_starts(
    front: Seq<ActionView>,
    id: Seq<char>,
    text: Seq<char>,
    shown: Option<McpToolCallItemView>,
)
    requires
        front.len() == 0 || front == seq![ActionView::DropSidecar],
    ensures
        starts_in_step(front, shown),
        starts_in_step(front + message_shown(id, text), shown),
        starts_in_step(message_shown(id, text), shown),
{
    reveal(starts_in_step);
}

proof fn lemma_tool_starts(
    id: Seq<char>,
    tool: Seq<char>,
    detail: Seq<char>,
    shown: Option<McpToolCallItemView>,
)
    ensures
        starts_in_step(tool_shown(id, tool, detail), shown),
{
    reveal(starts_in_step);
}

proof fn lemma_single_starts(action: ActionView, shown: Option<McpToolCallItemView>)
    requires
        match action {
            ActionView::ItemCompleted(done) => match shown {
                Some(item) => completes(TurnItemView::McpToolCall(item), done),
                None => false,
            },
            _ => true,
        },
    ensures
        starts_in_step(seq![action], shown),
{
    reveal(starts_in_step);
}

proof fn lemma_event_starts(
    turn: TurnView,
    event: SidecarEventView,
    figures: FiguresView,
    id: Seq<char>,
)
    requires
        well_formed(turn),
    ensures
        starts_in_step(on_event(turn, event, figures, id).1.actions, turn.open_stage),
{
    let actions = on_event(turn, event, figures, id).1.actions;
    lemma_message_starts(Seq::empty(), id, Seq::empty(), turn.open_stage);
    match event {
        SidecarEventView::StageBegin { stage } => {
            lemma_single_starts(actions[0], turn.open_stage);
            assert(actions == seq![actions[0]]);
        },
        SidecarEventView::StageEnd(end) => {
            if turn.open_stage is Some {
                lemma_single_starts(actions[0], turn.open_stage);
                assert(actions == seq![actions[0]]);
            }
        },
        SidecarEventView::Plan(plan) => {
            lemma_message_starts(
                Seq::empty(),
                id,
                joined(plan_lines(plan), "\n"@),
                turn.open_stage,
            );
        },
        SidecarEventView::Pool { candidate_count } => {
            if let Some(count) = candidate_count {
                lemma_tool_starts(
                    id,
                    "Candidate pool"@,
                    decimal(count as nat) + " calls"@,
                    turn.open_stage,
                );
            }
        },
        SidecarEventView::Choice(choice) => {
            lemma_single_starts(actions[0], turn.open_stage);
            assert(actions == seq![actions[0]]);
        },
        SidecarEventView::Results(results) => {
            lemma_message_starts(
                Seq::empty(),
                id,
                joined(results_lines(results, figures), "\n"@),
                turn.open_stage,
            );
        },
        SidecarEventView::Abstain { message } => {
            lemma_message_starts(
                Seq::empty(),
                id,
                "**Need more to go on.** "@ + message.unwrap_or(""@),
                turn.open_stage,
            );
        },
        SidecarEventView::Error { message } => {
            lemma_message_starts(
                Seq::empty(),
                id,
                "Retrieval failed: "@ + message.unwrap_or("unknown error"@),
                turn.open_stage,
            );
        },
        SidecarEventView::Other => {},
    }
}

proof fn lemma_step_starts(turn: TurnView, signal: SignalView, id: Seq<char>)
    requires
        well_formed(turn),
    ensures
        starts_in_step(next(turn, signal, id).1.actions, turn.open_stage),
{
    let actions = next(turn, signal, id).1.actions;
    let shown = turn.open_stage;
    let dropping = seq![ActionView::DropSidecar];
    lemma_message_starts(Seq::empty(), id, Seq::empty(), shown);
    lemma_message_starts(dropping, id, Seq::empty(), shown);
    match (turn.phase, signal) {
        (PhaseView::Running, SignalView::Event(event, figures)) => {
            lemma_event_starts(turn, event, figures, id);
        },
        (PhaseView::Starting, SignalView::SidecarFailed(error)) => {
            lemma_message_starts(
                Seq::empty(),
                id,
                "Gong sidecar failed to start: "@ + error,
                shown,
            );
        },
        (PhaseView::Asking, SignalView::WriteFailed(error)) => {
            lemma_message_starts(dropping, id, "Gong sidecar is unreachable: "@ + error, shown);
        },
        (PhaseView::Running, SignalView::Closed) => {
            lemma_message_starts(dropping, id, "Gong sidecar exited unexpectedly."@, shown);
        },
        (PhaseView::Replying, SignalView::WriteFailed(_)) => {
            lemma_message_starts(dropping, id, "Gong sidecar is unreachable."@, shown);
        },
        _ => {
            if actions.len() > 0 {
                lemma_single_starts(actions[0], shown);
                assert(actions == seq![actions[0]]);
            } else {
                assert(actions == Seq::<ActionView>::empty());
            }
        },
    }
}

/// A stage that a turn comes to show was started in that step.
proof fn lemma_stage_shown(turn: TurnView, signal: SignalView, id: Seq<char>)
    ensures
        next(turn, signal, id).0.open_stage == turn.open_stage || is_started(
            next(turn, signal, id).1.actions,
            next(turn, signal, id).0.open_stage,
        ),
{
    let (after, step) = next(turn, signal, id);
    match after.open_stage {
        Some(item) => {
            if after.open_stage != turn.open_stage {
                assert(step.actions[0] == ActionView::ItemStarted(TurnItemView::McpToolCall(item)));
            }
        },
        None => {},
    }
}

proof fn lemma_still_started(
    before: Seq<ActionView>,
    step: Seq<ActionView>,
    shown: Option<McpToolCallItemView>,
)
    requires
        is_started(before, shown) || is_started(step, shown),
    ensures
        is_started(before + step, shown),
{
    match shown {
        Some(item) => {
            let start = ActionView::ItemStarted(TurnItemView::McpToolCall(item));
            if before.contains(start) {
                let j = choose|j: int| 0 <= j < before.len() && before[j] == start;
                assert((before + step)[j] == start);
            } else {
                let j = choose|j: int| 0 <= j < step.len() && step[j] == start;
                assert((before + step)[before.len() + j] == start);
            }
        },
        None => {},
    }
}

proof fn lemma_step_added(
    before: Seq<ActionView>,
    step: Seq<ActionView>,
    shown: Option<McpToolCallItemView>,
    k: int,
)
    requires
        0 <= k < before.len() + step.len(),
        forall|i: int| 0 <= i < before.len() ==> #[trigger] started_before(before, i),
        is_started(before, shown),
        starts_in_step(step, shown),
    ensures
        started_before(before + step, k),
{
    reveal(starts_in_step);
    let all = before + step;
    if k < before.len() {
        assert(started_before(before, k));
        assert(all[k] == before[k]);
        match before[k] {
            ActionView::ItemCompleted(done) => {
                let j = choose|j: int|
                    {
                        &&& 0 <= j < k
                        &&& match #[trigger] before[j] {
                            ActionView::ItemStarted(item) => completes(item, done),
                            _ => false,
                        }
                    };
                assert(all[j] == before[j]);
            },
            _ => {},
        }
    } else {
        let m = k - before.len();
        assert(all[k] == step[m]);
        match step[m] {
            ActionView::ItemCompleted(done) => {
                if m > 0 {
                    assert(all[k - 1] == step[m - 1]);
                } else {
                    let start = ActionView::ItemStarted(TurnItemView::McpToolCall(shown->0));
                    let j = choose|j: int| 0 <= j < before.len() && before[j] == start;
                    assert(all[j] == start);
                }
            },
            _ => {},
        }
    }
}

proof fn lemma_starts_come_first(turn: TurnView, history: Seq<Happening>)
    requires
        well_formed(turn),
        turn.open_stage is None,
    ensures
        forall|k: int|
            0 <= k < actions_after(turn, history).len() ==> #[trigger] started_before(
                actions_after(turn, history),
                k,
            ),
        is_started(actions_after(turn, history), state_after(turn, history).open_stage),
    decreases history.len(),
{
    if history.len() > 0 {
        let front = history.drop_last();
        let last = history.last();
        lemma_starts_come_first(turn, front);
        law_well_formed_kept(turn, front);
        let before = actions_after(turn, front);
        let state = state_after(turn, front);
        let step = next(state, last.signal, last.id).1.actions;
        lemma_step_starts(state, last.signal, last.id);
        lemma_stage_shown(state, last.signal, last.id);
        assert forall|k: int| 0 <= k < (before + step).len() implies #[trigger] started_before(
            before + step,
            k,
        ) by {
            lemma_step_added(before, step, state.open_stage, k);
        }
        lemma_still_started(before, step, state_after(turn, history).open_stage);
    }
}

} // verus!
