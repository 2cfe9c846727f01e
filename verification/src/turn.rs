//! A retrieval turn: what happens to it, and what it does in return.

use vstd::prelude::*;
use crate::choice::{
    choice_request, optional_response, question_put, selected_option, selection, Choice,
    ChoiceView, RequestUserInputAnswerView, RequestUserInputResponse,
};
use crate::events::{SidecarEvent, SidecarEventView};
use crate::ids::{fresh_id, is_random_id};
use crate::items::{
    begun, complete_stage_item, completed, emit_agent_message, emit_completed_tool, message_shown,
    stage_item, tool_shown, Action, ActionView, McpToolCallItem, McpToolCallItemView,
    McpToolCallStatus, TurnItem, TurnItemView,
};
use crate::json::{self, parsed, Json};
use crate::model::contents;
use crate::plan::{plan_lines, plan_markdown};
use crate::question::{
    question_in, read_question, Mode, Question, QuestionView, Search, TurnInput, TurnInputView,
};
use crate::requests::{
    ask, ask_line, asks_for, calls_off_turn, cancel, cancel_line, choose_line, choose_option,
    framed, is_line, is_request, law_ask_asks, law_cancel_calls_off, law_choose_settles, settles,
};
use crate::results::{has_headings, law_one_heading_each, results_lines, results_markdown};
use crate::stages::{
    detail_parts, label_of, stage_detail, stage_label, Figures, FiguresView, StageEnd, StageEndView,
};
use crate::text::{decimal, joined, number, text_or};

verus! {

/// What a turn is waiting for.
pub enum Phase {
    /// A sidecar.
    Starting,
    /// The question to be written.
    Asking,
    /// Events.
    Running,
    /// The user, who is to settle a choice.
    Choosing(Choice),
    /// The user's choice to be written.
    Replying,
    /// Nothing: the turn is over.
    Done,
}

pub enum PhaseView {
    Starting,
    Asking,
    Running,
    Choosing(ChoiceView),
    Replying,
    Done,
}

impl View for Phase {
    type V = PhaseView;

    open spec fn view(&self) -> PhaseView {
        match self {
            Phase::Starting => PhaseView::Starting,
            Phase::Asking => PhaseView::Asking,
            Phase::Running => PhaseView::Running,
            Phase::Choosing(choice) => PhaseView::Choosing(choice@),
            Phase::Replying => PhaseView::Replying,
            Phase::Done => PhaseView::Done,
        }
    }
}

/// A retrieval turn.
pub struct Turn {
    pub id: String,
    pub question: Question,
    pub phase: Phase,
    pub cancelled: bool,
    pub open_stage: Option<McpToolCallItem>,
}

pub struct TurnView {
    pub id: Seq<char>,
    pub question: QuestionView,
    pub phase: PhaseView,
    pub cancelled: bool,
    pub open_stage: Option<McpToolCallItemView>,
}

/// The contents of a tool call that may be missing.
pub open spec fn optional_item(item: Option<McpToolCallItem>) -> Option<McpToolCallItemView> {
    match item {
        Some(item) => Some(item@),
        None => None,
    }
}

impl View for Turn {
    type V = TurnView;

    open spec fn view(&self) -> TurnView {
        TurnView {
            id: self.id@,
            question: self.question@,
            phase: self.phase@,
            cancelled: self.cancelled,
            open_stage: optional_item(self.open_stage),
        }
    }
}

/// Whether a turn is in a state that it can come to: until its question is
/// written it is not called off and shows no stage, and a stage that it shows
/// is in progress.
pub open spec fn well_formed(turn: TurnView) -> bool {
    &&& turn.phase is Starting || turn.phase is Asking ==> !turn.cancelled
        && turn.open_stage is None
    &&& match turn.open_stage {
        Some(item) => item.status == McpToolCallStatus::InProgress,
        None => true,
    }
}

/// Something that happens to a turn.
pub enum Signal {
    /// There is a sidecar, and it is ready.
    SidecarReady,
    /// No sidecar could be started.
    SidecarFailed(String),
    /// What the turn sent last was written.
    Written,
    /// What the turn sent last could not be written.
    WriteFailed(String),
    /// The turn was called off.
    Cancelled,
    /// The sidecar reported something of the turn.
    Event(SidecarEvent, Figures),
    /// The sidecar's output ended or could not be read.
    Closed,
    /// The user answered, or declined to.
    Answered(Option<RequestUserInputResponse>),
}

pub enum SignalView {
    SidecarReady,
    SidecarFailed(Seq<char>),
    Written,
    WriteFailed(Seq<char>),
    Cancelled,
    Event(SidecarEventView, FiguresView),
    Closed,
    Answered(Option<Seq<RequestUserInputAnswerView>>),
}

impl View for Signal {
    type V = SignalView;

    open spec fn view(&self) -> SignalView {
        match self {
            Signal::SidecarReady => SignalView::SidecarReady,
            Signal::SidecarFailed(error) => SignalView::SidecarFailed(error@),
            Signal::Written => SignalView::Written,
            Signal::WriteFailed(error) => SignalView::WriteFailed(error@),
            Signal::Cancelled => SignalView::Cancelled,
            Signal::Event(event, figures) => SignalView::Event(event@, figures@),
            Signal::Closed => SignalView::Closed,
            Signal::Answered(response) => SignalView::Answered(optional_response(*response)),
        }
    }
}

/// How a turn ended.
pub enum Outcome {
    /// With this final message.
    Said(String),
    /// Without a final message of its own: what there was to say is in the
    /// transcript.
    Quiet,
    /// It was called off.
    Aborted,
}

pub enum OutcomeView {
    Said(Seq<char>),
    Quiet,
    Aborted,
}

impl View for Outcome {
    type V = OutcomeView;

    open spec fn view(&self) -> OutcomeView {
        match self {
            Outcome::Said(text) => OutcomeView::Said(text@),
            Outcome::Quiet => OutcomeView::Quiet,
            Outcome::Aborted => OutcomeView::Aborted,
        }
    }
}

/// What a turn does: its actions in order, and how it ended if it did.
pub struct Step {
    pub actions: Vec<Action>,
    pub outcome: Option<Outcome>,
}

pub struct StepView {
    pub actions: Seq<ActionView>,
    pub outcome: Option<OutcomeView>,
}

impl View for Step {
    type V = StepView;

    open spec fn view(&self) -> StepView {
        StepView {
            actions: contents(self.actions@),
            outcome: match self.outcome {
                Some(outcome) => Some(outcome@),
                None => None,
            },
        }
    }
}

/// A turn that goes on after these actions.
pub open spec fn goes_on(turn: TurnView, actions: Seq<ActionView>) -> (TurnView, StepView) {
    (turn, StepView { actions, outcome: None })
}

/// A turn that is over after these actions.
pub open spec fn ends(turn: TurnView, actions: Seq<ActionView>, outcome: OutcomeView) -> (
    TurnView,
    StepView,
) {
    (
        TurnView { phase: PhaseView::Done, ..turn },
        StepView { actions, outcome: Some(outcome) },
    )
}

/// A turn that is over because of something that `text` explains.
pub open spec fn fails(
    turn: TurnView,
    before: Seq<ActionView>,
    id: Seq<char>,
    text: Seq<char>,
) -> (TurnView, StepView) {
    ends(turn, before + message_shown(id, text), OutcomeView::Said(text))
}

/// A turn that is over with the answer `text`.
pub open spec fn answers(turn: TurnView, id: Seq<char>, text: Seq<char>) -> (TurnView, StepView) {
    ends(
        turn,
        message_shown(id, text),
        if turn.cancelled {
            OutcomeView::Aborted
        } else {
            OutcomeView::Quiet
        },
    )
}

/// The arguments of the tool call that shows a stage.
pub open spec fn stage_arguments(stage: Seq<char>) -> Json {
    Json::Object(Map::empty()).with("stage"@, Json::Text(stage))
}

/// The tool call that shows a stage, once the stage has ended.
pub open spec fn stage_ended(
    item: McpToolCallItemView,
    event: StageEndView,
    figures: FiguresView,
) -> McpToolCallItemView {
    McpToolCallItemView {
        duration_ms: match figures.wall_ms {
            Some(wall_ms) => Some(wall_ms),
            None => item.duration_ms,
        },
        ..completed(item, joined(detail_parts(event, figures), " · "@))
    }
}

/// What a running turn does on an event.
pub open spec fn on_event(
    turn: TurnView,
    event: SidecarEventView,
    figures: FiguresView,
    id: Seq<char>,
) -> (TurnView, StepView) {
    match event {
        SidecarEventView::StageBegin { stage } => {
            let stage = stage.unwrap_or(""@);
            let item = begun(id, label_of(stage), stage_arguments(stage));
            goes_on(
                TurnView { open_stage: Some(item), ..turn },
                seq![ActionView::ItemStarted(TurnItemView::McpToolCall(item))],
            )
        },
        SidecarEventView::StageEnd(end) => match turn.open_stage {
            Some(item) => goes_on(
                TurnView { open_stage: None, ..turn },
                seq![
                    ActionView::ItemCompleted(
                        TurnItemView::McpToolCall(stage_ended(item, end, figures)),
                    ),
                ],
            ),
            None => goes_on(turn, Seq::empty()),
        },
        SidecarEventView::Plan(plan) => goes_on(
            turn,
            message_shown(id, joined(plan_lines(plan), "\n"@)),
        ),
        SidecarEventView::Pool { candidate_count } => match candidate_count {
            Some(count) => goes_on(
                turn,
                tool_shown(id, "Candidate pool"@, decimal(count as nat) + " calls"@),
            ),
            None => goes_on(turn, Seq::empty()),
        },
        SidecarEventView::Choice(choice) => if choice.options.len() == 0 {
            goes_on(
                TurnView { phase: PhaseView::Replying, ..turn },
                seq![ActionView::Send(framed(choose_option(turn.id, choice.echo, None)))],
            )
        } else {
            goes_on(
                TurnView { phase: PhaseView::Choosing(choice), ..turn },
                seq![ActionView::AskUser { call_id: id, args: question_put(choice) }],
            )
        },
        SidecarEventView::Results(results) => answers(
            turn,
            id,
            joined(results_lines(results, figures), "\n"@),
        ),
        SidecarEventView::Abstain { message } => answers(
            turn,
            id,
            "**Need more to go on.** "@ + message.unwrap_or(""@),
        ),
        SidecarEventView::Error { message } => if turn.cancelled {
            ends(turn, Seq::empty(), OutcomeView::Aborted)
        } else {
            answers(turn, id, "Retrieval failed: "@ + message.unwrap_or("unknown error"@))
        },
        SidecarEventView::Other => goes_on(turn, Seq::empty()),
    }
}

/// What a turn does on a signal, where `id` is a new identifier. A signal that
/// the turn is not waiting for changes nothing.
pub open spec fn next(turn: TurnView, signal: SignalView, id: Seq<char>) -> (TurnView, StepView) {
    match (turn.phase, signal) {
        (PhaseView::Starting, SignalView::SidecarReady) => goes_on(
            TurnView { phase: PhaseView::Asking, ..turn },
            seq![ActionView::Send(framed(ask(turn.id, turn.question)))],
        ),
        (PhaseView::Starting, SignalView::SidecarFailed(error)) => fails(
            turn,
            Seq::empty(),
            id,
            "Gong sidecar failed to start: "@ + error,
        ),
        (PhaseView::Asking, SignalView::Written) => goes_on(
            TurnView { phase: PhaseView::Running, ..turn },
            Seq::empty(),
        ),
        (PhaseView::Asking, SignalView::WriteFailed(error)) => fails(
            turn,
            seq![ActionView::DropSidecar],
            id,
            "Gong sidecar is unreachable: "@ + error,
        ),
        (PhaseView::Running, SignalView::Cancelled) => if turn.cancelled {
            goes_on(turn, Seq::empty())
        } else {
            goes_on(
                TurnView { cancelled: true, ..turn },
                seq![ActionView::Send(framed(cancel(turn.id)))],
            )
        },
        (PhaseView::Running, SignalView::Event(event, figures)) => on_event(
            turn,
            event,
            figures,
            id,
        ),
        (PhaseView::Running, SignalView::Closed) => if turn.cancelled {
            ends(turn, seq![ActionView::DropSidecar], OutcomeView::Aborted)
        } else {
            fails(turn, seq![ActionView::DropSidecar], id, "Gong sidecar exited unexpectedly."@)
        },
        (PhaseView::Choosing(choice), SignalView::Answered(response)) => goes_on(
            TurnView { phase: PhaseView::Replying, ..turn },
            seq![
                ActionView::Send(
                    framed(choose_option(turn.id, choice.echo, selection(choice, response))),
                ),
            ],
        ),
        (PhaseView::Replying, SignalView::Written) => goes_on(
            TurnView { phase: PhaseView::Running, ..turn },
            Seq::empty(),
        ),
        (PhaseView::Replying, SignalView::WriteFailed(_)) => fails(
            turn,
            seq![ActionView::DropSidecar],
            id,
            "Gong sidecar is unreachable."@,
        ),
        _ => goes_on(turn, Seq::empty()),
    }
}

/// A turn as it begins, where `id` is a new identifier: it is over at once
/// where the user asked nothing.
pub open spec fn first(input: Seq<TurnInputView>, turn_id: Seq<char>, id: Seq<char>) -> (
    TurnView,
    StepView,
) {
    let turn = TurnView {
        id: turn_id,
        question: question_in(input),
        phase: PhaseView::Starting,
        cancelled: false,
        open_stage: None,
    };
    if turn.question.text.len() == 0 {
        fails(turn, Seq::empty(), id, "Ask a Gong retrieval question in natural language."@)
    } else {
        goes_on(turn, Seq::empty())
    }
}

/// Whether everything that is sent is a request of the turn `turn_id`.
pub open spec fn sends_requests(actions: Seq<ActionView>, turn_id: Seq<char>) -> bool {
    forall|i: int|
        0 <= i < actions.len() ==> match #[trigger] actions[i] {
            ActionView::Send(line) => is_request(line, turn_id),
            _ => true,
        }
}

/// The document that is read back from what a step sends, where that is one
/// line and the step does nothing else.
pub open spec fn read_back(step: StepView) -> Option<Json> {
    if step.actions.len() == 1 {
        match step.actions[0] {
            ActionView::Send(line) => if is_line(line) {
                parsed(line.drop_last())
            } else {
                None
            },
            _ => None,
        }
    } else {
        None
    }
}

/// Whether a step sends a document where one is due, and it reads back as what
/// is to be sent: the question once there is a sidecar, that a turn is called
/// off, and what the user picked, unless the name of the choice, which is
/// echoed as it came, is a fraction or too deeply nested.
pub open spec fn sends_what_is_due(turn: TurnView, signal: SignalView, step: StepView) -> bool {
    match (turn.phase, signal) {
        (PhaseView::Starting, SignalView::SidecarReady) => {
            &&& read_back(step) is Some
            &&& asks_for(
                read_back(step)->0,
                turn.id,
                turn.question.text,
                turn.question.mode == Mode::Interactive,
                turn.question.search == Search::Fast,
            )
        },
        (PhaseView::Running, SignalView::Cancelled) => turn.cancelled || {
            &&& read_back(step) is Some
            &&& calls_off_turn(read_back(step)->0, turn.id)
        },
        (PhaseView::Running, SignalView::Event(SidecarEventView::Choice(choice), _)) =>
            choice.options.len() == 0 && choice.echo.is_exact(99) ==> {
            &&& read_back(step) is Some
            &&& settles(read_back(step)->0, turn.id, choice, None)
        },
        (PhaseView::Choosing(choice), SignalView::Answered(response)) => choice.echo.is_exact(
            99,
        ) ==> {
            &&& read_back(step) is Some
            &&& settles(read_back(step)->0, turn.id, choice, response)
        },
        _ => true,
    }
}

/// Whether a step on some results shows, as an agent message, lines of which one
/// is numbered for each call, with its rank and its title, and no other, and in
/// which it is noted that there are no calls exactly where there are none.
pub open spec fn shows_calls(
    turn: TurnView,
    signal: SignalView,
    id: Seq<char>,
    step: StepView,
) -> bool {
    match (turn.phase, signal) {
        (PhaseView::Running, SignalView::Event(SidecarEventView::Results(results), _)) => {
            exists|lines: Seq<Seq<char>>, at: Seq<int>|
                {
                    &&& step.actions == message_shown(id, joined(lines, "\n"@))
                    &&& #[trigger] has_headings(lines, results.rows, at)
                    &&& lines.contains("_No calls returned._"@) <==> results.rows.len() == 0
                }
        },
        _ => true,
    }
}

fn nothing() -> (step: Step)
    ensures
        step@ == (StepView { actions: Seq::empty(), outcome: None }),
{
    let actions: Vec<Action> = Vec::new();
    assert(contents(actions@) == Seq::<ActionView>::empty());
    Step { actions, outcome: None }
}

fn one(action: Action) -> (step: Step)
    ensures
        step@ == (StepView { actions: seq![action@], outcome: None }),
{
    let mut actions: Vec<Action> = Vec::new();
    actions.push(action);
    assert(contents(actions@) == seq![action@]);
    Step { actions, outcome: None }
}

fn saying(id: &str, text: &str) -> (step: Step)
    ensures
        step@ == (StepView { actions: message_shown(id@, text@), outcome: None }),
{
    let mut actions: Vec<Action> = Vec::new();
    emit_agent_message(&mut actions, id, text);
    assert(contents(actions@) == message_shown(id@, text@));
    Step { actions, outcome: None }
}

impl Turn {
    /// Begins a turn on what the user submitted, under the identifier
    /// `turn_id`.
    pub fn start(input: &Vec<TurnInput>, turn_id: String, id: String) -> (result: (Turn, Step))
        ensures
            (result.0@, result.1@) == first(contents(input@), turn_id@, id@),
            well_formed(result.0@),
    {
        let question = read_question(input);
        let mut turn = Turn {
            id: turn_id,
            question,
            phase: Phase::Starting,
            cancelled: false,
            open_stage: None,
        };
        if turn.question.text.as_str().is_empty() {
            let step = turn.fail(false, id.as_str(), "Ask a Gong retrieval question in natural language.");
            (turn, step)
        } else {
            (turn, nothing())
        }
    }

    /// Begins a turn on what the user submitted, under a new identifier.
    pub fn open(input: &Vec<TurnInput>) -> (result: (Turn, Step))
        ensures
            exists|turn_id: Seq<char>, id: Seq<char>|
                {
                    &&& is_random_id(turn_id)
                    &&& is_random_id(id)
                    &&& (result.0@, result.1@) == #[trigger] first(contents(input@), turn_id, id)
                },
            well_formed(result.0@),
    {
        let turn_id = fresh_id();
        let id = fresh_id();
        Turn::start(input, turn_id, id)
    }

    /// Ends the turn because of something that `text` explains, and gives up
    /// the sidecar where `dropping` says so.
    fn fail(&mut self, dropping: bool, id: &str, text: &str) -> (step: Step)
        ensures
            (final(self)@, step@) == fails(
                old(self)@,
                if dropping {
                    seq![ActionView::DropSidecar]
                } else {
                    Seq::empty()
                },
                id@,
                text@,
            ),
    {
        let mut actions: Vec<Action> = Vec::new();
        if dropping {
            actions.push(Action::DropSidecar);
        }
        let ghost before = contents(actions@);
        assert(before == if dropping {
            seq![ActionView::DropSidecar]
        } else {
            Seq::<ActionView>::empty()
        });
        emit_agent_message(&mut actions, id, text);
        self.phase = Phase::Done;
        Step { actions, outcome: Some(Outcome::Said(text.to_owned())) }
    }

    /// Ends the turn with the answer `text`.
    fn answer(&mut self, id: &str, text: &str) -> (step: Step)
        ensures
            (final(self)@, step@) == answers(old(self)@, id@, text@),
    {
        let mut step = saying(id, text);
        self.phase = Phase::Done;
        step.outcome = Some(
            if self.cancelled {
                Outcome::Aborted
            } else {
                Outcome::Quiet
            },
        );
        step
    }

    fn begin_stage(&mut self, stage: &str, id: String) -> (step: Step)
        ensures
            (final(self)@, step@) == on_event(
                old(self)@,
                SidecarEventView::StageBegin { stage: Some(stage@) },
                (FiguresView { latency: None, bytes: None, wall_ms: None }),
                id@,
            ),
    {
        let mut arguments = json::empty_object();
        json::put(&mut arguments, "stage", json::string(stage));
        let item = stage_item(id, stage_label(stage), arguments);
        let shown = item.copy();
        self.open_stage = Some(item);
        one(Action::ItemStarted(TurnItem::McpToolCall(shown)))
    }

    fn end_stage(&mut self, event: &StageEnd, figures: &Figures) -> (step: Step)
        ensures
            forall|id: Seq<char>|
                (final(self)@, step@) == #[trigger] on_event(
                    old(self)@,
                    SidecarEventView::StageEnd(event@),
                    figures@,
                    id,
                ),
            sends_requests(step@.actions, old(self)@.id),
    {
        match self.open_stage.take() {
            Some(item) => {
                let mut done = complete_stage_item(item, stage_detail(event, figures).as_str());
                if let Some(wall_ms) = figures.wall_ms {
                    done.duration_ms = Some(wall_ms);
                }
                one(Action::ItemCompleted(TurnItem::McpToolCall(done)))
            },
            None => nothing(),
        }
    }

    fn put_choice(&mut self, choice: Choice, id: String) -> (step: Step)
        ensures
            (final(self)@, step@) == on_event(
                old(self)@,
                SidecarEventView::Choice(choice@),
                (FiguresView { latency: None, bytes: None, wall_ms: None }),
                id@,
            ),
            sends_requests(step@.actions, old(self)@.id),
            choice@.options.len() == 0 && choice@.echo.is_exact(99) ==> {
                &&& read_back(step@) is Some
                &&& settles(read_back(step@)->0, old(self)@.id, choice@, None)
            },
    {
        match choice_request(&choice) {
            Some(args) => {
                self.phase = Phase::Choosing(choice);
                one(Action::AskUser { call_id: id, args })
            },
            None => {
                proof {
                    law_choose_settles(self.id@, choice@, None);
                }
                let line = choose_line(self.id.as_str(), &choice.echo, None);
                self.phase = Phase::Replying;
                one(Action::Send(line))
            },
        }
    }

    /// What the running turn does on an event, where `id` is a new identifier.
    fn handle_event(&mut self, event: SidecarEvent, figures: Figures, id: String) -> (step:
        Step)
        ensures
            (final(self)@, step@) == on_event(old(self)@, event@, figures@, id@),
            sends_requests(step@.actions, old(self)@.id),
            old(self)@.phase is Running ==> sends_what_is_due(
                old(self)@,
                SignalView::Event(event@, figures@),
                step@,
            ),
            shows_calls(old(self)@, SignalView::Event(event@, figures@), id@, step@),
    {
        match event {
            SidecarEvent::StageBegin { stage } => self.begin_stage(text_or(&stage, ""), id),
            SidecarEvent::StageEnd(end) => self.end_stage(&end, &figures),
            SidecarEvent::Plan(plan) => saying(id.as_str(), plan_markdown(&plan).as_str()),
            SidecarEvent::Pool { candidate_count } => match candidate_count {
                Some(count) => {
                    let detail = number(count).concat(" calls");
                    let mut step = nothing();
                    emit_completed_tool(&mut step.actions, id, "Candidate pool", detail.as_str());
                    step
                },
                None => nothing(),
            },
            SidecarEvent::Choice(choice) => self.put_choice(choice, id),
            SidecarEvent::Results(results) => {
                let text = results_markdown(&results, &figures);
                proof {
                    law_one_heading_each(results@, figures@);
                    let lines = results_lines(results@, figures@);
                    let at = choose|at: Seq<int>| has_headings(lines, results@.rows, at);
                    assert(has_headings(lines, results@.rows, at));
                }
                self.answer(id.as_str(), text.as_str())
            },
            SidecarEvent::Abstain { message } => {
                let text = "**Need more to go on.** ".to_owned().concat(text_or(&message, ""));
                self.answer(id.as_str(), text.as_str())
            },
            SidecarEvent::Error { message } => {
                if self.cancelled {
                    self.phase = Phase::Done;
                    let mut step = nothing();
                    step.outcome = Some(Outcome::Aborted);
                    step
                } else {
                    let text = "Retrieval failed: ".to_owned().concat(
                        text_or(&message, "unknown error"),
                    );
                    self.answer(id.as_str(), text.as_str())
                }
            },
            SidecarEvent::Other => nothing(),
        }
    }

    /// What the turn does on a signal, where `id` is a new identifier.
    pub fn step(&mut self, signal: Signal, id: String) -> (step: Step)
        ensures
            (final(self)@, step@) == next(old(self)@, signal@, id@),
            well_formed(old(self)@) ==> well_formed(final(self)@),
            sends_requests(step@.actions, old(self)@.id),
            sends_what_is_due(old(self)@, signal@, step@),
            shows_calls(old(self)@, signal@, id@, step@),
    {
        match (&self.phase, signal) {
            (Phase::Starting, Signal::SidecarReady) => {
                proof {
                    law_ask_asks(self.id@, self.question@);
                }
                let line = ask_line(self.id.as_str(), &self.question);
                self.phase = Phase::Asking;
                one(Action::Send(line))
            },
            (Phase::Starting, Signal::SidecarFailed(error)) => {
                let text = "Gong sidecar failed to start: ".to_owned().concat(error.as_str());
                self.fail(false, id.as_str(), text.as_str())
            },
            (Phase::Asking, Signal::Written) => {
                self.phase = Phase::Running;
                nothing()
            },
            (Phase::Asking, Signal::WriteFailed(error)) => {
                let text = "Gong sidecar is unreachable: ".to_owned().concat(error.as_str());
                self.fail(true, id.as_str(), text.as_str())
            },
            (Phase::Running, Signal::Cancelled) => {
                if self.cancelled {
                    nothing()
                } else {
                    self.cancelled = true;
                    proof {
                        law_cancel_calls_off(self.id@);
                    }
                    one(Action::Send(cancel_line(self.id.as_str())))
                }
            },
            (Phase::Running, Signal::Event(event, figures)) => self.handle_event(
                event,
                figures,
                id,
            ),
            (Phase::Running, Signal::Closed) => {
                if self.cancelled {
                    self.phase = Phase::Done;
                    let mut step = one(Action::DropSidecar);
                    step.outcome = Some(Outcome::Aborted);
                    step
                } else {
                    self.fail(true, id.as_str(), "Gong sidecar exited unexpectedly.")
                }
            },
            (Phase::Choosing(choice), Signal::Answered(response)) => {
                let selected = selected_option(choice, &response);
                proof {
                    law_choose_settles(self.id@, choice@, optional_response(response));
                }
                let line = choose_line(self.id.as_str(), &choice.echo, selected);
                self.phase = Phase::Replying;
                one(Action::Send(line))
            },
            (Phase::Replying, Signal::Written) => {
                self.phase = Phase::Running;
                nothing()
            },
            (Phase::Replying, Signal::WriteFailed(_)) => self.fail(
                true,
                id.as_str(),
                "Gong sidecar is unreachable.",
            ),
            _ => nothing(),
        }
    }

    /// What the turn does on a signal; what it shows gets a new identifier.
    pub fn advance(&mut self, signal: Signal) -> (step: Step)
        ensures
            exists|id: Seq<char>|
                {
                    &&& is_random_id(id)
                    &&& (final(self)@, step@) == #[trigger] next(old(self)@, signal@, id)
                },
            well_formed(old(self)@) ==> well_formed(final(self)@),
            sends_requests(step@.actions, old(self)@.id),
            sends_what_is_due(old(self)@, signal@, step@),
    {
        let id = fresh_id();
        self.step(signal, id)
    }
}

} // verus!
