//! What the sidecar is sent, and what a turn says where that fails.

use vstd::prelude::*;
use crate::choice::{label_seen, picks, selection, ChoiceView, RequestUserInputAnswerView};
use crate::events::SidecarEventView;
use crate::items::{message_shown, ActionView};
use crate::json::{printed, Json};
use crate::model::contents;
use crate::question::{
    law_any_tokens_are_read, law_read_as_one_text, lines_of, submission, typed, Mode, Search,
    TurnInput, TurnInputView,
};
use crate::requests::{
    ask, asks_for, calls_off_turn, cancel, choose_option, law_ask_asks, law_cancel_calls_off,
    law_choose_settles, settles,
};
use crate::shown::{heard, items_at, law_choice_is_put, says, tells, text_under};
use crate::stages::FiguresView;
use crate::text::{is_blank, white_space};
use crate::turn::{
    first, next, read_back, sends_what_is_due, OutcomeView, PhaseView, SignalView, Step, StepView,
    Turn, TurnView,
};

verus! {

/// Whether a step sends `json` as one line, does nothing else and leaves the
/// turn to go on.
pub open spec fn sends(step: StepView, json: Json) -> bool {
    &&& step.actions == seq![ActionView::Send(printed(json) + seq!['\n'])]
    &&& step.outcome is None
}

/// Whether a step does nothing.
pub open spec fn is_idle(step: StepView) -> bool {
    step.actions.len() == 0 && step.outcome is None
}

proof fn lemma_sends(step: StepView, json: Json)
    requires
        step.actions == seq![ActionView::Send(printed(json).push('\n'))],
        step.outcome is None,
    ensures
        sends(step, json),
{
    assert(printed(json).push('\n') == printed(json) + seq!['\n']);
}

/// Whether a turn that has just begun waits for a sidecar, with nothing open
/// and nothing done.
pub open spec fn has_begun(turn: TurnView, step: StepView, turn_id: Seq<char>) -> bool {
    &&& turn.id == turn_id
    &&& turn.phase is Starting
    &&& !turn.cancelled
    &&& turn.open_stage is None
    &&& is_idle(step)
}

/// A user who submits a question behind any tokens, and with any white space
/// around it and them, has it asked once there is a sidecar: without the white
/// space and the tokens, in an interactive run exactly if a token asked for
/// one, and with the fast search exactly if a token asked for that. A user who
/// submits nothing else is told to ask something.
pub proof fn law_submission_is_asked(
    front: Seq<char>,
    tokens: Seq<bool>,
    gaps: Seq<Seq<char>>,
    text: Seq<char>,
    back: Seq<char>,
    turn_id: Seq<char>,
    id: Seq<char>,
    later: Seq<char>,
)
    requires
        is_blank(front),
        is_blank(back),
        gaps.len() == tokens.len(),
        forall|i: int| 0 <= i < gaps.len() ==> is_blank(#[trigger] gaps[i]),
        text.len() > 0 ==> !white_space(text.first()) && !white_space(text.last()),
        text.len() == 0 ==> back.len() == 0,
        !"[gong:interactive] "@.is_prefix_of(text + back),
        !"[gong:fast] "@.is_prefix_of(text + back),
    ensures
        ({
            let input = submission(front + typed(tokens, gaps, text + back));
            let (turn, begun) = first(input, turn_id, id);
            let (asked, step) = next(turn, SignalView::SidecarReady, later);
            if text.len() > 0 {
                &&& has_begun(turn, begun, turn_id)
                &&& exists|json: Json|
                    {
                        &&& sends(step, json)
                        &&& #[trigger] asks_for(
                            json,
                            turn_id,
                            text,
                            tokens.contains(true),
                            tokens.contains(false),
                        )
                    }
                &&& asked == TurnView { phase: PhaseView::Asking, ..turn }
            } else {
                let told = "Ask a Gong retrieval question in natural language."@;
                &&& says(begun, id, told)
                &&& begun.outcome == Some(OutcomeView::Said(told))
                &&& turn.phase is Done
                &&& is_idle(step)
            }
        }),
{
    let input = submission(front + typed(tokens, gaps, text + back));
    let (turn, begun) = first(input, turn_id, id);
    let (asked, step) = next(turn, SignalView::SidecarReady, later);
    law_any_tokens_are_read(front, tokens, gaps, text, back);
    if text.len() > 0 {
        law_ask_asks(turn_id, turn.question);
        lemma_sends(step, ask(turn_id, turn.question));
        assert(asks_for(
            ask(turn_id, turn.question),
            turn_id,
            text,
            tokens.contains(true),
            tokens.contains(false),
        ));
    } else {
        let told = "Ask a Gong retrieval question in natural language."@;
        assert(says(begun, id, told));
    }
}

/// What is sent for a question that was submitted behind any tokens reads back
/// as that question, with what the tokens asked for.
pub proof fn law_submission_reads_back(
    front: Seq<char>,
    tokens: Seq<bool>,
    gaps: Seq<Seq<char>>,
    text: Seq<char>,
    back: Seq<char>,
    turn_id: Seq<char>,
    id: Seq<char>,
    step: StepView,
)
    requires
        is_blank(front),
        is_blank(back),
        gaps.len() == tokens.len(),
        forall|i: int| 0 <= i < gaps.len() ==> is_blank(#[trigger] gaps[i]),
        text.len() > 0,
        !white_space(text.first()),
        !white_space(text.last()),
        !"[gong:interactive] "@.is_prefix_of(text + back),
        !"[gong:fast] "@.is_prefix_of(text + back),
        sends_what_is_due(
            first(submission(front + typed(tokens, gaps, text + back)), turn_id, id).0,
            SignalView::SidecarReady,
            step,
        ),
    ensures
        read_back(step) is Some,
        asks_for(
            read_back(step)->0,
            turn_id,
            text,
            tokens.contains(true),
            tokens.contains(false),
        ),
{
    law_any_tokens_are_read(front, tokens, gaps, text, back);
}

/// A turn that begins on several texts begins as on one that has them line by
/// line.
pub proof fn law_texts_are_asked_as_one(
    input: Seq<TurnInputView>,
    turn_id: Seq<char>,
    id: Seq<char>,
)
    ensures
        first(input, turn_id, id) == first(submission(lines_of(input)), turn_id, id),
{
    law_read_as_one_text(input, lines_of(input));
}

/// Once there is a sidecar, a turn sends its question and waits for it to be
/// written.
pub proof fn law_question_is_sent(turn: TurnView, id: Seq<char>)
    requires
        turn.phase is Starting,
    ensures
        ({
            let (after, step) = next(turn, SignalView::SidecarReady, id);
            &&& exists|json: Json|
                {
                    &&& #[trigger] sends(step, json)
                    &&& asks_for(
                        json,
                        turn.id,
                        turn.question.text,
                        turn.question.mode == Mode::Interactive,
                        turn.question.search == Search::Fast,
                    )
                }
            &&& after == TurnView { phase: PhaseView::Asking, ..turn }
        }),
{
    law_ask_asks(turn.id, turn.question);
    lemma_sends(next(turn, SignalView::SidecarReady, id).1, ask(turn.id, turn.question));
}

/// A running turn that is called off tells the sidecar, the first time, and goes
/// on listening.
pub proof fn law_cancel_is_sent(turn: TurnView, id: Seq<char>)
    requires
        turn.phase is Running,
    ensures
        ({
            let (after, step) = next(turn, SignalView::Cancelled, id);
            &&& if turn.cancelled {
                is_idle(step)
            } else {
                exists|json: Json| sends(step, json) && #[trigger] calls_off_turn(json, turn.id)
            }
            &&& after == TurnView { cancelled: true, ..turn }
        }),
{
    law_cancel_calls_off(turn.id);
    if !turn.cancelled {
        lemma_sends(next(turn, SignalView::Cancelled, id).1, cancel(turn.id));
    }
}

/// Once the user has answered, the sidecar is sent which option was picked, or
/// that none was, and the turn waits for that to be written.
pub proof fn law_pick_is_sent(
    turn: TurnView,
    choice: ChoiceView,
    response: Option<Seq<RequestUserInputAnswerView>>,
    id: Seq<char>,
)
    requires
        turn.phase == PhaseView::Choosing(choice),
    ensures
        ({
            let (after, step) = next(turn, SignalView::Answered(response), id);
            &&& exists|json: Json|
                sends(step, json) && #[trigger] settles(json, turn.id, choice, response)
            &&& after == TurnView { phase: PhaseView::Replying, ..turn }
        }),
{
    law_choose_settles(turn.id, choice, response);
    lemma_sends(
        next(turn, SignalView::Answered(response), id).1,
        choose_option(turn.id, choice.echo, selection(choice, response)),
    );
}

/// A choice without options is settled at once: no option is picked.
pub proof fn law_no_options_are_settled(
    turn: TurnView,
    choice: ChoiceView,
    figures: FiguresView,
    id: Seq<char>,
)
    requires
        turn.phase is Running,
        choice.options.len() == 0,
    ensures
        ({
            let (after, step) = next(
                turn,
                SignalView::Event(SidecarEventView::Choice(choice), figures),
                id,
            );
            &&& exists|json: Json|
                {
                    &&& sends(step, json)
                    &&& #[trigger] settles(json, turn.id, choice, None)
                    &&& json.field("selected"@) is Null
                }
            &&& after == TurnView { phase: PhaseView::Replying, ..turn }
        }),
{
    law_choose_settles(turn.id, choice, None);
    lemma_sends(
        next(turn, SignalView::Event(SidecarEventView::Choice(choice), figures), id).1,
        choose_option(turn.id, choice.echo, None),
    );
}

/// A choice with options waits for the user as it came.
pub proof fn law_choice_waits(
    turn: TurnView,
    choice: ChoiceView,
    figures: FiguresView,
    id: Seq<char>,
)
    requires
        turn.phase is Running,
        choice.options.len() > 0,
    ensures
        next(turn, SignalView::Event(SidecarEventView::Choice(choice), figures), id).0
            == (TurnView { phase: PhaseView::Choosing(choice), ..turn }),
{
}

/// Whether the option at `i` is the first of `options` that was shown under
/// `label`.
pub open spec fn is_first_under(options: Seq<Json>, label: Seq<char>, i: int) -> bool {
    &&& 0 <= i < options.len()
    &&& text_under(options[i], "label"@, "(option)"@) == label
    &&& forall|h: int|
        0 <= h < i ==> text_under(#[trigger] options[h], "label"@, "(option)"@) != label
}

/// A user who answers the question of a choice with a label that was shown has
/// the first option under that label sent back by its index, and one who says
/// anything else has `null` sent back, in either case under the name that the
/// sidecar gave the choice.
pub proof fn law_answer_goes_back(
    turn: TurnView,
    json: Json,
    figures: FiguresView,
    id: Seq<char>,
    answers: Seq<Seq<char>>,
    later: Seq<char>,
)
    requires
        tells(turn, json, "choice"@),
        items_at(json, "options"@).len() > 0,
        answers.len() > 0,
    ensures
        ({
            let options = items_at(json, "options"@);
            let (asked, put) = heard(turn, json, figures, id);
            let response = seq![
                RequestUserInputAnswerView {
                    question_id: put.actions[0]->args.questions[0].id,
                    answers,
                },
            ];
            let step = next(asked, SignalView::Answered(Some(response)), later).1;
            exists|reply: Json|
                {
                    &&& #[trigger] sends(step, reply)
                    &&& reply.field("op"@) == Json::Text("choose"@)
                    &&& reply.field("id"@) == Json::Text(turn.id)
                    &&& reply.field("choice_id"@) == json.field("choice_id"@)
                    &&& match reply.field("selected"@) {
                        Json::Integer(i) => is_first_under(options, answers[0], i),
                        Json::Null => forall|i: int| !is_first_under(options, answers[0], i),
                        _ => false,
                    }
                }
        }),
{
    let options = items_at(json, "options"@);
    let (asked, put) = heard(turn, json, figures, id);
    law_choice_is_put(turn, json, figures, id);
    let question = put.actions[0]->args.questions[0].id;
    let entry = RequestUserInputAnswerView { question_id: question, answers };
    let response = seq![entry];
    let step = next(asked, SignalView::Answered(Some(response)), later).1;
    match asked.phase {
        PhaseView::Choosing(choice) => {
            law_pick_is_sent(asked, choice, Some(response), later);
            let reply = choose|reply: Json|
                sends(step, reply) && #[trigger] settles(reply, turn.id, choice, Some(response));
            match reply.field("selected"@) {
                Json::Integer(i) => {
                    lemma_picks_alone(choice, options, question, answers, i);
                },
                _ => {
                    assert forall|i: int| !is_first_under(options, answers[0], i) by {
                        lemma_picks_alone(choice, options, question, answers, i);
                        assert(!picks(choice, Some(response), i));
                    }
                },
            }
            assert(sends(step, reply));
        },
        _ => {},
    }
}

proof fn lemma_picks_alone(
    choice: ChoiceView,
    options: Seq<Json>,
    question: Seq<char>,
    answers: Seq<Seq<char>>,
    i: int,
)
    requires
        choice.options.len() == options.len(),
        forall|h: int|
            0 <= h < options.len() ==> (#[trigger] choice.options[h]).label == options[h].field(
                "label"@,
            ).text(),
        question == match choice.choice_id {
            Some(name) => name,
            None => "gong-choice"@,
        },
        answers.len() > 0,
    ensures
        picks(
            choice,
            Some(seq![RequestUserInputAnswerView { question_id: question, answers }]),
            i,
        ) <==> is_first_under(options, answers[0], i),
{
    let entry = RequestUserInputAnswerView { question_id: question, answers };
    let response = Some(seq![entry]);
    assert forall|h: int| 0 <= h < options.len() implies #[trigger] label_seen(choice, h)
        == text_under(options[h], "label"@, "(option)"@) by {
        assert(choice.options[h].label == options[h].field("label"@).text());
    }
    assert(response->0[0] == entry);
    if is_first_under(options, answers[0], i) {
        assert(label_seen(choice, i) == answers[0]);
        assert forall|h: int| 0 <= h < i implies #[trigger] label_seen(choice, h) != label_seen(
            choice,
            i,
        ) by {
            assert(text_under(options[h], "label"@, "(option)"@) != answers[0]);
        }
    }
    if picks(choice, response, i) {
        assert(label_seen(choice, i) == answers[0]);
        assert forall|h: int| 0 <= h < i implies text_under(
            #[trigger] options[h],
            "label"@,
            "(option)"@,
        ) != answers[0] by {
            assert(label_seen(choice, h) != label_seen(choice, i));
        }
    }
}

/// What was sent and has been written leaves the turn to listen.
pub proof fn law_written_is_listened(turn: TurnView, id: Seq<char>)
    requires
        turn.phase is Asking || turn.phase is Replying,
    ensures
        next(turn, SignalView::Written, id).0 == (TurnView { phase: PhaseView::Running, ..turn }),
        is_idle(next(turn, SignalView::Written, id).1),
{
}

/// Whether a step gives up the sidecar where `dropping` says so, shows one agent
/// message, which says `text`, and ends the turn with that.
pub open spec fn explains(step: StepView, dropping: bool, id: Seq<char>, text: Seq<char>) -> bool {
    let before: int = if dropping {
        1
    } else {
        0
    };
    &&& step.actions.len() == before + 2
    &&& dropping ==> step.actions[0] is DropSidecar
    &&& says(StepView { actions: step.actions.skip(before), ..step }, id, text)
    &&& step.outcome == Some(OutcomeView::Said(text))
}

/// A turn that cannot reach its sidecar is over, and it says so, with the reason
/// where there is one. A turn that was called off says nothing where the output
/// of the sidecar ends.
pub proof fn law_lost_sidecar_is_explained(turn: TurnView, reason: Seq<char>, id: Seq<char>)
    ensures
        turn.phase is Starting ==> {
            let (after, step) = next(turn, SignalView::SidecarFailed(reason), id);
            &&& after == TurnView { phase: PhaseView::Done, ..turn }
            &&& explains(step, false, id, "Gong sidecar failed to start: "@ + reason)
        },
        turn.phase is Asking ==> {
            let (after, step) = next(turn, SignalView::WriteFailed(reason), id);
            &&& after == TurnView { phase: PhaseView::Done, ..turn }
            &&& explains(step, true, id, "Gong sidecar is unreachable: "@ + reason)
        },
        turn.phase is Replying ==> {
            let (after, step) = next(turn, SignalView::WriteFailed(reason), id);
            &&& after == TurnView { phase: PhaseView::Done, ..turn }
            &&& explains(step, true, id, "Gong sidecar is unreachable."@)
        },
        turn.phase is Running ==> {
            let (after, step) = next(turn, SignalView::Closed, id);
            &&& after == TurnView { phase: PhaseView::Done, ..turn }
            &&& if turn.cancelled {
                &&& step.actions == seq![ActionView::DropSidecar]
                &&& step.outcome == Some(OutcomeView::Aborted)
            } else {
                explains(step, true, id, "Gong sidecar exited unexpectedly."@)
            }
        },
{
    if turn.phase is Starting {
        let step = next(turn, SignalView::SidecarFailed(reason), id).1;
        lemma_explains(step, 0, id, "Gong sidecar failed to start: "@ + reason);
    } else if turn.phase is Asking {
        let step = next(turn, SignalView::WriteFailed(reason), id).1;
        lemma_explains(step, 1, id, "Gong sidecar is unreachable: "@ + reason);
    } else if turn.phase is Replying {
        let step = next(turn, SignalView::WriteFailed(reason), id).1;
        lemma_explains(step, 1, id, "Gong sidecar is unreachable."@);
    } else if turn.phase is Running && !turn.cancelled {
        let step = next(turn, SignalView::Closed, id).1;
        lemma_explains(step, 1, id, "Gong sidecar exited unexpectedly."@);
    }
}

proof fn lemma_explains(step: StepView, before: int, id: Seq<char>, text: Seq<char>)
    requires
        before == 0 || before == 1,
        step.actions == (if before == 1 {
            seq![ActionView::DropSidecar]
        } else {
            Seq::empty()
        }) + message_shown(id, text),
    ensures
        step.actions.len() == before + 2,
        before == 1 ==> step.actions[0] is DropSidecar,
        says(StepView { actions: step.actions.skip(before), ..step }, id, text),
{
    assert(step.actions.skip(before) == message_shown(id, text));
}

/// Whether a turn in this phase waits for such a signal.
pub open spec fn waits_for(phase: PhaseView, signal: SignalView) -> bool {
    match phase {
        PhaseView::Starting => signal is SidecarReady || signal is SidecarFailed,
        PhaseView::Asking => signal is Written || signal is WriteFailed,
        PhaseView::Running => signal is Cancelled || signal is Event || signal is Closed,
        PhaseView::Choosing(_) => signal is Answered,
        PhaseView::Replying => signal is Written || signal is WriteFailed,
        PhaseView::Done => false,
    }
}

/// A signal that a turn does not wait for changes nothing.
pub proof fn law_other_signals_change_nothing(turn: TurnView, signal: SignalView, id: Seq<char>)
    requires
        !waits_for(turn.phase, signal),
    ensures
        next(turn, signal, id).0 == turn,
        is_idle(next(turn, signal, id).1),
{
}

/// A turn that is started on a question behind any tokens waits for a sidecar
/// with that question, and with what the tokens asked for.
pub proof fn law_started_turn_asks(
    input: &Vec<TurnInput>,
    turn_id: String,
    id: String,
    result: (Turn, Step),
    front: Seq<char>,
    tokens: Seq<bool>,
    gaps: Seq<Seq<char>>,
    text: Seq<char>,
    back: Seq<char>,
)
    requires
        call_ensures(Turn::start, (input, turn_id, id), result),
        contents(input@) == submission(front + typed(tokens, gaps, text + back)),
        is_blank(front),
        is_blank(back),
        gaps.len() == tokens.len(),
        forall|i: int| 0 <= i < gaps.len() ==> is_blank(#[trigger] gaps[i]),
        text.len() > 0,
        !white_space(text.first()),
        !white_space(text.last()),
        !"[gong:interactive] "@.is_prefix_of(text + back),
        !"[gong:fast] "@.is_prefix_of(text + back),
    ensures
        has_begun(result.0@, result.1@, turn_id@),
        result.0.question.text@ == text,
        result.0.question.mode == Mode::Interactive <==> tokens.contains(true),
        result.0.question.search == Search::Fast <==> tokens.contains(false),
{
    law_any_tokens_are_read(front, tokens, gaps, text, back);
    assert((result.0@, result.1@) == first(contents(input@), turn_id@, id@));
    assert(result.0@.question.text == result.0.question.text@);
}

} // verus!
