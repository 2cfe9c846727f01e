//! Choices that the sidecar leaves to the user.

use vstd::prelude::*;
use crate::json::{document, Json};
use crate::model::contents;
use crate::text::{optional, text_or, texts};

verus! {

/// One of the options of a choice.
pub struct ChoiceOption {
    pub label: Option<String>,
    pub description: Option<String>,
}

pub struct ChoiceOptionView {
    pub label: Option<Seq<char>>,
    pub description: Option<Seq<char>>,
}

impl View for ChoiceOption {
    type V = ChoiceOptionView;

    open spec fn view(&self) -> ChoiceOptionView {
        ChoiceOptionView { label: optional(self.label), description: optional(self.description) }
    }
}

/// A choice: its options, what to ask, and the name that the sidecar gave it,
/// both as a text where it is one and as it came.
pub struct Choice {
    pub options: Vec<ChoiceOption>,
    pub prompt: Option<String>,
    pub choice_id: Option<String>,
    pub echo: serde_json::Value,
}

pub struct ChoiceView {
    pub options: Seq<ChoiceOptionView>,
    pub prompt: Option<Seq<char>>,
    pub choice_id: Option<Seq<char>>,
    pub echo: Json,
}

impl View for Choice {
    type V = ChoiceView;

    open spec fn view(&self) -> ChoiceView {
        ChoiceView {
            options: contents(self.options@),
            prompt: optional(self.prompt),
            choice_id: optional(self.choice_id),
            echo: document(self.echo),
        }
    }
}

/// An option as the user sees it.
pub struct RequestUserInputQuestionOption {
    pub label: String,
    pub description: String,
}

pub struct RequestUserInputQuestionOptionView {
    pub label: Seq<char>,
    pub description: Seq<char>,
}

impl View for RequestUserInputQuestionOption {
    type V = RequestUserInputQuestionOptionView;

    open spec fn view(&self) -> RequestUserInputQuestionOptionView {
        RequestUserInputQuestionOptionView {
            label: self.label@,
            description: self.description@,
        }
    }
}

/// A question to the user.
pub struct RequestUserInputQuestion {
    pub id: String,
    pub header: String,
    pub question: String,
    pub is_other: bool,
    pub is_secret: bool,
    pub options: Option<Vec<RequestUserInputQuestionOption>>,
}

pub struct RequestUserInputQuestionView {
    pub id: Seq<char>,
    pub header: Seq<char>,
    pub question: Seq<char>,
    pub is_other: bool,
    pub is_secret: bool,
    pub options: Option<Seq<RequestUserInputQuestionOptionView>>,
}

impl View for RequestUserInputQuestion {
    type V = RequestUserInputQuestionView;

    open spec fn view(&self) -> RequestUserInputQuestionView {
        RequestUserInputQuestionView {
            id: self.id@,
            header: self.header@,
            question: self.question@,
            is_other: self.is_other,
            is_secret: self.is_secret,
            options: match self.options {
                Some(options) => Some(contents(options@)),
                None => None,
            },
        }
    }
}

/// Questions to the user, and how they are put.
pub struct RequestUserInputArgs {
    pub questions: Vec<RequestUserInputQuestion>,
    pub is_blocking: bool,
    pub auto_resolution_ms: Option<u64>,
}

pub struct RequestUserInputArgsView {
    pub questions: Seq<RequestUserInputQuestionView>,
    pub is_blocking: bool,
    pub auto_resolution_ms: Option<u64>,
}

impl View for RequestUserInputArgs {
    type V = RequestUserInputArgsView;

    open spec fn view(&self) -> RequestUserInputArgsView {
        RequestUserInputArgsView {
            questions: contents(self.questions@),
            is_blocking: self.is_blocking,
            auto_resolution_ms: self.auto_resolution_ms,
        }
    }
}

/// What the user answered to one question.
pub struct RequestUserInputAnswer {
    pub question_id: String,
    pub answers: Vec<String>,
}

pub struct RequestUserInputAnswerView {
    pub question_id: Seq<char>,
    pub answers: Seq<Seq<char>>,
}

impl View for RequestUserInputAnswer {
    type V = RequestUserInputAnswerView;

    open spec fn view(&self) -> RequestUserInputAnswerView {
        RequestUserInputAnswerView {
            question_id: self.question_id@,
            answers: texts(self.answers@),
        }
    }
}

/// What the user answered, question by question.
pub struct RequestUserInputResponse {
    pub answers: Vec<RequestUserInputAnswer>,
}

impl View for RequestUserInputResponse {
    type V = Seq<RequestUserInputAnswerView>;

    open spec fn view(&self) -> Seq<RequestUserInputAnswerView> {
        contents(self.answers@)
    }
}

/// The label under which an option is shown.
pub open spec fn option_label(option: ChoiceOptionView) -> Seq<char> {
    option.label.unwrap_or("(option)"@)
}

/// The labels of the options of a choice, in order.
pub open spec fn option_labels(choice: ChoiceView) -> Seq<Seq<char>> {
    choice.options.map_values(|option: ChoiceOptionView| option_label(option))
}

/// An option as it is put to the user.
pub open spec fn option_shown(option: ChoiceOptionView) -> RequestUserInputQuestionOptionView {
    RequestUserInputQuestionOptionView {
        label: option_label(option),
        description: option.description.unwrap_or(""@),
    }
}

/// The identifier of the question that a choice puts.
pub open spec fn question_id(choice: ChoiceView) -> Seq<char> {
    choice.choice_id.unwrap_or("gong-choice"@)
}

/// The question that a choice puts.
pub open spec fn question_put(choice: ChoiceView) -> RequestUserInputArgsView {
    RequestUserInputArgsView {
        questions: seq![
            RequestUserInputQuestionView {
                id: question_id(choice),
                header: "Disambiguate"@,
                question: choice.prompt.unwrap_or("Which did you mean?"@),
                is_other: false,
                is_secret: false,
                options: Some(
                    choice.options.map_values(|option: ChoiceOptionView| option_shown(option)),
                ),
            },
        ],
        is_blocking: true,
        auto_resolution_ms: None,
    }
}

/// The first answer to the question `id`.
pub open spec fn answer_to(response: Seq<RequestUserInputAnswerView>, id: Seq<char>) -> Option<
    Seq<char>,
>
    decreases response.len(),
{
    if response.len() == 0 {
        None
    } else if response.first().question_id == id {
        if response.first().answers.len() > 0 {
            Some(response.first().answers.first())
        } else {
            None
        }
    } else {
        answer_to(response.drop_first(), id)
    }
}

/// The index of the first of `labels` that is `label`.
pub open spec fn position_of(labels: Seq<Seq<char>>, label: Seq<char>) -> Option<int>
    decreases labels.len(),
{
    if labels.len() == 0 {
        None
    } else if labels.first() == label {
        Some(0)
    } else {
        match position_of(labels.drop_first(), label) {
            Some(index) => Some(index + 1),
            None => None,
        }
    }
}

/// The contents of a response that may be missing.
pub open spec fn optional_response(response: Option<RequestUserInputResponse>) -> Option<
    Seq<RequestUserInputAnswerView>,
> {
    match response {
        Some(response) => Some(response@),
        None => None,
    }
}

/// The index of the first option under the label that the user picked; `None`
/// where there is no answer, or it is not the label of an option.
pub open spec fn selection(
    choice: ChoiceView,
    response: Option<Seq<RequestUserInputAnswerView>>,
) -> Option<int> {
    match response {
        Some(response) => match answer_to(response, question_id(choice)) {
            Some(label) => position_of(option_labels(choice), label),
            None => None,
        },
        None => None,
    }
}

/// The question that a choice puts to the user; `None` where there is nothing
/// to choose from.
pub fn choice_request(choice: &Choice) -> (request: Option<RequestUserInputArgs>)
    ensures
        match request {
            Some(args) => choice@.options.len() > 0 && args@ == question_put(choice@),
            None => choice@.options.len() == 0,
        },
{
    if choice.options.len() == 0 {
        return None;
    }
    let mut options: Vec<RequestUserInputQuestionOption> = Vec::new();
    let mut i: usize = 0;
    while i < choice.options.len()
        invariant
            i <= choice.options@.len(),
            options@.len() == i,
            forall|j: int|
                0 <= j < i ==> (#[trigger] options@[j])@ == option_shown(choice.options@[j]@),
        decreases choice.options@.len() - i,
    {
        let option = &choice.options[i];
        options.push(
            RequestUserInputQuestionOption {
                label: text_or(&option.label, "(option)").to_owned(),
                description: text_or(&option.description, "").to_owned(),
            },
        );
        i = i + 1;
    }
    assert(contents(options@) == choice@.options.map_values(
        |option: ChoiceOptionView| option_shown(option),
    ));
    let mut questions: Vec<RequestUserInputQuestion> = Vec::new();
    questions.push(
        RequestUserInputQuestion {
            id: text_or(&choice.choice_id, "gong-choice").to_owned(),
            header: "Disambiguate".to_owned(),
            question: text_or(&choice.prompt, "Which did you mean?").to_owned(),
            is_other: false,
            is_secret: false,
            options: Some(options),
        },
    );
    assert(contents(questions@) == question_put(choice@).questions);
    Some(RequestUserInputArgs { questions, is_blocking: true, auto_resolution_ms: None })
}

fn first_answer<'a>(response: &'a RequestUserInputResponse, id: &str) -> (answer: Option<
    &'a String,
>)
    ensures
        match answer {
            Some(answer) => answer_to(response@, id@) == Some(answer@),
            None => answer_to(response@, id@) is None,
        },
{
    let mut i: usize = 0;
    assert(response@.skip(0) == response@);
    while i < response.answers.len()
        invariant
            i <= response.answers@.len(),
            answer_to(response@.skip(i as int), id@) == answer_to(response@, id@),
        decreases response.answers@.len() - i,
    {
        let answer = &response.answers[i];
        assert(response@.skip(i as int).first() == answer@);
        assert(response@.skip(i as int).drop_first() == response@.skip(i + 1));
        if answer.question_id.as_str().eq(id) {
            if answer.answers.len() > 0 {
                assert(answer@.answers.first() == answer.answers@[0]@);
                return Some(&answer.answers[0]);
            }
            return None;
        }
        i = i + 1;
    }
    None
}

/// The index of the option that the user picked. `None` keeps the default that
/// the sidecar recommends.
pub fn selected_option(choice: &Choice, response: &Option<RequestUserInputResponse>) -> (selected:
    Option<usize>)
    ensures
        match selected {
            Some(index) => selection(choice@, optional_response(*response)) == Some(index as int),
            None => selection(choice@, optional_response(*response)) is None,
        },
{
    let given = match response {
        Some(given) => given,
        None => {
            return None;
        },
    };
    let answer = match first_answer(given, text_or(&choice.choice_id, "gong-choice")) {
        Some(answer) => answer,
        None => {
            return None;
        },
    };
    let ghost labels = option_labels(choice@);
    let mut i: usize = 0;
    assert(labels.skip(0) == labels);
    while i < choice.options.len()
        invariant
            i <= choice.options@.len(),
            labels == option_labels(choice@),
            selection(choice@, optional_response(*response)) == position_of(labels, answer@),
            position_of(labels, answer@) == (match position_of(labels.skip(i as int), answer@) {
                Some(index) => Some(index + i),
                None => None,
            }),
        decreases choice.options@.len() - i,
    {
        assert(labels.skip(i as int).first() == option_label(choice.options@[i as int]@));
        assert(labels.skip(i as int).drop_first() == labels.skip(i + 1));
        if text_or(&choice.options[i].label, "(option)").eq(answer.as_str()) {
            return Some(i);
        }
        i = i + 1;
    }
    None
}

/// A label is found where it occurs, and where it occurs first.
pub proof fn law_first_position(labels: Seq<Seq<char>>, label: Seq<char>)
    ensures
        match position_of(labels, label) {
            Some(index) => {
                &&& 0 <= index < labels.len()
                &&& labels[index] == label
                &&& forall|i: int| 0 <= i < index ==> labels[i] != label
            },
            None => !labels.contains(label),
        },
    decreases labels.len(),
{
    if labels.len() > 0 && labels.first() != label {
        let rest = labels.drop_first();
        law_first_position(rest, label);
        match position_of(rest, label) {
            Some(index) => {
                assert forall|i: int| 0 <= i < index + 1 implies labels[i] != label by {
                    if i > 0 {
                        assert(labels[i] == rest[i - 1]);
                    }
                }
            },
            None => {
                if labels.contains(label) {
                    let i = choose|i: int| 0 <= i < labels.len() && labels[i] == label;
                    assert(rest[i - 1] == label);
                }
            },
        }
    }
}

/// What is selected is one of the options, and the user picked its label.
pub proof fn law_selection_is_an_option(
    choice: ChoiceView,
    response: Option<Seq<RequestUserInputAnswerView>>,
)
    ensures
        match selection(choice, response) {
            Some(index) => {
                &&& 0 <= index < choice.options.len()
                &&& response is Some
                &&& answer_to(response->0, question_id(choice)) == Some(
                    option_label(choice.options[index]),
                )
            },
            None => true,
        },
{
    if let Some(response) = response {
        if let Some(label) = answer_to(response, question_id(choice)) {
            law_first_position(option_labels(choice), label);
        }
    }
}

/// A user who picks the label of an option, as it was shown, selects an option
/// with that label; without an answer, the default is kept.
pub proof fn law_answer_selects(choice: ChoiceView, index: int)
    requires
        0 <= index < choice.options.len(),
    ensures
        ({
            let label = question_put(choice).questions[0].options->0[index].label;
            let response = seq![
                RequestUserInputAnswerView {
                    question_id: question_put(choice).questions[0].id,
                    answers: seq![label],
                },
            ];
            let selected = selection(choice, Some(response));
            selected is Some && option_label(choice.options[selected->0]) == label
        }),
        selection(choice, None) is None,
{
    let labels = option_labels(choice);
    let label = option_label(choice.options[index]);
    law_first_position(labels, label);
    assert(labels[index] == label);
    assert(labels.contains(label));
}

/// The label that the user sees for the option at `i`.
pub open spec fn label_seen(choice: ChoiceView, i: int) -> Seq<char> {
    match choice.options[i].label {
        Some(label) => label,
        None => "(option)"@,
    }
}

/// Whether the user picked the option at `i`: what is said first in the first
/// answer to the question of the choice is the label of that option, and no
/// option before it has that label.
pub open spec fn picks(
    choice: ChoiceView,
    response: Option<Seq<RequestUserInputAnswerView>>,
    i: int,
) -> bool {
    let asked = match choice.choice_id {
        Some(name) => name,
        None => "gong-choice"@,
    };
    &&& 0 <= i < choice.options.len()
    &&& forall|h: int| 0 <= h < i ==> #[trigger] label_seen(choice, h) != label_seen(choice, i)
    &&& response is Some
    &&& exists|j: int|
        {
            &&& 0 <= j < response->0.len()
            &&& (#[trigger] response->0[j]).question_id == asked
            &&& forall|h: int|
                0 <= h < j ==> (#[trigger] response->0[h]).question_id != asked
            &&& response->0[j].answers.len() > 0
            &&& response->0[j].answers[0] == label_seen(choice, i)
        }
}

/// The first answer to a question is that of the first entry for it.
proof fn lemma_first_answer(response: Seq<RequestUserInputAnswerView>, id: Seq<char>, j: int)
    requires
        0 <= j < response.len(),
        response[j].question_id == id,
        forall|h: int| 0 <= h < j ==> (#[trigger] response[h]).question_id != id,
    ensures
        answer_to(response, id) == if response[j].answers.len() > 0 {
            Some(response[j].answers[0])
        } else {
            None
        },
    decreases response.len(),
{
    if j > 0 {
        let rest = response.drop_first();
        assert(response[0].question_id != id);
        assert(rest[j - 1] == response[j]);
        assert forall|h: int| 0 <= h < j - 1 implies (#[trigger] rest[h]).question_id != id by {
            assert(rest[h] == response[h + 1]);
        }
        lemma_first_answer(rest, id, j - 1);
    }
}

/// An answer to a question comes from the first entry for it.
proof fn lemma_answer_given(response: Seq<RequestUserInputAnswerView>, id: Seq<char>) -> (j: int)
    requires
        answer_to(response, id) is Some,
    ensures
        0 <= j < response.len(),
        response[j].question_id == id,
        forall|h: int| 0 <= h < j ==> (#[trigger] response[h]).question_id != id,
        response[j].answers.len() > 0,
        response[j].answers[0] == answer_to(response, id)->0,
    decreases response.len(),
{
    if response.first().question_id == id {
        0
    } else {
        let rest = response.drop_first();
        let k = lemma_answer_given(rest, id);
        assert(rest[k] == response[k + 1]);
        assert forall|h: int| 0 <= h < k + 1 implies (#[trigger] response[h]).question_id != id by {
            if h > 0 {
                assert(response[h] == rest[h - 1]);
            }
        }
        k + 1
    }
}

/// What is selected is the option that the user picked, and nothing is selected
/// where the user picked none.
pub proof fn law_selection_is_picked(
    choice: ChoiceView,
    response: Option<Seq<RequestUserInputAnswerView>>,
)
    ensures
        match selection(choice, response) {
            Some(index) => picks(choice, response, index),
            None => forall|i: int| !picks(choice, response, i),
        },
{
    let labels = option_labels(choice);
    match selection(choice, response) {
        Some(index) => {
            let given = response->0;
            let label = answer_to(given, question_id(choice))->0;
            law_first_position(labels, label);
            let j = lemma_answer_given(given, question_id(choice));
            assert(labels[index] == label_seen(choice, index));
            assert(response->0[j].question_id == question_id(choice));
            assert forall|h: int| 0 <= h < index implies #[trigger] label_seen(choice, h)
                != label_seen(choice, index) by {
                assert(labels[h] == label_seen(choice, h));
            }
        },
        None => {
            assert forall|i: int| !picks(choice, response, i) by {
                if picks(choice, response, i) {
                    let given = response->0;
                    let id = question_id(choice);
                    let j = choose|j: int|
                        {
                            &&& 0 <= j < response->0.len()
                            &&& (#[trigger] response->0[j]).question_id == id
                            &&& forall|h: int|
                                0 <= h < j ==> (#[trigger] response->0[h]).question_id != id
                            &&& response->0[j].answers.len() > 0
                            &&& response->0[j].answers[0] == label_seen(choice, i)
                        };
                    lemma_first_answer(given, id, j);
                    law_first_position(labels, label_seen(choice, i));
                    assert(labels[i] == label_seen(choice, i));
                    assert(labels.contains(label_seen(choice, i)));
                }
            }
        },
    }
}

/// The user picks one option at most.
pub proof fn law_one_option_is_picked(
    choice: ChoiceView,
    response: Option<Seq<RequestUserInputAnswerView>>,
    i: int,
    k: int,
)
    requires
        picks(choice, response, i),
        picks(choice, response, k),
    ensures
        i == k,
{
    let given = response->0;
    let id = question_id(choice);
    let j = choose|j: int|
        {
            &&& 0 <= j < response->0.len()
            &&& (#[trigger] response->0[j]).question_id == id
            &&& forall|h: int| 0 <= h < j ==> (#[trigger] response->0[h]).question_id != id
            &&& response->0[j].answers.len() > 0
            &&& response->0[j].answers[0] == label_seen(choice, i)
        };
    let l = choose|j: int|
        {
            &&& 0 <= j < response->0.len()
            &&& (#[trigger] response->0[j]).question_id == id
            &&& forall|h: int| 0 <= h < j ==> (#[trigger] response->0[h]).question_id != id
            &&& response->0[j].answers.len() > 0
            &&& response->0[j].answers[0] == label_seen(choice, k)
        };
    assert(given[j].question_id == id && given[l].question_id == id);
    assert(j == l);
    assert(label_seen(choice, i) == label_seen(choice, k));
}

/// The question that a choice puts shows each option under its label and with
/// its description, in order, and asks what the choice asks.
pub proof fn law_question_shows_options(choice: ChoiceView)
    ensures
        ({
            let args = question_put(choice);
            &&& args.is_blocking
            &&& args.auto_resolution_ms is None
            &&& args.questions.len() == 1
            &&& choice.choice_id is Some ==> args.questions[0].id == choice.choice_id->0
            &&& choice.choice_id is None ==> args.questions[0].id == "gong-choice"@
            &&& args.questions[0].header == "Disambiguate"@
            &&& choice.prompt is Some ==> args.questions[0].question == choice.prompt->0
            &&& choice.prompt is None ==> args.questions[0].question == "Which did you mean?"@
            &&& !args.questions[0].is_other
            &&& !args.questions[0].is_secret
            &&& args.questions[0].options is Some
            &&& args.questions[0].options->0.len() == choice.options.len()
            &&& forall|i: int|
                0 <= i < choice.options.len() ==> {
                    let put = #[trigger] args.questions[0].options->0[i];
                    &&& put.label == label_seen(choice, i)
                    &&& choice.options[i].description is Some ==> put.description
                        == choice.options[i].description->0
                    &&& choice.options[i].description is None ==> put.description.len() == 0
                }
        }),
{
    reveal_strlit("");
    assert(""@.len() == 0);
}

/// The index that is found for an answer is that of the option that the user
/// picked, and none is found where the user picked none.
pub proof fn law_found_is_picked(
    choice: &Choice,
    response: &Option<RequestUserInputResponse>,
    selected: Option<usize>,
)
    requires
        call_ensures(selected_option, (choice, response), selected),
    ensures
        match selected {
            Some(index) => picks(choice@, optional_response(*response), index as int),
            None => forall|i: int| !picks(choice@, optional_response(*response), i),
        },
{
    law_selection_is_picked(choice@, optional_response(*response));
}

} // verus!
