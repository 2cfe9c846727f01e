use gong::choice::{
    choice_request, selected_option, Choice, ChoiceOption, RequestUserInputAnswer,
    RequestUserInputResponse,
};
use serde_json::Value;

fn some(text: &str) -> Option<String> {
    Some(text.to_string())
}

fn choice() -> Choice {
    Choice {
        options: vec![
            ChoiceOption { label: some("Acme"), description: some("the company") },
            ChoiceOption { label: None, description: None },
            ChoiceOption { label: some("Acme"), description: some("the product") },
        ],
        prompt: None,
        choice_id: some("c1"),
        echo: Value::from("c1"),
    }
}

fn response(question_id: &str, answers: &[&str]) -> Option<RequestUserInputResponse> {
    Some(RequestUserInputResponse {
        answers: vec![
            RequestUserInputAnswer { question_id: "other".to_string(), answers: Vec::new() },
            RequestUserInputAnswer {
                question_id: question_id.to_string(),
                answers: answers.iter().map(|answer| answer.to_string()).collect(),
            },
        ],
    })
}

#[test]
fn choice_is_put_as_one_question() {
    let args = choice_request(&choice()).unwrap();
    assert!(args.is_blocking);
    assert_eq!(args.auto_resolution_ms, None);
    assert_eq!(args.questions.len(), 1);
    let question = &args.questions[0];
    assert_eq!(question.id, "c1");
    assert_eq!(question.header, "Disambiguate");
    assert_eq!(question.question, "Which did you mean?");
    assert!(!question.is_other);
    assert!(!question.is_secret);
    let options = question.options.as_ref().unwrap();
    assert_eq!(options.len(), 3);
    assert_eq!(options[0].label, "Acme");
    assert_eq!(options[0].description, "the company");
    assert_eq!(options[1].label, "(option)");
    assert_eq!(options[1].description, "");
}

#[test]
fn prompt_and_name_of_a_choice_have_defaults() {
    let mut given = choice();
    given.prompt = some("Which Acme?");
    given.choice_id = None;
    let args = choice_request(&given).unwrap();
    assert_eq!(args.questions[0].question, "Which Acme?");
    assert_eq!(args.questions[0].id, "gong-choice");
    assert_eq!(selected_option(&given, &response("gong-choice", &["(option)"])), Some(1));
}

#[test]
fn nothing_to_choose_from_is_not_asked() {
    let mut given = choice();
    given.options.clear();
    assert!(choice_request(&given).is_none());
}

#[test]
fn first_option_with_the_label_is_selected() {
    assert_eq!(selected_option(&choice(), &response("c1", &["Acme"])), Some(0));
    assert_eq!(selected_option(&choice(), &response("c1", &["(option)", "Acme"])), Some(1));
}

#[test]
fn default_is_kept_without_a_usable_answer() {
    assert_eq!(selected_option(&choice(), &None), None);
    assert_eq!(selected_option(&choice(), &response("c2", &["Acme"])), None);
    assert_eq!(selected_option(&choice(), &response("c1", &[])), None);
    assert_eq!(selected_option(&choice(), &response("c1", &["acme"])), None);
}
