//! The requests that go to the sidecar, one JSON object per line.

use vstd::prelude::*;
use crate::choice::{
    law_selection_is_picked, picks, selection, ChoiceView, RequestUserInputAnswerView,
};
use crate::json::{self, document, parsed, printed, Json};
use crate::question::{Mode, Question, QuestionView, Search};

verus! {

/// The version of the protocol that every request states.
pub const PROTOCOL_VERSION: u64 = 1;

/// What every request of the turn `turn_id` says.
pub open spec fn request(op: Seq<char>, turn_id: Seq<char>) -> Json {
    Json::Object(Map::empty()).with("v"@, Json::Integer(PROTOCOL_VERSION as int)).with(
        "op"@,
        Json::Text(op),
    ).with("id"@, Json::Text(turn_id))
}

/// The request that puts a question.
pub open spec fn ask(turn_id: Seq<char>, question: QuestionView) -> Json {
    request("ask"@, turn_id).with("question"@, Json::Text(question.text)).with(
        "mode"@,
        Json::Text(question.mode.spelled()),
    ).with("search"@, Json::Text(question.search.spelled()))
}

/// The request that calls a turn off.
pub open spec fn cancel(turn_id: Seq<char>) -> Json {
    request("cancel"@, turn_id)
}

/// The request that settles the choice named `choice_id`, for the option
/// `selected` or for the default.
pub open spec fn choose_option(turn_id: Seq<char>, choice_id: Json, selected: Option<int>) -> Json {
    request("choose"@, turn_id).with("choice_id"@, choice_id).with(
        "selected"@,
        match selected {
            Some(index) => Json::Integer(index),
            None => Json::Null,
        },
    )
}

/// A request as it is written: its JSON text and a line feed.
pub open spec fn framed(json: Json) -> Seq<char> {
    printed(json).push('\n')
}

/// Whether `line` is one line: it ends with a line feed and has no other.
pub open spec fn is_line(line: Seq<char>) -> bool {
    &&& line.len() > 0
    &&& line.last() == '\n'
    &&& forall|i: int| 0 <= i < line.len() - 1 ==> line[i] != '\n'
}

/// Whether `line` is one line that reads back as `json`.
pub open spec fn carries(line: Seq<char>, json: Json) -> bool {
    &&& is_line(line)
    &&& parsed(line.drop_last()) == Some(json)
}

/// Whether `line` is a request of the turn `turn_id`: one line with a JSON
/// object that names the turn, and that reads back unless it holds a number
/// that is rounded or is too deeply nested.
pub open spec fn is_request(line: Seq<char>, turn_id: Seq<char>) -> bool {
    &&& is_line(line)
    &&& exists|json: Json|
        {
            &&& line == #[trigger] framed(json)
            &&& json.field("id"@) == Json::Text(turn_id)
            &&& json.is_exact(100) ==> carries(line, json)
        }
}

/// The line that carries a request.
pub fn write_line(value: &serde_json::Value) -> (line: String)
    ensures
        line@ == framed(document(*value)),
        is_line(line@),
        document(*value).is_exact(100) ==> carries(line@, document(*value)),
{
    let mut line = json::print(value);
    let ghost text = line@;
    line.push('\n');
    assert(line@.drop_last() == text);
    assert forall|i: int| 0 <= i < line@.len() - 1 implies line@[i] != '\n' by {
        assert(line@[i] == text[i]);
    }
    line
}

fn request_value(op: &str, turn_id: &str) -> (value: serde_json::Value)
    ensures
        document(value) == request(op@, turn_id@),
{
    let mut value = json::empty_object();
    json::put(&mut value, "v", json::integer(PROTOCOL_VERSION));
    json::put(&mut value, "op", json::string(op));
    json::put(&mut value, "id", json::string(turn_id));
    value
}

proof fn lemma_with_exact(object: Json, key: Seq<char>, value: Json, depth: nat)
    requires
        object is Object,
        object.is_exact(depth),
        depth > 0,
        value.is_exact((depth - 1) as nat),
    ensures
        object.with(key, value).is_exact(depth),
{
}

proof fn lemma_request_exact(op: Seq<char>, turn_id: Seq<char>)
    ensures
        request(op, turn_id) is Object,
        request(op, turn_id).is_exact(100),
{
    let none = Json::Object(Map::empty());
    let version = none.with("v"@, Json::Integer(PROTOCOL_VERSION as int));
    lemma_with_exact(none, "v"@, Json::Integer(PROTOCOL_VERSION as int), 100);
    lemma_with_exact(version, "op"@, Json::Text(op), 100);
    lemma_with_exact(version.with("op"@, Json::Text(op)), "id"@, Json::Text(turn_id), 100);
}

/// The line that puts a question.
pub fn ask_line(turn_id: &str, question: &Question) -> (line: String)
    ensures
        line@ == framed(ask(turn_id@, question@)),
        carries(line@, ask(turn_id@, question@)),
        is_request(line@, turn_id@),
{
    let mut value = request_value("ask", turn_id);
    proof {
        law_ask_members(turn_id@, question@);
        let base = document(value);
        let text = Json::Text(question.text@);
        let mode = Json::Text(question.mode.spelled());
        let search = Json::Text(question.search.spelled());
        lemma_request_exact("ask"@, turn_id@);
        lemma_with_exact(base, "question"@, text, 100);
        lemma_with_exact(base.with("question"@, text), "mode"@, mode, 100);
        lemma_with_exact(
            base.with("question"@, text).with("mode"@, mode),
            "search"@,
            search,
            100,
        );
    }
    json::put(&mut value, "question", json::string(question.text.as_str()));
    json::put(&mut value, "mode", json::string(question.mode.name()));
    json::put(&mut value, "search", json::string(question.search.name()));
    write_line(&value)
}

/// The line that calls a turn off.
pub fn cancel_line(turn_id: &str) -> (line: String)
    ensures
        line@ == framed(cancel(turn_id@)),
        carries(line@, cancel(turn_id@)),
        is_request(line@, turn_id@),
{
    proof {
        law_cancel_members(turn_id@);
        lemma_request_exact("cancel"@, turn_id@);
    }
    write_line(&request_value("cancel", turn_id))
}

/// The index of an option as it is counted in a request.
pub open spec fn optional_index(index: Option<usize>) -> Option<int> {
    match index {
        Some(index) => Some(index as int),
        None => None,
    }
}

/// The line that settles a choice. It reads back as written unless the name of
/// the choice, which is echoed as it came, is a fraction or too deeply nested.
pub fn choose_line(
    turn_id: &str,
    choice_id: &serde_json::Value,
    selected: Option<usize>,
) -> (line: String)
    ensures
        line@ == framed(
            choose_option(turn_id@, document(*choice_id), optional_index(selected)),
        ),
        is_request(line@, turn_id@),
        document(*choice_id).is_exact(99) ==> carries(
            line@,
            choose_option(turn_id@, document(*choice_id), optional_index(selected)),
        ),
{
    let mut value = request_value("choose", turn_id);
    proof {
        law_choose_members(turn_id@, document(*choice_id), optional_index(selected));
        let base = document(value);
        let echo = document(*choice_id);
        let index = match optional_index(selected) {
            Some(index) => Json::Integer(index),
            None => Json::Null,
        };
        lemma_request_exact("choose"@, turn_id@);
        if echo.is_exact(99) {
            lemma_with_exact(base, "choice_id"@, echo, 100);
            lemma_with_exact(base.with("choice_id"@, echo), "selected"@, index, 100);
        }
    }
    json::put(&mut value, "choice_id", choice_id.clone());
    match selected {
        Some(index) => {
            json::put(&mut value, "selected", json::integer(index as u64));
        },
        None => {
            json::put(&mut value, "selected", json::null());
        },
    }
    write_line(&value)
}

/// The request that puts a question says which protocol and turn it belongs
/// to, and what the question and its control tokens asked for.
pub proof fn law_ask_members(turn_id: Seq<char>, question: QuestionView)
    ensures
        ask(turn_id, question).field("v"@) == Json::Integer(1),
        ask(turn_id, question).field("op"@) == Json::Text("ask"@),
        ask(turn_id, question).field("id"@) == Json::Text(turn_id),
        ask(turn_id, question).field("question"@) == Json::Text(question.text),
        ask(turn_id, question).field("mode"@) == Json::Text(question.mode.spelled()),
        ask(turn_id, question).field("search"@) == Json::Text(question.search.spelled()),
{
    lemma_keys_differ();
}

/// The request that calls a turn off says which turn it is.
pub proof fn law_cancel_members(turn_id: Seq<char>)
    ensures
        cancel(turn_id).field("v"@) == Json::Integer(1),
        cancel(turn_id).field("op"@) == Json::Text("cancel"@),
        cancel(turn_id).field("id"@) == Json::Text(turn_id),
{
    lemma_keys_differ();
}

/// The request that settles a choice says which turn and which choice it
/// belongs to, and which option was selected.
pub proof fn law_choose_members(turn_id: Seq<char>, choice_id: Json, selected: Option<int>)
    ensures
        choose_option(turn_id, choice_id, selected).field("v"@) == Json::Integer(1),
        choose_option(turn_id, choice_id, selected).field("op"@) == Json::Text("choose"@),
        choose_option(turn_id, choice_id, selected).field("id"@) == Json::Text(turn_id),
        choose_option(turn_id, choice_id, selected).field("choice_id"@) == choice_id,
        choose_option(turn_id, choice_id, selected).field("selected"@) == (match selected {
            Some(index) => Json::Integer(index),
            None => Json::Null,
        }),
{
    lemma_keys_differ();
}

/// Whether a document is an object with exactly these members.
pub open spec fn has_members(json: Json, keys: Seq<Seq<char>>) -> bool {
    match json {
        Json::Object(members) => forall|key: Seq<char>| #[trigger]
            members.contains_key(key) <==> keys.contains(key),
        _ => false,
    }
}

/// Whether a document asks the question `text` for the turn `turn_id`, in an
/// interactive run or a plain one, and with the fast search or the deep one.
pub open spec fn asks_for(
    json: Json,
    turn_id: Seq<char>,
    text: Seq<char>,
    interactive: bool,
    fast: bool,
) -> bool {
    &&& has_members(json, seq!["v"@, "op"@, "id"@, "question"@, "mode"@, "search"@])
    &&& json.field("v"@) == Json::Integer(1)
    &&& json.field("op"@) == Json::Text("ask"@)
    &&& json.field("id"@) == Json::Text(turn_id)
    &&& json.field("question"@) == Json::Text(text)
    &&& json.field("mode"@) == Json::Text(
        if interactive {
            "interactive"@
        } else {
            "run"@
        },
    )
    &&& json.field("search"@) == Json::Text(
        if fast {
            "fast"@
        } else {
            "deep"@
        },
    )
}

/// Whether a document settles `choice` for the turn `turn_id`: it echoes the
/// name of the choice and says which option the user picked, or `null` where
/// the user picked none.
pub open spec fn settles(
    json: Json,
    turn_id: Seq<char>,
    choice: ChoiceView,
    response: Option<Seq<RequestUserInputAnswerView>>,
) -> bool {
    &&& has_members(json, seq!["v"@, "op"@, "id"@, "choice_id"@, "selected"@])
    &&& json.field("v"@) == Json::Integer(1)
    &&& json.field("op"@) == Json::Text("choose"@)
    &&& json.field("id"@) == Json::Text(turn_id)
    &&& json.field("choice_id"@) == choice.echo
    &&& match json.field("selected"@) {
        Json::Integer(index) => picks(choice, response, index),
        Json::Null => forall|i: int| !picks(choice, response, i),
        _ => false,
    }
}

/// Whether a document calls off the turn `turn_id`.
pub open spec fn calls_off_turn(json: Json, turn_id: Seq<char>) -> bool {
    &&& has_members(json, seq!["v"@, "op"@, "id"@])
    &&& json.field("v"@) == Json::Integer(1)
    &&& json.field("op"@) == Json::Text("cancel"@)
    &&& json.field("id"@) == Json::Text(turn_id)
}

/// The request that puts a question asks for what the question asks for.
pub proof fn law_ask_asks(turn_id: Seq<char>, question: QuestionView)
    ensures
        asks_for(
            ask(turn_id, question),
            turn_id,
            question.text,
            question.mode == Mode::Interactive,
            question.search == Search::Fast,
        ),
{
    law_ask_members(turn_id, question);
    let keys = seq!["v"@, "op"@, "id"@, "question"@, "mode"@, "search"@];
    assert(keys[0] == "v"@ && keys[1] == "op"@ && keys[2] == "id"@);
    assert(keys[3] == "question"@ && keys[4] == "mode"@ && keys[5] == "search"@);
    assert(has_members(ask(turn_id, question), keys));
}

/// The request that calls a turn off does that.
pub proof fn law_cancel_calls_off(turn_id: Seq<char>)
    ensures
        calls_off_turn(cancel(turn_id), turn_id),
{
    law_cancel_members(turn_id);
    let keys = seq!["v"@, "op"@, "id"@];
    assert(keys[0] == "v"@ && keys[1] == "op"@ && keys[2] == "id"@);
    assert(has_members(cancel(turn_id), keys));
}

/// The request that settles a choice says what the user picked.
pub proof fn law_choose_settles(
    turn_id: Seq<char>,
    choice: ChoiceView,
    response: Option<Seq<RequestUserInputAnswerView>>,
)
    ensures
        settles(
            choose_option(turn_id, choice.echo, selection(choice, response)),
            turn_id,
            choice,
            response,
        ),
{
    law_choose_members(turn_id, choice.echo, selection(choice, response));
    law_selection_is_picked(choice, response);
    let keys = seq!["v"@, "op"@, "id"@, "choice_id"@, "selected"@];
    assert(keys[0] == "v"@ && keys[1] == "op"@ && keys[2] == "id"@);
    assert(keys[3] == "choice_id"@ && keys[4] == "selected"@);
    assert(has_members(choose_option(turn_id, choice.echo, selection(choice, response)), keys));
}

proof fn lemma_keys_differ()
    ensures
        "v"@.len() == 1,
        "op"@ != "id"@,
        "op"@.len() == 2,
        "id"@.len() == 2,
        "question"@ != "selected"@,
        "question"@.len() == 8,
        "selected"@.len() == 8,
        "mode"@.len() == 4,
        "search"@.len() == 6,
        "choice_id"@.len() == 9,
{
    reveal_strlit("v");
    reveal_strlit("op");
    reveal_strlit("id");
    reveal_strlit("question");
    reveal_strlit("selected");
    reveal_strlit("mode");
    reveal_strlit("search");
    reveal_strlit("choice_id");
    assert("op"@[0] != "id"@[0]);
    assert("question"@[0] != "selected"@[0]);
}

/// The line that puts a question reads back as what the question asks for.
pub proof fn law_asked_line_reads_back(turn_id: &str, question: &Question, line: String)
    requires
        call_ensures(ask_line, (turn_id, question), line),
    ensures
        is_line(line@),
        parsed(line@.drop_last()) is Some,
        asks_for(
            parsed(line@.drop_last())->0,
            turn_id@,
            question.text@,
            question.mode == Mode::Interactive,
            question.search == Search::Fast,
        ),
{
    law_ask_asks(turn_id@, question@);
}

/// The line that calls a turn off reads back as that.
pub proof fn law_cancel_line_reads_back(turn_id: &str, line: String)
    requires
        call_ensures(cancel_line, (turn_id,), line),
    ensures
        is_line(line@),
        parsed(line@.drop_last()) is Some,
        calls_off_turn(parsed(line@.drop_last())->0, turn_id@),
{
    law_cancel_calls_off(turn_id@);
}

} // verus!
