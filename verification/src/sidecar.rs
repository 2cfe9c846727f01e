//! The sidecar process: whether there is one to run, how it is started, and
//! when it is ready.

use vstd::prelude::*;
use crate::events::{is_ready, says_ready};
use crate::json::{self, parsed, Json};
use crate::text::{
    is_blank, joined, law_one_word, law_trimmed, law_words_apart, lemma_words_of_blank,
    split_whitespace, texts, trim, trimmed, white_space, words,
};

verus! {

/// Environment variable with the sidecar's command line.
pub const SIDECAR_ENV: &'static str = "CODEX_GONG_SIDECAR";

/// Environment variable with the sidecar's working directory.
pub const SIDECAR_CWD_ENV: &'static str = "CODEX_GONG_CWD";

/// Why there is no sidecar.
#[derive(Clone, Copy, Debug, PartialEq, Eq, Structural)]
pub enum SidecarError {
    /// The command line names no program.
    EmptyCommand,
    /// The process ended before it was ready.
    ExitedEarly,
}

impl SidecarError {
    /// What is said of the error.
    pub open spec fn spelled(self) -> Seq<char> {
        match self {
            SidecarError::EmptyCommand => SIDECAR_ENV@ + " is empty"@,
            SidecarError::ExitedEarly => "gong sidecar exited before reporting ready"@,
        }
    }

    /// What is said of the error.
    pub fn message(self) -> (text: String)
        ensures
            text@ == self.spelled(),
    {
        match self {
            SidecarError::EmptyCommand => SIDECAR_ENV.to_owned().concat(" is empty"),
            SidecarError::ExitedEarly => "gong sidecar exited before reporting ready".to_owned(),
        }
    }
}

/// A program to run and its arguments.
pub struct SidecarCommand {
    pub program: String,
    pub args: Vec<String>,
}

/// Whether a command line is set and not blank.
pub fn enabled(command_line: Option<&str>) -> (answer: bool)
    ensures
        answer == (match command_line {
            Some(line) => trimmed(line@).len() > 0,
            None => false,
        }),
{
    match command_line {
        Some(line) => !trim(line).as_str().is_empty(),
        None => false,
    }
}

/// The words of a command line; none where it is not set.
pub open spec fn command_words(command_line: Option<&str>) -> Seq<Seq<char>> {
    match command_line {
        Some(line) => words(line@),
        None => Seq::empty(),
    }
}

/// Splits a command line at white space into the program and its arguments.
pub fn parse_command(command_line: Option<&str>) -> (result: Result<SidecarCommand, SidecarError>)
    ensures
        match result {
            Ok(command) => command_words(command_line) == seq![command.program@] + texts(
                command.args@,
            ),
            Err(error) => error == SidecarError::EmptyCommand && command_words(command_line).len()
                == 0,
        },
{
    let list = match command_line {
        Some(line) => split_whitespace(line),
        None => {
            return Err(SidecarError::EmptyCommand);
        },
    };
    assert(texts(list@).len() == list@.len());
    if list.len() == 0 {
        return Err(SidecarError::EmptyCommand);
    }
    let program = list[0].clone();
    let mut args: Vec<String> = Vec::new();
    let mut i: usize = 1;
    while i < list.len()
        invariant
            1 <= i <= list@.len(),
            texts(args@) == texts(list@).subrange(1, i as int),
        decreases list@.len() - i,
    {
        let ghost before = texts(args@);
        args.push(list[i].clone());
        assert(texts(args@) == before.push(list@[i as int]@));
        i = i + 1;
        assert(texts(list@).subrange(1, i as int) == texts(list@).subrange(1, i - 1).push(
            list@[i - 1]@,
        ));
    }
    assert(texts(list@) == seq![program@] + texts(args@));
    Ok(SidecarCommand { program, args })
}

/// The sidecar is enabled exactly when its command line names a program.
pub proof fn law_enabled_has_command(line: Seq<char>)
    ensures
        trimmed(line).len() > 0 <==> words(line).len() > 0,
{
    lemma_words_of_blank(line);
}

/// The sidecar is enabled exactly when something else than white space stands
/// on its command line.
pub proof fn law_enabled_by_any_character(line: &str, answer: bool)
    requires
        call_ensures(enabled, (Some(line),), answer),
    ensures
        answer <==> exists|i: int| 0 <= i < line@.len() && !white_space(#[trigger] line@[i]),
{
    law_trimmed(line@);
    let (front, back) = choose|front: Seq<char>, back: Seq<char>|
        {
            &&& is_blank(front)
            &&& is_blank(back)
            &&& line@ == #[trigger] (front + trimmed(line@) + back)
        };
    if trimmed(line@).len() > 0 {
        assert(line@[front.len() as int] == trimmed(line@).first());
    } else {
        assert forall|i: int| 0 <= i < line@.len() implies white_space(#[trigger] line@[i]) by {
            if i < front.len() {
                assert(line@[i] == front[i]);
            } else {
                assert(line@[i] == back[i - front.len()]);
            }
        }
    }
}

/// A command line that is made of words with a space between each two of them
/// gives these words back, and one that is not set gives none.
pub proof fn law_command_is_its_words(line: &str, list: Seq<Seq<char>>)
    requires
        line@ == joined(list, " "@),
        forall|i: int| 0 <= i < list.len() ==> (#[trigger] list[i]).len() > 0,
        forall|i: int, k: int|
            0 <= i < list.len() && 0 <= k < list[i].len() ==> !white_space(#[trigger] list[i][k]),
    ensures
        command_words(Some(line)) == list,
        command_words(None).len() == 0,
{
    lemma_words_of_joined(list);
}

proof fn lemma_words_of_joined(list: Seq<Seq<char>>)
    requires
        forall|i: int| 0 <= i < list.len() ==> (#[trigger] list[i]).len() > 0,
        forall|i: int, k: int|
            0 <= i < list.len() && 0 <= k < list[i].len() ==> !white_space(#[trigger] list[i][k]),
    ensures
        words(joined(list, " "@)) == list,
    decreases list.len(),
{
    if list.len() > 0 {
        let front = list.drop_last();
        let last = list.last();
        reveal_strlit(" ");
        assert(" "@ == seq![' ']);
        assert(last == list[list.len() - 1]);
        assert forall|i: int| 0 <= i < front.len() implies (#[trigger] front[i]).len() > 0 by {
            assert(front[i] == list[i]);
        }
        assert forall|i: int, k: int|
            0 <= i < front.len() && 0 <= k < front[i].len() implies !white_space(
            #[trigger] front[i][k],
        ) by {
            assert(front[i][k] == list[i][k]);
        }
        lemma_words_of_joined(front);
        law_one_word(last);
        if front.len() == 0 {
            assert(joined(list, " "@) == last);
            assert(list == seq![last]);
        } else {
            law_words_apart(joined(front, " "@), ' ', last);
            assert(joined(list, " "@) == joined(front, " "@) + seq![' '] + last);
            assert(list == front + seq![last]);
        }
    }
}

/// A sidecar is ready by what stands under `event` alone.
pub proof fn law_ready_by_event(json: Json)
    ensures
        json.field("event"@) == Json::Text("ready"@) ==> says_ready(json),
        json.field("event"@) != Json::Text("ready"@) ==> !says_ready(json),
{
}

/// What a line says while the sidecar starts, or the end of its output does:
/// whether it is ready.
pub fn readiness(line: Option<&str>) -> (result: Result<bool, SidecarError>)
    ensures
        result == (match line {
            Some(line) => Ok::<bool, SidecarError>(
                match parsed(line@) {
                    Some(json) => says_ready(json),
                    None => false,
                },
            ),
            None => Err::<bool, SidecarError>(SidecarError::ExitedEarly),
        }),
{
    match line {
        Some(line) => Ok(
            match json::parse(line) {
                Ok(value) => is_ready(&value),
                Err(_) => false,
            },
        ),
        None => Err(SidecarError::ExitedEarly),
    }
}

/// What is known of a child process.
#[derive(Clone, Copy, Debug, PartialEq, Eq, Structural)]
pub enum ChildState {
    Running,
    Exited,
    /// Its state could not be found out.
    Unknown,
}

/// Whether a process counts as gone.
pub fn sidecar_exited(state: ChildState) -> (answer: bool)
    ensures
        answer == (state != ChildState::Running),
{
    match state {
        ChildState::Running => false,
        ChildState::Exited => true,
        ChildState::Unknown => true,
    }
}

/// Whether a turn has to start a sidecar, given the one that was kept.
pub fn needs_sidecar(kept: Option<ChildState>) -> (answer: bool)
    ensures
        answer == (kept != Some(ChildState::Running)),
{
    match kept {
        Some(state) => sidecar_exited(state),
        None => true,
    }
}

/// A line makes a sidecar ready exactly where it is a document whose `event` is
/// `ready`; the end of its output is an error.
pub proof fn law_ready_line(line: &str, result: Result<bool, SidecarError>)
    requires
        call_ensures(readiness, (Some(line),), result),
    ensures
        result is Ok,
        result->Ok_0 <==> parsed(line@) is Some && parsed(line@)->0.field("event"@) == Json::Text(
            "ready"@,
        ),
{
}

/// A sidecar is started exactly where none is kept that is known to run.
pub proof fn law_running_sidecar_is_kept(kept: Option<ChildState>, answer: bool)
    requires
        call_ensures(needs_sidecar, (kept,), answer),
    ensures
        !answer <==> kept is Some && kept->0 is Running,
{
}

/// A command line that is made of words has the first as its program and the
/// others as its arguments.
pub proof fn law_command_is_split(
    line: &str,
    list: Seq<Seq<char>>,
    result: Result<SidecarCommand, SidecarError>,
)
    requires
        call_ensures(parse_command, (Some(line),), result),
        line@ == joined(list, " "@),
        forall|i: int| 0 <= i < list.len() ==> (#[trigger] list[i]).len() > 0,
        forall|i: int, k: int|
            0 <= i < list.len() && 0 <= k < list[i].len() ==> !white_space(#[trigger] list[i][k]),
    ensures
        match result {
            Ok(command) => {
                &&& list.len() > 0
                &&& command.program@ == list[0]
                &&& command.args@.len() == list.len() - 1
                &&& forall|i: int|
                    0 <= i < command.args@.len() ==> (#[trigger] command.args@[i])@ == list[i + 1]
            },
            Err(error) => list.len() == 0 && error is EmptyCommand,
        },
{
    law_command_is_its_words(line, list);
    match result {
        Ok(command) => {
            let whole = seq![command.program@] + texts(command.args@);
            assert(list[0] == whole[0]);
            assert forall|i: int| 0 <= i < command.args@.len() implies (#[trigger] command.args@[i])@
                == list[i + 1] by {
                assert(whole[i + 1] == texts(command.args@)[i]);
            }
        },
        Err(_) => {},
    }
}

} // verus!
