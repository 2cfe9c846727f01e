//! What the user asks, and the control tokens in front of it.

use vstd::prelude::*;
use crate::model::contents;
use crate::text::{
    is_blank, join, joined, law_joined_together, law_trimmed,
    lemma_trimmed_either_way, lemma_trimmed_end, lemma_trimmed_end_behind, lemma_trimmed_start,
    strip_prefix, texts, trim, trim_start, trimmed, trimmed_end, trimmed_start, white_space,
};

verus! {

/// Control token at the front of the submitted text that asks for an
/// interactive run.
pub const DEBUG_MODE_TOKEN: &'static str = "[gong:interactive] ";

/// Control token at the front of the submitted text that selects the fast
/// search.
pub const FAST_SEARCH_TOKEN: &'static str = "[gong:fast] ";

/// A piece of what the user submitted.
pub enum UserInput {
    Text { text: String },
    Other,
}

pub enum UserInputView {
    Text { text: Seq<char> },
    Other,
}

impl View for UserInput {
    type V = UserInputView;

    open spec fn view(&self) -> UserInputView {
        match self {
            UserInput::Text { text } => UserInputView::Text { text: text@ },
            UserInput::Other => UserInputView::Other,
        }
    }
}

/// An input of the turn.
pub enum TurnInput {
    UserInput { content: Vec<UserInput> },
    Other,
}

pub enum TurnInputView {
    UserInput { content: Seq<UserInputView> },
    Other,
}

impl View for TurnInput {
    type V = TurnInputView;

    open spec fn view(&self) -> TurnInputView {
        match self {
            TurnInput::UserInput { content } => TurnInputView::UserInput {
                content: contents(content@),
            },
            TurnInput::Other => TurnInputView::Other,
        }
    }
}

/// The texts in a user's submission, in order.
pub open spec fn submitted_texts(content: Seq<UserInputView>) -> Seq<Seq<char>>
    decreases content.len(),
{
    if content.len() == 0 {
        Seq::empty()
    } else {
        let front = submitted_texts(content.drop_last());
        match content.last() {
            UserInputView::Text { text } => front.push(text),
            UserInputView::Other => front,
        }
    }
}

/// The texts in all of the user's submissions, in order.
pub open spec fn input_texts(input: Seq<TurnInputView>) -> Seq<Seq<char>>
    decreases input.len(),
{
    if input.len() == 0 {
        Seq::empty()
    } else {
        let front = input_texts(input.drop_last());
        match input.last() {
            TurnInputView::UserInput { content } => front + submitted_texts(content),
            TurnInputView::Other => front,
        }
    }
}

/// The texts that the user submitted, line by line.
pub open spec fn lines_of(input: Seq<TurnInputView>) -> Seq<char> {
    joined(input_texts(input), "\n"@)
}

/// The submitted text as a whole, without white space around it.
pub open spec fn submitted(input: Seq<TurnInputView>) -> Seq<char> {
    trimmed(lines_of(input))
}

/// Whether the sidecar decides alone or asks.
#[derive(Clone, Copy, Debug, PartialEq, Eq, Structural)]
pub enum Mode {
    Run,
    Interactive,
}

impl Mode {
    /// The name of the mode in a request.
    pub open spec fn spelled(self) -> Seq<char> {
        match self {
            Mode::Run => "run"@,
            Mode::Interactive => "interactive"@,
        }
    }

    /// The name of the mode in a request.
    pub fn name(self) -> (name: &'static str)
        ensures
            name@ == self.spelled(),
    {
        match self {
            Mode::Run => "run",
            Mode::Interactive => "interactive",
        }
    }
}

/// Which search engine answers.
#[derive(Clone, Copy, Debug, PartialEq, Eq, Structural)]
pub enum Search {
    Deep,
    Fast,
}

impl Search {
    /// The name of the search in a request.
    pub open spec fn spelled(self) -> Seq<char> {
        match self {
            Search::Deep => "deep"@,
            Search::Fast => "fast"@,
        }
    }

    /// The name of the search in a request.
    pub fn name(self) -> (name: &'static str)
        ensures
            name@ == self.spelled(),
    {
        match self {
            Search::Deep => "deep",
            Search::Fast => "fast",
        }
    }
}

/// A question without its control tokens, and what they asked for.
pub struct Question {
    pub text: String,
    pub mode: Mode,
    pub search: Search,
}

pub struct QuestionView {
    pub text: Seq<char>,
    pub mode: Mode,
    pub search: Search,
}

impl View for Question {
    type V = QuestionView;

    open spec fn view(&self) -> QuestionView {
        QuestionView { text: self.text@, mode: self.mode, search: self.search }
    }
}

/// What follows a prefix and the white space behind it.
pub open spec fn after(text: Seq<char>, prefix: Seq<char>) -> Seq<char> {
    trimmed_start(text.skip(prefix.len() as int))
}

/// A text behind a control token is shorter.
pub proof fn lemma_after_token(text: Seq<char>)
    ensures
        DEBUG_MODE_TOKEN@.is_prefix_of(text) ==> after(text, DEBUG_MODE_TOKEN@).len() < text.len(),
        FAST_SEARCH_TOKEN@.is_prefix_of(text) ==> after(text, FAST_SEARCH_TOKEN@).len()
            < text.len(),
{
    reveal_strlit("[gong:interactive] ");
    reveal_strlit("[gong:fast] ");
    lemma_trimmed_start(text.skip(DEBUG_MODE_TOKEN@.len() as int));
    lemma_trimmed_start(text.skip(FAST_SEARCH_TOKEN@.len() as int));
}

/// The question in `text`, where `mode` and `search` hold as long as no
/// control token says otherwise.
pub open spec fn read_controls(text: Seq<char>, mode: Mode, search: Search) -> QuestionView
    decreases text.len(),
{
    proof {
        lemma_after_token(text);
    }
    if DEBUG_MODE_TOKEN@.is_prefix_of(text) {
        read_controls(after(text, DEBUG_MODE_TOKEN@), Mode::Interactive, search)
    } else if FAST_SEARCH_TOKEN@.is_prefix_of(text) {
        read_controls(after(text, FAST_SEARCH_TOKEN@), mode, Search::Fast)
    } else {
        QuestionView { text, mode, search }
    }
}

/// The question that the user submitted: what is left behind the control
/// tokens, without white space around it.
pub open spec fn question_in(input: Seq<TurnInputView>) -> QuestionView {
    let read = read_controls(trimmed_start(lines_of(input)), Mode::Run, Search::Deep);
    QuestionView { text: trimmed(read.text), ..read }
}

fn add_texts(parts: &mut Vec<String>, content: &Vec<UserInput>)
    ensures
        texts(final(parts)@) == texts(old(parts)@) + submitted_texts(contents(content@)),
{
    let mut i: usize = 0;
    let ghost all = contents(content@);
    assert(texts(parts@) + submitted_texts(all.take(0)) == texts(parts@));
    while i < content.len()
        invariant
            i <= content@.len(),
            all == contents(content@),
            texts(parts@) == texts(old(parts)@) + submitted_texts(all.take(i as int)),
        decreases content@.len() - i,
    {
        let ghost before = texts(parts@);
        proof {
            assert(all.take(i + 1).drop_last() == all.take(i as int));
            assert(all.take(i + 1).last() == content@[i as int]@);
        }
        if let UserInput::Text { text } = &content[i] {
            parts.push(text.clone());
            assert(texts(parts@) == before.push(text@));
        }
        i = i + 1;
    }
    assert(all.take(i as int) == all);
}

fn submitted_lines(input: &Vec<TurnInput>) -> (lines: String)
    ensures
        lines@ == lines_of(contents(input@)),
{
    let mut parts: Vec<String> = Vec::new();
    let mut i: usize = 0;
    let ghost all = contents(input@);
    while i < input.len()
        invariant
            i <= input@.len(),
            all == contents(input@),
            texts(parts@) == input_texts(all.take(i as int)),
        decreases input@.len() - i,
    {
        proof {
            assert(all.take(i + 1).drop_last() == all.take(i as int));
            assert(all.take(i + 1).last() == input@[i as int]@);
        }
        if let TurnInput::UserInput { content } = &input[i] {
            add_texts(&mut parts, content);
        }
        i = i + 1;
    }
    assert(all.take(i as int) == all);
    join(&parts, "\n")
}

/// The texts that the user submitted, as one text without white space around
/// it.
pub fn extract_question(input: &Vec<TurnInput>) -> (question: String)
    ensures
        question@ == submitted(contents(input@)),
{
    trim(submitted_lines(input).as_str())
}

/// Takes the control tokens off the front of `text`.
pub fn parse_question(text: String) -> (question: Question)
    ensures
        question@ == read_controls(text@, Mode::Run, Search::Deep),
{
    let mut question = Question { text, mode: Mode::Run, search: Search::Deep };
    loop
        invariant
            read_controls(question.text@, question.mode, question.search) == read_controls(
                text@,
                Mode::Run,
                Search::Deep,
            ),
        ensures
            question@ == read_controls(text@, Mode::Run, Search::Deep),
        decreases question.text@.len(),
    {
        proof {
            lemma_after_token(question.text@);
        }
        let ghost before = question.text@;
        if let Some(rest) = strip_prefix(question.text.as_str(), DEBUG_MODE_TOKEN) {
            assert(before.skip(DEBUG_MODE_TOKEN@.len() as int) == rest@);
            assert(DEBUG_MODE_TOKEN@.is_prefix_of(before));
            question.text = trim_start(rest.as_str());
            question.mode = Mode::Interactive;
        } else if let Some(rest) = strip_prefix(question.text.as_str(), FAST_SEARCH_TOKEN) {
            assert(before.skip(FAST_SEARCH_TOKEN@.len() as int) == rest@);
            assert(FAST_SEARCH_TOKEN@.is_prefix_of(before));
            question.text = trim_start(rest.as_str());
            question.search = Search::Fast;
        } else {
            break;
        }
    }
    question
}

/// Reads the question that the user submitted. The white space behind a control
/// token belongs to it, also where nothing else follows.
pub fn read_question(input: &Vec<TurnInput>) -> (question: Question)
    ensures
        question@ == question_in(contents(input@)),
{
    let mut question = parse_question(trim_start(submitted_lines(input).as_str()));
    question.text = trim(question.text.as_str());
    question
}

/// Whether a control token stands in front of `text`.
pub open spec fn has_control(text: Seq<char>) -> bool {
    DEBUG_MODE_TOKEN@.is_prefix_of(text) || FAST_SEARCH_TOKEN@.is_prefix_of(text)
}

/// What is left as the question has no control token in front, and is the end
/// of the submitted text.
pub proof fn law_controls_are_taken_off(text: Seq<char>, mode: Mode, search: Search)
    ensures
        !has_control(read_controls(text, mode, search).text),
        read_controls(text, mode, search).text.len() <= text.len(),
        read_controls(text, mode, search).text == text.skip(
            text.len() - read_controls(text, mode, search).text.len(),
        ),
    decreases text.len(),
{
    lemma_after_token(text);
    let question = read_controls(text, mode, search).text;
    if DEBUG_MODE_TOKEN@.is_prefix_of(text) {
        let token = DEBUG_MODE_TOKEN@;
        lemma_trimmed_start(text.skip(token.len() as int));
        law_controls_are_taken_off(after(text, token), Mode::Interactive, search);
        assert(question == text.skip(text.len() - question.len()));
    } else if FAST_SEARCH_TOKEN@.is_prefix_of(text) {
        let token = FAST_SEARCH_TOKEN@;
        lemma_trimmed_start(text.skip(token.len() as int));
        law_controls_are_taken_off(after(text, token), mode, Search::Fast);
        assert(question == text.skip(text.len() - question.len()));
    } else {
        assert(text.skip(0) == text);
    }
}

/// A text without a control token in front is the question as it stands, for
/// a plain run and the deep search.
pub proof fn law_plain_question(text: Seq<char>)
    requires
        !has_control(text),
    ensures
        read_controls(text, Mode::Run, Search::Deep) == (QuestionView {
            text,
            mode: Mode::Run,
            search: Search::Deep,
        }),
{
}

/// Control tokens do not decide what the question is, only what is asked for:
/// whatever held before, the text is the same, and an interactive run or the
/// fast search that was asked for stays so.
pub proof fn law_controls_add_up(text: Seq<char>, mode: Mode, search: Search)
    ensures
        read_controls(text, mode, search).text == read_controls(text, Mode::Run, Search::Deep).text,
        read_controls(text, mode, search).mode == if mode == Mode::Interactive {
            Mode::Interactive
        } else {
            read_controls(text, Mode::Run, Search::Deep).mode
        },
        read_controls(text, mode, search).search == if search == Search::Fast {
            Search::Fast
        } else {
            read_controls(text, Mode::Run, Search::Deep).search
        },
    decreases text.len(),
{
    lemma_after_token(text);
    if DEBUG_MODE_TOKEN@.is_prefix_of(text) {
        let rest = after(text, DEBUG_MODE_TOKEN@);
        law_controls_add_up(rest, Mode::Interactive, search);
        law_controls_add_up(rest, Mode::Interactive, Search::Deep);
    } else if FAST_SEARCH_TOKEN@.is_prefix_of(text) {
        let rest = after(text, FAST_SEARCH_TOKEN@);
        law_controls_add_up(rest, mode, Search::Fast);
        law_controls_add_up(rest, Mode::Run, Search::Fast);
    }
}

/// The control tokens that a client puts in front of a question.
pub open spec fn tokens_for(mode: Mode, search: Search) -> Seq<char> {
    let first = match mode {
        Mode::Interactive => DEBUG_MODE_TOKEN@,
        Mode::Run => Seq::empty(),
    };
    let second = match search {
        Search::Fast => FAST_SEARCH_TOKEN@,
        Search::Deep => Seq::empty(),
    };
    first + second
}

/// A control token in front of a text, which has no white space in front,
/// leaves that text to be read.
proof fn lemma_token_in_front(text: Seq<char>, mode: Mode, search: Search)
    requires
        text.len() > 0 ==> !white_space(text.first()),
    ensures
        read_controls(DEBUG_MODE_TOKEN@ + text, mode, search) == read_controls(
            text,
            Mode::Interactive,
            search,
        ),
        read_controls(FAST_SEARCH_TOKEN@ + text, mode, search) == read_controls(
            text,
            mode,
            Search::Fast,
        ),
{
    let debug = DEBUG_MODE_TOKEN@;
    let fast = FAST_SEARCH_TOKEN@;
    reveal_strlit("[gong:interactive] ");
    reveal_strlit("[gong:fast] ");
    assert(debug.is_prefix_of(debug + text));
    assert(fast.is_prefix_of(fast + text));
    assert(!debug.is_prefix_of(fast + text)) by {
        assert(debug[6] == 'i');
        assert((fast + text)[6] == 'f');
        if debug.is_prefix_of(fast + text) {
            assert((fast + text).subrange(0, debug.len() as int)[6] == debug[6]);
        }
    }
    assert((debug + text).skip(debug.len() as int) == text);
    assert((fast + text).skip(fast.len() as int) == text);
    assert(trimmed_start(text) == text);
}

/// A submission that is one text.
pub open spec fn submission(text: Seq<char>) -> Seq<TurnInputView> {
    seq![TurnInputView::UserInput { content: seq![UserInputView::Text { text }] }]
}

/// A question that a client submits behind the tokens for a mode and a search
/// is read as that question, in that mode and with that search. Where there are
/// only tokens, the question is empty.
pub proof fn law_tokens_are_read(text: Seq<char>, mode: Mode, search: Search)
    requires
        trimmed(text) == text,
        !has_control(text),
    ensures
        question_in(submission(tokens_for(mode, search) + text)) == (QuestionView {
            text,
            mode,
            search,
        }),
{
    let whole = tokens_for(mode, search) + text;
    let fast = match search {
        Search::Fast => FAST_SEARCH_TOKEN@,
        Search::Deep => Seq::empty(),
    };
    reveal_strlit("[gong:interactive] ");
    reveal_strlit("[gong:fast] ");
    lemma_submission(whole);
    lemma_trimmed_ends(text);
    assert(trimmed_start(whole) == whole);
    lemma_token_in_front(text, Mode::Run, Search::Deep);
    lemma_token_in_front(text, Mode::Interactive, Search::Deep);
    lemma_token_in_front(fast + text, Mode::Run, Search::Deep);
    assert(whole == match mode {
        Mode::Interactive => DEBUG_MODE_TOKEN@ + (fast + text),
        Mode::Run => fast + text,
    });
    assert(Seq::<char>::empty() + text == text);
}

/// Where a question is left behind the control tokens, it is the one that is
/// read from the submitted text without white space around it.
pub proof fn law_question_in_submitted(input: Seq<TurnInputView>)
    requires
        question_in(input).text.len() > 0,
    ensures
        question_in(input) == read_controls(submitted(input), Mode::Run, Search::Deep),
{
    let text = trimmed_start(lines_of(input));
    let read = read_controls(text, Mode::Run, Search::Deep);
    lemma_trimmed_start(lines_of(input));
    lemma_controls_leave_start(text, Mode::Run, Search::Deep);
    lemma_controls_of_trimmed(text, Mode::Run, Search::Deep);
}

/// The question that was submitted has no control token in front.
pub proof fn law_question_has_no_control(input: Seq<TurnInputView>)
    ensures
        !has_control(question_in(input).text),
{
    let text = trimmed_start(lines_of(input));
    let left = read_controls(text, Mode::Run, Search::Deep).text;
    lemma_trimmed_start(lines_of(input));
    lemma_controls_leave_start(text, Mode::Run, Search::Deep);
    law_controls_are_taken_off(text, Mode::Run, Search::Deep);
    lemma_no_prefix_of_trimmed(left, DEBUG_MODE_TOKEN@);
    lemma_no_prefix_of_trimmed(left, FAST_SEARCH_TOKEN@);
}

/// A text without white space in front leaves a question without.
proof fn lemma_controls_leave_start(text: Seq<char>, mode: Mode, search: Search)
    requires
        trimmed_start(text) == text,
    ensures
        trimmed_start(read_controls(text, mode, search).text) == read_controls(
            text,
            mode,
            search,
        ).text,
    decreases text.len(),
{
    lemma_after_token(text);
    if DEBUG_MODE_TOKEN@.is_prefix_of(text) {
        lemma_trimmed_start(text.skip(DEBUG_MODE_TOKEN@.len() as int));
        lemma_controls_leave_start(after(text, DEBUG_MODE_TOKEN@), Mode::Interactive, search);
    } else if FAST_SEARCH_TOKEN@.is_prefix_of(text) {
        lemma_trimmed_start(text.skip(FAST_SEARCH_TOKEN@.len() as int));
        lemma_controls_leave_start(after(text, FAST_SEARCH_TOKEN@), mode, Search::Fast);
    }
}

/// Where something is left behind the control tokens, trimming the end of the
/// text trims the end of the question and does nothing else.
proof fn lemma_controls_of_trimmed(text: Seq<char>, mode: Mode, search: Search)
    requires
        trimmed_end(read_controls(text, mode, search).text).len() > 0,
    ensures
        trimmed_end(text).len() > 0,
        read_controls(trimmed_end(text), mode, search) == (QuestionView {
            text: trimmed_end(read_controls(text, mode, search).text),
            ..read_controls(text, mode, search)
        }),
    decreases text.len(),
{
    lemma_after_token(text);
    lemma_trimmed_end(text);
    if DEBUG_MODE_TOKEN@.is_prefix_of(text) {
        lemma_controls_of_trimmed(after(text, DEBUG_MODE_TOKEN@), Mode::Interactive, search);
        lemma_trimmed_behind_token(text, DEBUG_MODE_TOKEN@);
    } else if FAST_SEARCH_TOKEN@.is_prefix_of(text) {
        lemma_controls_of_trimmed(after(text, FAST_SEARCH_TOKEN@), mode, Search::Fast);
        lemma_trimmed_behind_token(text, FAST_SEARCH_TOKEN@);
        lemma_no_prefix_of_trimmed(text, DEBUG_MODE_TOKEN@);
    } else {
        lemma_no_prefix_of_trimmed(text, DEBUG_MODE_TOKEN@);
        lemma_no_prefix_of_trimmed(text, FAST_SEARCH_TOKEN@);
    }
}

proof fn lemma_trimmed_behind_token(text: Seq<char>, token: Seq<char>)
    requires
        token.is_prefix_of(text),
        trimmed_end(after(text, token)).len() > 0,
    ensures
        trimmed_end(text).len() > 0,
        token.is_prefix_of(trimmed_end(text)),
        after(trimmed_end(text), token) == trimmed_end(after(text, token)),
{
    let rest = text.skip(token.len() as int);
    lemma_trimmed_either_way(rest);
    lemma_trimmed_end_behind(token, rest);
    assert(text == token + rest);
    assert(trimmed_end(text).skip(token.len() as int) == trimmed_end(rest));
    assert(trimmed_end(text).subrange(0, token.len() as int) == token);
}

proof fn lemma_no_prefix_of_trimmed(text: Seq<char>, token: Seq<char>)
    requires
        !token.is_prefix_of(text),
    ensures
        !token.is_prefix_of(trimmed_end(text)),
{
    lemma_trimmed_end(text);
    if token.is_prefix_of(trimmed_end(text)) {
        assert(text.subrange(0, token.len() as int) == trimmed_end(text).subrange(
            0,
            token.len() as int,
        ));
    }
}

proof fn lemma_submission(text: Seq<char>)
    ensures
        lines_of(submission(text)) == text,
{
    let content = seq![UserInputView::Text { text }];
    assert(content.drop_last() == Seq::<UserInputView>::empty());
    assert(submitted_texts(content.drop_last()) == Seq::<Seq<char>>::empty());
    assert(submitted_texts(content) == seq![text]);
    let input = submission(text);
    assert(input.drop_last() == Seq::<TurnInputView>::empty());
    assert(input_texts(input.drop_last()) == Seq::<Seq<char>>::empty());
    assert(input_texts(input) == seq![text]);
    assert(seq![text].drop_last() == Seq::<Seq<char>>::empty());
    assert(joined(seq![text], "\n"@) == text);
}

/// A text that trimming leaves as it is has no white space at its ends.
proof fn lemma_trimmed_ends(text: Seq<char>)
    requires
        trimmed(text) == text,
    ensures
        text.len() > 0 ==> !white_space(text.first()) && !white_space(text.last()),
{
    lemma_trimmed_start(text);
    lemma_trimmed_end(trimmed_start(text));
}

/// What a user types: for each of `tokens`, in order, the token for an
/// interactive run where it is `true` and that for the fast search where it is
/// `false`, each with one of `gaps` behind it, and then `rest`.
pub open spec fn typed(tokens: Seq<bool>, gaps: Seq<Seq<char>>, rest: Seq<char>) -> Seq<char>
    decreases tokens.len(),
{
    if tokens.len() == 0 {
        rest
    } else {
        let token = if tokens[0] {
            "[gong:interactive] "@
        } else {
            "[gong:fast] "@
        };
        token + gaps[0] + typed(tokens.drop_first(), gaps.drop_first(), rest)
    }
}

proof fn lemma_blank_in_front(blank: Seq<char>, text: Seq<char>)
    requires
        is_blank(blank),
        text.len() > 0 ==> !white_space(text.first()),
    ensures
        trimmed_start(blank + text) == text,
    decreases blank.len(),
{
    if blank.len() == 0 {
        assert(blank + text == text);
    } else {
        assert(white_space(blank[0]));
        assert((blank + text).drop_first() == blank.drop_first() + text);
        assert forall|i: int| 0 <= i < blank.drop_first().len() implies white_space(
            #[trigger] blank.drop_first()[i],
        ) by {
            assert(blank.drop_first()[i] == blank[i + 1]);
        }
        lemma_blank_in_front(blank.drop_first(), text);
    }
}

proof fn lemma_blank_behind(text: Seq<char>, blank: Seq<char>)
    requires
        is_blank(blank),
        text.len() > 0 ==> !white_space(text.last()),
    ensures
        trimmed_end(text + blank) == text,
    decreases blank.len(),
{
    if blank.len() == 0 {
        assert(text + blank == text);
    } else {
        assert(white_space(blank[blank.len() - 1]));
        assert((text + blank).drop_last() == text + blank.drop_last());
        assert forall|i: int| 0 <= i < blank.drop_last().len() implies white_space(
            #[trigger] blank.drop_last()[i],
        ) by {
            assert(blank.drop_last()[i] == blank[i]);
        }
        lemma_blank_behind(text, blank.drop_last());
    }
}

proof fn lemma_typed_start(tokens: Seq<bool>, gaps: Seq<Seq<char>>, rest: Seq<char>)
    requires
        rest.len() > 0 ==> !white_space(rest.first()),
    ensures
        typed(tokens, gaps, rest).len() > 0 ==> !white_space(typed(tokens, gaps, rest).first()),
{
    reveal_strlit("[gong:interactive] ");
    reveal_strlit("[gong:fast] ");
}

proof fn lemma_typed(
    tokens: Seq<bool>,
    gaps: Seq<Seq<char>>,
    rest: Seq<char>,
    mode: Mode,
    search: Search,
)
    requires
        gaps.len() == tokens.len(),
        forall|i: int| 0 <= i < gaps.len() ==> is_blank(#[trigger] gaps[i]),
        rest.len() > 0 ==> !white_space(rest.first()),
        !has_control(rest),
    ensures
        read_controls(typed(tokens, gaps, rest), mode, search) == (QuestionView {
            text: rest,
            mode: if tokens.contains(true) {
                Mode::Interactive
            } else {
                mode
            },
            search: if tokens.contains(false) {
                Search::Fast
            } else {
                search
            },
        }),
    decreases tokens.len(),
{
    if tokens.len() > 0 {
        let fewer = tokens.drop_first();
        let less = gaps.drop_first();
        let behind = typed(fewer, less, rest);
        let text = gaps[0] + behind;
        assert forall|i: int| 0 <= i < less.len() implies is_blank(#[trigger] less[i]) by {
            assert(less[i] == gaps[i + 1]);
        }
        assert(tokens == seq![tokens[0]] + fewer);
        assert forall|token: bool| #[trigger] tokens.contains(token) <==> token == tokens[0]
            || fewer.contains(token) by {
            if fewer.contains(token) {
                let i = choose|i: int| 0 <= i < fewer.len() && fewer[i] == token;
                assert(tokens[i + 1] == token);
            }
            if tokens.contains(token) && token != tokens[0] {
                let i = choose|i: int| 0 <= i < tokens.len() && tokens[i] == token;
                assert(fewer[i - 1] == token);
            }
            assert(tokens[0] == tokens[0]);
        }
        assert(tokens.contains(tokens[0]));
        lemma_typed_start(fewer, less, rest);
        lemma_blank_in_front(gaps[0], behind);
        law_token_is_taken_off(text, mode, search);
        if tokens[0] {
            assert(typed(tokens, gaps, rest) == DEBUG_MODE_TOKEN@ + text);
            lemma_typed(fewer, less, rest, Mode::Interactive, search);
        } else {
            assert(typed(tokens, gaps, rest) == FAST_SEARCH_TOKEN@ + text);
            lemma_typed(fewer, less, rest, mode, Search::Fast);
        }
    }
}

/// A control token in front of a text, whatever white space there is between,
/// leaves the text without that white space to be read, and asks for what it
/// stands for.
pub proof fn law_token_is_taken_off(text: Seq<char>, mode: Mode, search: Search)
    ensures
        read_controls("[gong:interactive] "@ + text, mode, search) == read_controls(
            trimmed_start(text),
            Mode::Interactive,
            search,
        ),
        read_controls("[gong:fast] "@ + text, mode, search) == read_controls(
            trimmed_start(text),
            mode,
            Search::Fast,
        ),
{
    let debug = DEBUG_MODE_TOKEN@;
    let fast = FAST_SEARCH_TOKEN@;
    reveal_strlit("[gong:interactive] ");
    reveal_strlit("[gong:fast] ");
    assert(debug.is_prefix_of(debug + text));
    assert(fast.is_prefix_of(fast + text));
    assert(!debug.is_prefix_of(fast + text)) by {
        assert(debug[6] == 'i');
        assert((fast + text)[6] == 'f');
        if debug.is_prefix_of(fast + text) {
            assert((fast + text).subrange(0, debug.len() as int)[6] == debug[6]);
        }
    }
    assert((debug + text).skip(debug.len() as int) == text);
    assert((fast + text).skip(fast.len() as int) == text);
}

/// Whatever tokens stand in front of a question, in any order and any number
/// and with any white space around them, the question is what is left without
/// white space around it. It is for an interactive run exactly if a token for
/// that is among them, and for the fast search exactly if one for that is.
pub proof fn law_any_tokens_are_read(
    front: Seq<char>,
    tokens: Seq<bool>,
    gaps: Seq<Seq<char>>,
    text: Seq<char>,
    back: Seq<char>,
)
    requires
        is_blank(front),
        is_blank(back),
        gaps.len() == tokens.len(),
        forall|i: int| 0 <= i < gaps.len() ==> is_blank(#[trigger] gaps[i]),
        text.len() > 0 ==> !white_space(text.first()) && !white_space(text.last()),
        text.len() == 0 ==> back.len() == 0,
        !"[gong:interactive] "@.is_prefix_of(text + back),
        !"[gong:fast] "@.is_prefix_of(text + back),
    ensures
        ({
            let question = question_in(submission(front + typed(tokens, gaps, text + back)));
            &&& question.text == text
            &&& question.mode == Mode::Interactive <==> tokens.contains(true)
            &&& question.search == Search::Fast <==> tokens.contains(false)
        }),
{
    let rest = text + back;
    let whole = front + typed(tokens, gaps, rest);
    lemma_submission(whole);
    assert(rest.len() > 0 ==> rest.first() == text.first());
    lemma_typed_start(tokens, gaps, rest);
    lemma_blank_in_front(front, typed(tokens, gaps, rest));
    lemma_typed(tokens, gaps, rest, Mode::Run, Search::Deep);
    assert(trimmed_start(rest) == rest);
    lemma_blank_behind(text, back);
}

/// The texts of what was submitted first come before those of what was submitted
/// later, each submission counts with the texts in it, and what is no text is
/// passed over.
pub proof fn law_texts_in_order(
    early: Seq<TurnInputView>,
    late: Seq<TurnInputView>,
    left: Seq<UserInputView>,
    right: Seq<UserInputView>,
    text: Seq<char>,
)
    ensures
        input_texts(early + late) == input_texts(early) + input_texts(late),
        input_texts(seq![TurnInputView::Other]).len() == 0,
        input_texts(seq![TurnInputView::UserInput { content: left }]) == submitted_texts(left),
        submitted_texts(left + right) == submitted_texts(left) + submitted_texts(right),
        submitted_texts(seq![UserInputView::Other]).len() == 0,
        submitted_texts(seq![UserInputView::Text { text }]) == seq![text],
{
    lemma_input_texts(early, late);
    lemma_submitted_texts(left, right);
    let none = Seq::<TurnInputView>::empty();
    assert(input_texts(none) == Seq::<Seq<char>>::empty());
    assert(seq![TurnInputView::Other].drop_last() == none);
    assert(seq![TurnInputView::UserInput { content: left }].drop_last() == none);
    assert(input_texts(none) + submitted_texts(left) == submitted_texts(left));
    let nothing = Seq::<UserInputView>::empty();
    assert(submitted_texts(nothing) == Seq::<Seq<char>>::empty());
    assert(seq![UserInputView::Other].drop_last() == nothing);
    assert(seq![UserInputView::Text { text }].drop_last() == nothing);
    assert(submitted_texts(nothing).push(text) == seq![text]);
}

proof fn lemma_input_texts(early: Seq<TurnInputView>, late: Seq<TurnInputView>)
    ensures
        input_texts(early + late) == input_texts(early) + input_texts(late),
    decreases late.len(),
{
    if late.len() == 0 {
        assert(early + late == early);
        assert(input_texts(early) + input_texts(late) == input_texts(early));
    } else {
        assert((early + late).drop_last() == early + late.drop_last());
        lemma_input_texts(early, late.drop_last());
        assert(input_texts(early + late) == input_texts(early) + input_texts(late));
    }
}

proof fn lemma_submitted_texts(left: Seq<UserInputView>, right: Seq<UserInputView>)
    ensures
        submitted_texts(left + right) == submitted_texts(left) + submitted_texts(right),
    decreases right.len(),
{
    if right.len() == 0 {
        assert(left + right == left);
        assert(submitted_texts(left) + submitted_texts(right) == submitted_texts(left));
    } else {
        assert((left + right).drop_last() == left + right.drop_last());
        lemma_submitted_texts(left, right.drop_last());
        assert(submitted_texts(left + right) == submitted_texts(left) + submitted_texts(right));
    }
}

/// What is submitted later begins on a new line, unless there is nothing before
/// it or nothing in it.
pub proof fn law_texts_are_lines(input: Seq<TurnInputView>, more: Seq<TurnInputView>)
    ensures
        lines_of(input + more) == if input_texts(input).len() == 0 {
            lines_of(more)
        } else if input_texts(more).len() == 0 {
            lines_of(input)
        } else {
            lines_of(input) + "\n"@ + lines_of(more)
        },
{
    lemma_input_texts(input, more);
    if input_texts(input).len() == 0 {
        assert(input_texts(input) + input_texts(more) == input_texts(more));
    } else if input_texts(more).len() == 0 {
        assert(input_texts(input) + input_texts(more) == input_texts(input));
    } else {
        law_joined_together(input_texts(input), input_texts(more), "\n"@);
    }
}

/// Whatever the user submitted is read as if it were one text.
pub proof fn law_read_as_one_text(input: Seq<TurnInputView>, text: Seq<char>)
    ensures
        lines_of(submission(text)) == text,
        question_in(submission(lines_of(input))) == question_in(input),
{
    lemma_submission(text);
    lemma_submission(lines_of(input));
}

/// The submitted text is all that the user submitted but for the white space
/// around it.
pub proof fn law_submitted_is_trimmed(input: Seq<TurnInputView>)
    ensures
        exists|front: Seq<char>, back: Seq<char>|
            {
                &&& is_blank(front)
                &&& is_blank(back)
                &&& lines_of(input) == #[trigger] (front + submitted(input) + back)
            },
        submitted(input).len() > 0 ==> !white_space(submitted(input).first()) && !white_space(
            submitted(input).last(),
        ),
{
    law_trimmed(lines_of(input));
}

} // verus!
