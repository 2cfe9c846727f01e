use gong::question::{
    extract_question, parse_question, read_question, Mode, Search, TurnInput, UserInput, DEBUG_MODE_TOKEN,
    FAST_SEARCH_TOKEN,
};
use gong::text::{join, number, split_whitespace, strip_prefix, take_chars, trim, trim_start};

fn text(text: &str) -> UserInput {
    UserInput::Text { text: text.to_string() }
}

#[test]
fn question_joins_texts_and_trims() {
    let input = vec![
        TurnInput::Other,
        TurnInput::UserInput { content: vec![text("  who asked"), UserInput::Other, text("about x?")] },
        TurnInput::UserInput { content: vec![text("and when \n")] },
    ];
    assert_eq!(extract_question(&input), "who asked\nabout x?\nand when");
}

#[test]
fn question_without_texts_is_empty() {
    assert_eq!(extract_question(&Vec::new()), "");
    let input = vec![TurnInput::Other, TurnInput::UserInput { content: vec![UserInput::Other] }];
    assert_eq!(extract_question(&input), "");
}

#[test]
fn plain_question_runs_deep() {
    let question = parse_question("who asked?".to_string());
    assert_eq!(question.text, "who asked?");
    assert_eq!(question.mode, Mode::Run);
    assert_eq!(question.search, Search::Deep);
    assert_eq!(question.mode.name(), "run");
    assert_eq!(question.search.name(), "deep");
}

#[test]
fn tokens_in_either_order_are_read() {
    let both = [
        format!("{DEBUG_MODE_TOKEN}{FAST_SEARCH_TOKEN}who asked?"),
        format!("{FAST_SEARCH_TOKEN}   {DEBUG_MODE_TOKEN}\u{3000}who asked?"),
    ];
    for submitted in both {
        let question = parse_question(submitted);
        assert_eq!(question.text, "who asked?");
        assert_eq!(question.mode.name(), "interactive");
        assert_eq!(question.search.name(), "fast");
    }
}

#[test]
fn one_token_sets_one_thing() {
    let question = parse_question("[gong:interactive] hello".to_string());
    assert_eq!(question.mode, Mode::Interactive);
    assert_eq!(question.search, Search::Deep);
    let question = parse_question("[gong:fast] hello".to_string());
    assert_eq!(question.mode, Mode::Run);
    assert_eq!(question.search, Search::Fast);
    assert_eq!(question.text, "hello");
}

#[test]
fn repeated_tokens_are_all_taken_off() {
    let question = parse_question("[gong:fast] [gong:fast] x [gong:fast] y".to_string());
    assert_eq!(question.text, "x [gong:fast] y");
    assert_eq!(question.search, Search::Fast);
}

#[test]
fn token_without_its_space_is_text() {
    let question = parse_question("[gong:fast]".to_string());
    assert_eq!(question.text, "[gong:fast]");
    assert_eq!(question.search, Search::Deep);
}

#[test]
fn token_alone_leaves_nothing() {
    let question = parse_question("[gong:fast]  ".to_string());
    assert_eq!(question.text, "");
}

#[test]
fn submitted_tokens_are_read() {
    let cases = [
        ("  who asked? \n", "who asked?", Mode::Run, Search::Deep),
        ("[gong:fast] who asked? ", "who asked?", Mode::Run, Search::Fast),
        (" [gong:fast] [gong:interactive] x  y ", "x  y", Mode::Interactive, Search::Fast),
        ("[gong:fast] ", "", Mode::Run, Search::Fast),
        ("[gong:interactive] [gong:fast] ", "", Mode::Interactive, Search::Fast),
        ("[gong:fast]", "[gong:fast]", Mode::Run, Search::Deep),
    ];
    for (submitted, left, mode, search) in cases {
        let input = vec![TurnInput::UserInput { content: vec![text(submitted)] }];
        let question = read_question(&input);
        assert_eq!(question.text, left);
        assert_eq!(question.mode, mode);
        assert_eq!(question.search, search);
    }
}

#[test]
fn white_space_is_that_of_std() {
    for code in 0..0x11_0000u32 {
        if let Some(c) = char::from_u32(code) {
            let listed = matches!(
                code,
                0x09..=0x0d | 0x20 | 0x85 | 0xa0 | 0x1680 | 0x2000..=0x200a | 0x2028 | 0x2029
                    | 0x202f | 0x205f | 0x3000
            );
            assert_eq!(c.is_whitespace(), listed);
        }
    }
}

#[test]
fn trimming_agrees_with_std() {
    for sample in ["", " ", " a ", "a", "\u{2003}b c\u{85}", "\n\t", "é ", "\u{200b}x\u{200b}"] {
        assert_eq!(trim(sample), sample.trim());
        assert_eq!(trim_start(sample), sample.trim_start());
        let words: Vec<&str> = sample.split_whitespace().collect();
        assert_eq!(split_whitespace(sample), words);
    }
    assert_eq!(split_whitespace("  uv run\tx.py  --model "), ["uv", "run", "x.py", "--model"]);
}

#[test]
fn numbers_are_decimal() {
    for n in [0, 7, 9, 10, 99, 100, 1024, u64::MAX] {
        assert_eq!(number(n), n.to_string());
    }
}

#[test]
fn pieces_are_joined_and_cut() {
    let parts = vec!["a".to_string(), String::new(), "c".to_string()];
    assert_eq!(join(&parts, " · "), "a ·  · c");
    assert_eq!(join(&Vec::new(), ", "), "");
    assert_eq!(take_chars("añb", 2), "añ");
    assert_eq!(take_chars("a", 2), "a");
    assert_eq!(strip_prefix("abc", "ab"), Some("c".to_string()));
    assert_eq!(strip_prefix("abc", "b"), None);
    assert_eq!(strip_prefix("a", "ab"), None);
}
