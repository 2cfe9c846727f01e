//! Text helpers: trimming, splitting, joining and decimal numbers.

use vstd::prelude::*;

verus! {

/// Whether Unicode gives `c` the `White_Space` property.
pub open spec fn white_space(c: char) -> bool {
    let code = c as int;
    ||| 0x09 <= code <= 0x0d
    ||| code == 0x20
    ||| code == 0x85
    ||| code == 0xa0
    ||| code == 0x1680
    ||| 0x2000 <= code <= 0x200a
    ||| code == 0x2028
    ||| code == 0x2029
    ||| code == 0x202f
    ||| code == 0x205f
    ||| code == 0x3000
}

/// `char::is_whitespace` tells the characters that Unicode lists under the
/// `White_Space` property, which are those of [`white_space`].
pub assume_specification[ char::is_whitespace ](c: char) -> (answer: bool)
    ensures
        answer == white_space(c),
;

/// `String::push` appends the given character.
pub assume_specification[ String::push ](text: &mut String, c: char)
    ensures
        final(text)@ == old(text)@.push(c),
;

/// `==` on string slices holds exactly when both have the same characters.
pub assume_specification[ <str as PartialEq>::eq ](left: &str, right: &str) -> (same: bool)
    ensures
        same == (left@ == right@),
;

/// `chars` without the white space in front.
pub open spec fn trimmed_start(chars: Seq<char>) -> Seq<char>
    decreases chars.len(),
{
    if chars.len() > 0 && white_space(chars.first()) {
        trimmed_start(chars.drop_first())
    } else {
        chars
    }
}

/// `chars` without the white space at the end.
pub open spec fn trimmed_end(chars: Seq<char>) -> Seq<char>
    decreases chars.len(),
{
    if chars.len() > 0 && white_space(chars.last()) {
        trimmed_end(chars.drop_last())
    } else {
        chars
    }
}

/// `chars` without the white space at either end.
pub open spec fn trimmed(chars: Seq<char>) -> Seq<char> {
    trimmed_end(trimmed_start(chars))
}

/// How many characters stand before the first white space.
pub open spec fn word_len(chars: Seq<char>) -> nat
    decreases chars.len(),
{
    if chars.len() == 0 || white_space(chars.first()) {
        0
    } else {
        1 + word_len(chars.drop_first())
    }
}

/// What is left of a text without leading white space is its end, and does
/// not begin with white space.
pub proof fn lemma_trimmed_start(chars: Seq<char>)
    ensures
        trimmed_start(chars).len() <= chars.len(),
        trimmed_start(chars) == chars.skip(chars.len() - trimmed_start(chars).len()),
        trimmed_start(chars).len() > 0 ==> !white_space(trimmed_start(chars).first()),
    decreases chars.len(),
{
    if chars.len() > 0 && white_space(chars.first()) {
        let rest = chars.drop_first();
        lemma_trimmed_start(rest);
        assert(rest.skip(rest.len() - trimmed_start(rest).len()) == chars.skip(
            chars.len() - trimmed_start(chars).len(),
        ));
    } else {
        assert(chars.skip(0) == chars);
    }
}

/// The first word ends at the first white space, or with the text.
pub proof fn lemma_word_len(chars: Seq<char>)
    ensures
        word_len(chars) <= chars.len(),
        forall|i: int| 0 <= i < word_len(chars) ==> !white_space(#[trigger] chars[i]),
        word_len(chars) < chars.len() ==> white_space(chars[word_len(chars) as int]),
    decreases chars.len(),
{
    if chars.len() > 0 && !white_space(chars.first()) {
        let rest = chars.drop_first();
        lemma_word_len(rest);
        assert forall|i: int| 0 <= i < word_len(chars) implies !white_space(#[trigger] chars[i]) by {
            if i > 0 {
                assert(chars[i] == rest[i - 1]);
            }
        }
    }
}

/// The words of `chars`: its longest runs without white space, in order.
pub open spec fn words(chars: Seq<char>) -> Seq<Seq<char>>
    decreases chars.len(),
{
    if chars.len() == 0 {
        Seq::empty()
    } else if white_space(chars.first()) {
        words(chars.drop_first())
    } else {
        let end = word_len(chars);
        proof {
            lemma_word_len(chars);
        }
        seq![chars.take(end as int)] + words(chars.skip(end as int))
    }
}

/// The characters of the texts in `list`.
pub open spec fn texts(list: Seq<String>) -> Seq<Seq<char>> {
    list.map_values(|text: String| text@)
}

/// The characters of a text that may be missing.
pub open spec fn optional(text: Option<String>) -> Option<Seq<char>> {
    match text {
        Some(text) => Some(text@),
        None => None,
    }
}

/// `parts` in order, with `gap` between each two of them.
pub open spec fn joined(parts: Seq<Seq<char>>, gap: Seq<char>) -> Seq<char>
    decreases parts.len(),
{
    if parts.len() == 0 {
        Seq::empty()
    } else {
        let front = parts.drop_last();
        let lead = if front.len() == 0 {
            Seq::empty()
        } else {
            joined(front, gap) + gap
        };
        lead + parts.last()
    }
}

/// A list of `part` alone, or an empty one where there is none.
pub open spec fn listed(part: Option<Seq<char>>) -> Seq<Seq<char>> {
    match part {
        Some(part) => seq![part],
        None => Seq::empty(),
    }
}

/// The decimal digit for `d`.
pub open spec fn digit(d: nat) -> char {
    (48 + d) as char
}

/// `n` in decimal, without leading zeros.
pub open spec fn decimal(n: nat) -> Seq<char>
    decreases n,
{
    if n < 10 {
        seq![digit(n)]
    } else {
        decimal(n / 10).push(digit(n % 10))
    }
}

/// What is left of a text without white space at its end is its beginning, and
/// does not end with white space.
pub proof fn lemma_trimmed_end(chars: Seq<char>)
    ensures
        trimmed_end(chars).len() <= chars.len(),
        trimmed_end(chars) == chars.take(trimmed_end(chars).len() as int),
        trimmed_end(chars).len() > 0 ==> !white_space(trimmed_end(chars).last()),
    decreases chars.len(),
{
    if chars.len() > 0 && white_space(chars.last()) {
        let front = chars.drop_last();
        lemma_trimmed_end(front);
        assert(front.take(trimmed_end(front).len() as int) == chars.take(
            trimmed_end(chars).len() as int,
        ));
    } else {
        assert(chars.take(chars.len() as int) == chars);
    }
}

/// Trimming the end leaves what stands in front of something that remains.
pub proof fn lemma_trimmed_end_behind(front: Seq<char>, chars: Seq<char>)
    requires
        trimmed_end(chars).len() > 0,
    ensures
        trimmed_end(front + chars) == front + trimmed_end(chars),
    decreases chars.len(),
{
    if white_space(chars.last()) {
        lemma_trimmed_end_behind(front, chars.drop_last());
        assert((front + chars).drop_last() == front + chars.drop_last());
    }
}

/// It does not matter which end of a text is trimmed first.
pub proof fn lemma_trimmed_either_way(chars: Seq<char>)
    requires
        trimmed(chars).len() > 0,
    ensures
        trimmed_start(trimmed_end(chars)) == trimmed(chars),
        trimmed_end(chars).len() > 0,
    decreases chars.len(),
{
    if white_space(chars.first()) {
        let rest = chars.drop_first();
        lemma_trimmed_either_way(rest);
        lemma_trimmed_end_behind(seq![chars.first()], rest);
        assert(seq![chars.first()] + rest == chars);
        assert(trimmed_end(chars).drop_first() == trimmed_end(rest));
    } else {
        lemma_trimmed_end(chars);
    }
}

/// A text has words exactly when something is left of it once it is trimmed.
pub proof fn lemma_words_of_blank(chars: Seq<char>)
    ensures
        words(chars).len() > 0 <==> trimmed(chars).len() > 0,
    decreases chars.len(),
{
    if chars.len() > 0 {
        if white_space(chars.first()) {
            lemma_words_of_blank(chars.drop_first());
        } else {
            lemma_trimmed_end_keeps_first(chars);
        }
    }
}

/// A text that begins with something else than white space keeps its first
/// character when its end is trimmed.
proof fn lemma_trimmed_end_keeps_first(chars: Seq<char>)
    requires
        chars.len() > 0,
        !white_space(chars.first()),
    ensures
        trimmed_end(chars).len() > 0,
    decreases chars.len(),
{
    if white_space(chars.last()) {
        lemma_trimmed_end_keeps_first(chars.drop_last());
    }
}

/// A copy of the characters `from..to` of `chars`.
fn substring(chars: &Vec<char>, from: usize, to: usize) -> (text: String)
    requires
        from <= to <= chars@.len(),
    ensures
        text@ == chars@.subrange(from as int, to as int),
{
    let mut text = String::new();
    let mut i: usize = from;
    while i < to
        invariant
            from <= i <= to <= chars@.len(),
            text@ == chars@.subrange(from as int, i as int),
        decreases to - i,
    {
        text.push(chars[i]);
        i = i + 1;
        assert(chars@.subrange(from as int, i as int) == chars@.subrange(
            from as int,
            i - 1,
        ).push(chars@[i - 1]));
    }
    text
}

/// The characters of `text` in a vector.
fn characters(text: &str) -> (chars: Vec<char>)
    ensures
        chars@ == text@,
{
    let mut chars: Vec<char> = Vec::new();
    for c in iter: text.chars()
        invariant
            iter.seq() == text@,
            chars@ == text@.take(iter.index() as int),
    {
        chars.push(c);
        assert(text@.take(iter.index() + 1) == text@.take(iter.index() as int).push(c));
    }
    assert(text@.take(text@.len() as int) == text@);
    chars
}

proof fn lemma_trimmed_start_step(chars: Seq<char>, i: int)
    requires
        0 <= i < chars.len(),
        white_space(chars[i]),
    ensures
        trimmed_start(chars.skip(i)) == trimmed_start(chars.skip(i + 1)),
{
    assert(chars.skip(i).drop_first() == chars.skip(i + 1));
}

/// Where the text without leading white space begins.
fn start_of_text(chars: &Vec<char>) -> (start: usize)
    ensures
        start <= chars@.len(),
        chars@.skip(start as int) == trimmed_start(chars@),
        start < chars@.len() ==> !white_space(chars@[start as int]),
{
    let mut start: usize = 0;
    assert(chars@.skip(0) == chars@);
    while start < chars.len() && chars[start].is_whitespace()
        invariant
            start <= chars@.len(),
            trimmed_start(chars@.skip(start as int)) == trimmed_start(chars@),
        decreases chars@.len() - start,
    {
        proof {
            lemma_trimmed_start_step(chars@, start as int);
        }
        start = start + 1;
    }
    start
}

/// Removes the white space in front of `text`.
pub fn trim_start(text: &str) -> (rest: String)
    ensures
        rest@ == trimmed_start(text@),
{
    let chars = characters(text);
    let start = start_of_text(&chars);
    assert(chars@.subrange(start as int, chars@.len() as int) == chars@.skip(start as int));
    substring(&chars, start, chars.len())
}

/// Removes the white space at both ends of `text`.
pub fn trim(text: &str) -> (rest: String)
    ensures
        rest@ == trimmed(text@),
{
    let chars = characters(text);
    let start = start_of_text(&chars);
    let mut end: usize = chars.len();
    assert(chars@.subrange(start as int, end as int) == chars@.skip(start as int));
    while start < end && chars[end - 1].is_whitespace()
        invariant
            start <= end <= chars@.len(),
            trimmed_end(chars@.subrange(start as int, end as int)) == trimmed(text@),
        decreases end - start,
    {
        proof {
            let tail = chars@.subrange(start as int, end as int);
            assert(tail.drop_last() == chars@.subrange(start as int, end - 1));
        }
        end = end - 1;
    }
    substring(&chars, start, end)
}

/// Splits `text` at white space.
pub fn split_whitespace(text: &str) -> (list: Vec<String>)
    ensures
        texts(list@) == words(text@),
{
    let chars = characters(text);
    let mut list: Vec<String> = Vec::new();
    let mut i: usize = 0;
    assert(chars@.skip(0) == chars@);
    while i < chars.len()
        invariant
            i <= chars@.len(),
            chars@ == text@,
            texts(list@) + words(chars@.skip(i as int)) == words(text@),
        decreases chars@.len() - i,
    {
        let ghost rest = chars@.skip(i as int);
        if chars[i].is_whitespace() {
            assert(rest.drop_first() == chars@.skip(i + 1));
            i = i + 1;
        } else {
            let mut end: usize = i + 1;
            assert(rest.drop_first() == chars@.skip(i + 1));
            while end < chars.len() && !chars[end].is_whitespace()
                invariant
                    i < end <= chars@.len(),
                    word_len(chars@.skip(i as int)) == end - i + word_len(chars@.skip(end as int)),
                decreases chars@.len() - end,
            {
                assert(chars@.skip(end as int).drop_first() == chars@.skip(end + 1));
                end = end + 1;
            }
            let ghost before = texts(list@);
            list.push(substring(&chars, i, end));
            proof {
                assert(word_len(rest) == end - i);
                let word = chars@.subrange(i as int, end as int);
                assert(rest.take(end - i) == word);
                assert(rest.skip(end - i) == chars@.skip(end as int));
                assert(texts(list@) == before.push(word));
                assert(before.push(word) + words(chars@.skip(end as int)) == before + (seq![word]
                    + words(chars@.skip(end as int))));
            }
            i = end;
        }
    }
    assert(texts(list@) + words(chars@.skip(i as int)) == texts(list@));
    list
}

/// Whether `text` begins with `prefix`, and then what follows it.
pub fn strip_prefix(text: &str, prefix: &str) -> (rest: Option<String>)
    ensures
        match rest {
            Some(rest) => text@ == prefix@ + rest@,
            None => !prefix@.is_prefix_of(text@),
        },
{
    let chars = characters(text);
    let lead = characters(prefix);
    if lead.len() > chars.len() {
        return None;
    }
    let mut i: usize = 0;
    while i < lead.len()
        invariant
            i <= lead@.len() <= chars@.len(),
            lead@ == prefix@,
            chars@ == text@,
            forall|j: int| 0 <= j < i ==> lead@[j] == chars@[j],
        decreases lead@.len() - i,
    {
        if lead[i] != chars[i] {
            return None;
        }
        i = i + 1;
    }
    let rest = substring(&chars, lead.len(), chars.len());
    assert(text@ == prefix@ + rest@);
    Some(rest)
}

/// The first `limit` characters of `text`, or all of it where it is shorter.
pub fn take_chars(text: &str, limit: usize) -> (head: String)
    ensures
        head@ == text@.take(if text@.len() < limit {
            text@.len() as int
        } else {
            limit as int
        }),
{
    let chars = characters(text);
    let end = if chars.len() < limit {
        chars.len()
    } else {
        limit
    };
    substring(&chars, 0, end)
}

/// A copy of a text that may be missing.
pub fn copied(text: &Option<String>) -> (copy: Option<String>)
    ensures
        optional(copy) == optional(*text),
{
    match text {
        Some(text) => Some(text.clone()),
        None => None,
    }
}

/// Whether `text` is there and is `expected`.
pub fn is_text(text: &Option<String>, expected: &str) -> (answer: bool)
    ensures
        answer == (optional(*text) == Some(expected@)),
{
    match text {
        Some(text) => text.as_str().eq(expected),
        None => false,
    }
}

/// The text, or `default` where it is missing.
pub fn text_or<'a>(text: &'a Option<String>, default: &'a str) -> (result: &'a str)
    ensures
        result@ == (match *text {
            Some(text) => text@,
            None => default@,
        }),
{
    match text {
        Some(text) => text.as_str(),
        None => default,
    }
}

/// Adds `part` to the end of `parts`, where there is one.
pub fn add_part(parts: &mut Vec<String>, part: Option<String>)
    ensures
        texts(final(parts)@) == texts(old(parts)@) + listed(optional(part)),
{
    if let Some(part) = part {
        parts.push(part);
    }
}

/// Joins `parts` with `gap` between each two of them.
pub fn join(parts: &Vec<String>, gap: &str) -> (text: String)
    ensures
        text@ == joined(texts(parts@), gap@),
{
    let mut text = String::new();
    let mut i: usize = 0;
    let ghost all = texts(parts@);
    while i < parts.len()
        invariant
            i <= parts@.len(),
            all == texts(parts@),
            text@ == joined(all.take(i as int), gap@),
        decreases parts@.len() - i,
    {
        if i > 0 {
            text.append(gap);
        }
        text.append(parts[i].as_str());
        i = i + 1;
        assert(all.take(i as int).drop_last() == all.take(i - 1));
        assert(all.take(i as int).last() == parts@[i - 1]@);
    }
    assert(all.take(i as int) == all);
    text
}

/// Writes `n` in decimal.
pub fn number(n: u64) -> (text: String)
    ensures
        text@ == decimal(n as nat),
    decreases n,
{
    if n < 10 {
        let mut text = String::new();
        text.push((48u8 + n as u8) as char);
        text
    } else {
        let mut text = number(n / 10);
        text.push((48u8 + (n % 10) as u8) as char);
        text
    }
}

/// Nothing joined is nothing, and one part joined is that part.
pub proof fn law_joined_alone(part: Seq<char>, gap: Seq<char>)
    ensures
        joined(Seq::empty(), gap) == Seq::<char>::empty(),
        joined(seq![part], gap) == part,
{
    assert(seq![part].drop_last() == Seq::<Seq<char>>::empty());
}

/// Two lists joined together are each of them joined, with one gap between.
pub proof fn law_joined_together(left: Seq<Seq<char>>, right: Seq<Seq<char>>, gap: Seq<char>)
    requires
        left.len() > 0,
        right.len() > 0,
    ensures
        joined(left + right, gap) == joined(left, gap) + gap + joined(right, gap),
    decreases right.len(),
{
    let front = right.drop_last();
    assert((left + right).drop_last() == left + front);
    if front.len() == 0 {
        assert(left + front == left);
    } else {
        law_joined_together(left, front, gap);
    }
}

/// The number that a text of decimal digits stands for.
pub open spec fn value_of(digits: Seq<char>) -> int
    decreases digits.len(),
{
    if digits.len() == 0 {
        0
    } else {
        10 * value_of(digits.drop_last()) + (digits.last() as int - '0' as int)
    }
}

/// Whether `c` is a decimal digit.
pub open spec fn is_digit(c: char) -> bool {
    '0' <= c <= '9'
}

/// A number in decimal is digits that stand for it, and does not begin with a
/// zero unless it is zero.
pub proof fn law_decimal(n: nat)
    ensures
        decimal(n).len() > 0,
        forall|i: int| 0 <= i < decimal(n).len() ==> is_digit(#[trigger] decimal(n)[i]),
        value_of(decimal(n)) == n,
        n > 0 ==> decimal(n).first() != '0',
        n == 0 ==> decimal(n).len() == 1,
    decreases n,
{
    let text = decimal(n);
    if n < 10 {
        assert(text.drop_last() == Seq::<char>::empty());
        assert(value_of(text.drop_last()) == 0);
    } else {
        law_decimal(n / 10);
        assert(text.drop_last() == decimal(n / 10));
    }
}

/// Whether all of `chars` is white space.
pub open spec fn is_blank(chars: Seq<char>) -> bool {
    forall|i: int| 0 <= i < chars.len() ==> white_space(#[trigger] chars[i])
}

proof fn lemma_blank_front(chars: Seq<char>)
    ensures
        is_blank(chars.take(chars.len() - trimmed_start(chars).len())),
    decreases chars.len(),
{
    lemma_trimmed_start(chars);
    if chars.len() > 0 && white_space(chars.first()) {
        let rest = chars.drop_first();
        lemma_trimmed_start(rest);
        lemma_blank_front(rest);
        let n = chars.len() - trimmed_start(chars).len();
        let less = rest.take(n - 1);
        assert forall|i: int| 0 <= i < n implies white_space(#[trigger] chars.take(n)[i]) by {
            if i > 0 {
                assert(chars.take(n)[i] == less[i - 1]);
            }
        }
    }
}

proof fn lemma_blank_back(chars: Seq<char>)
    ensures
        is_blank(chars.skip(trimmed_end(chars).len() as int)),
    decreases chars.len(),
{
    lemma_trimmed_end(chars);
    if chars.len() > 0 && white_space(chars.last()) {
        let front = chars.drop_last();
        lemma_trimmed_end(front);
        lemma_blank_back(front);
        let n = trimmed_end(chars).len() as int;
        let less = front.skip(n);
        assert forall|i: int| 0 <= i < chars.len() - n implies white_space(
            #[trigger] chars.skip(n)[i],
        ) by {
            if i < less.len() {
                assert(chars.skip(n)[i] == less[i]);
            }
        }
    }
}

/// Trimming takes white space off both ends, all of it and nothing else.
pub proof fn law_trimmed(chars: Seq<char>)
    ensures
        exists|front: Seq<char>, back: Seq<char>|
            {
                &&& is_blank(front)
                &&& is_blank(back)
                &&& chars == #[trigger] (front + trimmed(chars) + back)
            },
        trimmed(chars).len() > 0 ==> !white_space(trimmed(chars).first()) && !white_space(
            trimmed(chars).last(),
        ),
{
    let rest = trimmed_start(chars);
    let front = chars.take(chars.len() - rest.len());
    let back = rest.skip(trimmed(chars).len() as int);
    lemma_trimmed_start(chars);
    lemma_trimmed_end(rest);
    lemma_blank_front(chars);
    lemma_blank_back(rest);
    assert(rest == trimmed(chars) + back);
    assert(chars == front + trimmed(chars) + back);
}

/// Trimming the front takes off white space, all of it and nothing else.
pub proof fn law_trimmed_start(chars: Seq<char>)
    ensures
        exists|front: Seq<char>|
            is_blank(front) && chars == #[trigger] (front + trimmed_start(chars)),
        trimmed_start(chars).len() > 0 ==> !white_space(trimmed_start(chars).first()),
{
    let front = chars.take(chars.len() - trimmed_start(chars).len());
    lemma_trimmed_start(chars);
    lemma_blank_front(chars);
    assert(chars == front + trimmed_start(chars));
}

/// A text without white space is one word, unless it is empty.
pub proof fn law_one_word(chars: Seq<char>)
    requires
        forall|i: int| 0 <= i < chars.len() ==> !white_space(#[trigger] chars[i]),
    ensures
        words(chars) == if chars.len() > 0 {
            seq![chars]
        } else {
            Seq::empty()
        },
{
    if chars.len() > 0 {
        let end = word_len(chars) as int;
        lemma_word_len(chars);
        assert(end == chars.len());
        assert(chars.take(end) == chars);
        assert(chars.skip(end) == Seq::<char>::empty());
        assert(words(chars.skip(end)) == Seq::<Seq<char>>::empty());
    }
}

/// The words on either side of white space are the words of each side.
pub proof fn law_words_apart(left: Seq<char>, space: char, right: Seq<char>)
    requires
        white_space(space),
    ensures
        words(left + seq![space] + right) == words(left) + words(right),
    decreases left.len(),
{
    let whole = left + seq![space] + right;
    if left.len() == 0 {
        assert(whole.drop_first() == right);
        assert(words(left) + words(right) == words(right));
    } else if white_space(left.first()) {
        assert(whole.drop_first() == left.drop_first() + seq![space] + right);
        law_words_apart(left.drop_first(), space, right);
    } else {
        lemma_word_len_before(left, space, right);
        lemma_word_len(left);
        let end = word_len(left) as int;
        assert(whole.take(end) == left.take(end));
        assert(whole.skip(end) == left.skip(end) + seq![space] + right);
        law_words_apart(left.skip(end), space, right);
        assert(words(whole) == seq![left.take(end)] + (words(left.skip(end)) + words(right)));
        assert(words(left) == seq![left.take(end)] + words(left.skip(end)));
    }
}

proof fn lemma_word_len_before(left: Seq<char>, space: char, right: Seq<char>)
    requires
        white_space(space),
    ensures
        word_len(left + seq![space] + right) == word_len(left),
    decreases left.len(),
{
    let whole = left + seq![space] + right;
    if left.len() > 0 && !white_space(left.first()) {
        assert(whole.drop_first() == left.drop_first() + seq![space] + right);
        lemma_word_len_before(left.drop_first(), space, right);
    }
}

} // verus!
