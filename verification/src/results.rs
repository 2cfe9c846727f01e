//! The ranked calls that a retrieval returns, as markdown.

use vstd::prelude::*;
use crate::model::contents;
use crate::stages::{Figures, FiguresView};
use crate::text::{
    add_part, copied, decimal, is_digit, join, joined, law_decimal, listed, number, optional,
    take_chars, text_or, texts,
};

verus! {

/// `text` with each underscore and each full stop as a space.
pub open spec fn spaced(text: Seq<char>) -> Seq<char> {
    text.map_values(
        |c: char|
            if c == '_' || c == '.' {
                ' '
            } else {
                c
            },
    )
}

/// What is shown for the retrieval signal `member`.
pub open spec fn signal_label(member: Seq<char>) -> Seq<char> {
    if member == "calls.title"@ {
        "call title"@
    } else if member == "calls.brief"@ {
        "call brief"@
    } else if member == "calls.started"@ {
        "call date"@
    } else if member == "users.full_name"@ || member == "users.identity"@ {
        "your name"@
    } else if member == "users.email_address"@ {
        "your email"@
    } else if member == "participants.name"@ {
        "participant name"@
    } else if member == "participants.email_address"@ {
        "participant email"@
    } else if member == "participants.email_domain"@ {
        "participant email domain"@
    } else if member == "organizations.identity"@ {
        "organization"@
    } else if member == "call_topic_occurrences.name"@ {
        "call topic"@
    } else if member == "trackers.name"@ || member == "tracker_occurrences.name"@ {
        "tracker"@
    } else if member == "outline_sections.section"@ || member == "outline_items.text"@ {
        "call outline"@
    } else if member == "transcript_turns.sentence_text"@ {
        "transcript"@
    } else if member == "bm25"@ {
        "keywords (BM25)"@
    } else if member == "declared_index"@ || member == "theme_index:bm25"@ {
        "theme index"@
    } else {
        spaced(member)
    }
}

fn with_spaces(text: &str) -> (result: String)
    ensures
        result@ == spaced(text@),
{
    let mut result = String::new();
    for c in iter: text.chars()
        invariant
            iter.seq() == text@,
            result@ == spaced(text@.take(iter.index() as int)),
    {
        if c == '_' || c == '.' {
            result.push(' ');
        } else {
            result.push(c);
        }
        assert(text@.take(iter.index() + 1) == text@.take(iter.index() as int).push(c));
        assert(spaced(text@.take(iter.index() + 1)) == result@);
    }
    assert(text@.take(text@.len() as int) == text@);
    result
}

/// Human labels for the names of retrieval signals.
pub fn friendly_signal(member: &str) -> (label: String)
    ensures
        label@ == signal_label(member@),
{
    if member.eq("calls.title") {
        "call title".to_owned()
    } else if member.eq("calls.brief") {
        "call brief".to_owned()
    } else if member.eq("calls.started") {
        "call date".to_owned()
    } else if member.eq("users.full_name") || member.eq("users.identity") {
        "your name".to_owned()
    } else if member.eq("users.email_address") {
        "your email".to_owned()
    } else if member.eq("participants.name") {
        "participant name".to_owned()
    } else if member.eq("participants.email_address") {
        "participant email".to_owned()
    } else if member.eq("participants.email_domain") {
        "participant email domain".to_owned()
    } else if member.eq("organizations.identity") {
        "organization".to_owned()
    } else if member.eq("call_topic_occurrences.name") {
        "call topic".to_owned()
    } else if member.eq("trackers.name") || member.eq("tracker_occurrences.name") {
        "tracker".to_owned()
    } else if member.eq("outline_sections.section") || member.eq("outline_items.text") {
        "call outline".to_owned()
    } else if member.eq("transcript_turns.sentence_text") {
        "transcript".to_owned()
    } else if member.eq("bm25") {
        "keywords (BM25)".to_owned()
    } else if member.eq("declared_index") || member.eq("theme_index:bm25") {
        "theme index".to_owned()
    } else {
        with_spaces(member)
    }
}

/// One call of a ranking.
pub struct ResultRow {
    pub rank: Option<u64>,
    pub title: Option<String>,
    pub started: Option<String>,
    pub url: Option<String>,
    pub brief_excerpt: Option<String>,
    pub matched: Vec<String>,
}

pub struct ResultRowView {
    pub rank: Option<u64>,
    pub title: Option<Seq<char>>,
    pub started: Option<Seq<char>>,
    pub url: Option<Seq<char>>,
    pub brief_excerpt: Option<Seq<char>>,
    pub matched: Seq<Seq<char>>,
}

impl View for ResultRow {
    type V = ResultRowView;

    open spec fn view(&self) -> ResultRowView {
        ResultRowView {
            rank: self.rank,
            title: optional(self.title),
            started: optional(self.started),
            url: optional(self.url),
            brief_excerpt: optional(self.brief_excerpt),
            matched: texts(self.matched@),
        }
    }
}

/// The outcome of a retrieval: its calls in order, and what they were chosen
/// from.
pub struct Results {
    pub rows: Vec<ResultRow>,
    pub total_candidates: Option<u64>,
    pub warehouse_jobs: Option<u64>,
}

pub struct ResultsView {
    pub rows: Seq<ResultRowView>,
    pub total_candidates: Option<u64>,
    pub warehouse_jobs: Option<u64>,
}

impl View for Results {
    type V = ResultsView;

    open spec fn view(&self) -> ResultsView {
        ResultsView {
            rows: contents(self.rows@),
            total_candidates: self.total_candidates,
            warehouse_jobs: self.warehouse_jobs,
        }
    }
}

/// `labels` with each run of equal neighbours reduced to one of them.
pub open spec fn without_repeats(labels: Seq<Seq<char>>) -> Seq<Seq<char>>
    decreases labels.len(),
{
    if labels.len() == 0 {
        labels
    } else {
        let front = labels.drop_last();
        if front.len() > 0 && front.last() == labels.last() {
            without_repeats(front)
        } else {
            without_repeats(front).push(labels.last())
        }
    }
}

/// The signals of a call by their labels, neighbours that read alike only
/// once.
pub open spec fn matched_on(matched: Seq<Seq<char>>) -> Seq<char> {
    joined(
        without_repeats(matched.map_values(|member: Seq<char>| signal_label(member))),
        " · "@,
    )
}

/// The date at the front of a timestamp: its first ten characters.
pub open spec fn date_of(started: Option<Seq<char>>) -> Seq<char> {
    match started {
        Some(started) => started.take(if started.len() < 10 {
            started.len() as int
        } else {
            10
        }),
        None => ""@,
    }
}

/// The line that names a call, with a link where there is an address.
pub open spec fn heading(row: ResultRowView) -> Seq<char> {
    let rank = decimal(row.rank.unwrap_or(0) as nat);
    let title = row.title.unwrap_or("(untitled call)"@);
    let date = date_of(row.started);
    match row.url {
        Some(url) => rank + ". **["@ + title + "]("@ + url + ")** — "@ + date,
        None => rank + ". **"@ + title + "** — "@ + date,
    }
}

/// The line with the brief of a call, where there is one.
pub open spec fn brief(row: ResultRowView) -> Option<Seq<char>> {
    match row.brief_excerpt {
        Some(excerpt) => if excerpt.len() > 0 {
            Some("   *Brief:* "@ + excerpt)
        } else {
            None
        },
        None => None,
    }
}

/// The line with the signals of a call, where they say anything.
pub open spec fn evidence(row: ResultRowView) -> Option<Seq<char>> {
    if matched_on(row.matched).len() > 0 {
        Some("   *Matched on:* "@ + matched_on(row.matched))
    } else {
        None
    }
}

/// The lines of one call, the last of them empty.
pub open spec fn row_lines(row: ResultRowView) -> Seq<Seq<char>> {
    seq![heading(row)] + listed(brief(row)) + listed(evidence(row)) + seq![""@]
}

/// The lines of all calls in order.
pub open spec fn rows_lines(rows: Seq<ResultRowView>) -> Seq<Seq<char>>
    decreases rows.len(),
{
    if rows.len() == 0 {
        Seq::empty()
    } else {
        rows_lines(rows.drop_last()) + row_lines(rows.last())
    }
}

/// What the retrieval took, part by part.
pub open spec fn summary_parts(event: ResultsView, figures: FiguresView) -> Seq<Seq<char>> {
    let shown = match event.total_candidates {
        Some(total) => Some(
            decimal(event.rows.len()) + " of "@ + decimal(total as nat) + " candidates"@,
        ),
        None => None,
    };
    let jobs = match event.warehouse_jobs {
        Some(jobs) => Some(decimal(jobs as nat) + " warehouse jobs"@),
        None => None,
    };
    let scanned = match figures.bytes {
        Some(bytes) => Some(bytes + " scanned"@),
        None => None,
    };
    listed(shown) + listed(figures.latency) + listed(jobs) + listed(scanned)
}

/// All lines of the message: the summary, a note where nothing was returned,
/// and the calls.
pub open spec fn results_lines(event: ResultsView, figures: FiguresView) -> Seq<Seq<char>> {
    let title = "**Results**  ("@ + joined(summary_parts(event, figures), " · "@) + ")"@;
    let note = if event.rows.len() == 0 {
        Some("_No calls returned._"@)
    } else {
        None
    };
    seq![title] + listed(note) + rows_lines(event.rows)
}

/// Neighbours that differ keep their last label.
proof fn lemma_last_label(labels: Seq<Seq<char>>)
    requires
        labels.len() > 0,
    ensures
        without_repeats(labels).len() > 0,
        without_repeats(labels).last() == labels.last(),
    decreases labels.len(),
{
    let front = labels.drop_last();
    if front.len() > 0 && front.last() == labels.last() {
        lemma_last_label(front);
    }
}

/// The labels of `matched`, neighbours that read alike only once.
fn matched_labels(matched: &Vec<String>) -> (labels: Vec<String>)
    ensures
        texts(labels@) == without_repeats(
            texts(matched@).map_values(|member: Seq<char>| signal_label(member)),
        ),
{
    let mut labels: Vec<String> = Vec::new();
    let mut i: usize = 0;
    let ghost all = texts(matched@).map_values(|member: Seq<char>| signal_label(member));
    while i < matched.len()
        invariant
            i <= matched@.len(),
            all == texts(matched@).map_values(|member: Seq<char>| signal_label(member)),
            texts(labels@) == without_repeats(all.take(i as int)),
        decreases matched@.len() - i,
    {
        let label = friendly_signal(matched[i].as_str());
        let ghost before = all.take(i as int);
        proof {
            assert(all[i as int] == label@);
            assert(all.take(i + 1).drop_last() == before);
            if i > 0 {
                lemma_last_label(before);
                assert(texts(labels@).last() == before.last());
            }
        }
        let repeated = labels.len() > 0 && labels[labels.len() - 1].as_str().eq(label.as_str());
        if !repeated {
            let ghost known = texts(labels@);
            labels.push(label);
            assert(texts(labels@) == known.push(all[i as int]));
        }
        i = i + 1;
    }
    assert(all.take(i as int) == all);
    labels
}

fn heading_text(row: &ResultRow) -> (line: String)
    ensures
        line@ == heading(row@),
{
    let rank = number(
        match row.rank {
            Some(rank) => rank,
            None => 0,
        },
    );
    let title = text_or(&row.title, "(untitled call)");
    let date = match &row.started {
        Some(started) => take_chars(started.as_str(), 10),
        None => "".to_owned(),
    };
    match &row.url {
        Some(url) => rank.concat(". **[").concat(title).concat("](").concat(url.as_str()).concat(
            ")** — ",
        ).concat(date.as_str()),
        None => rank.concat(". **").concat(title).concat("** — ").concat(date.as_str()),
    }
}

fn brief_text(row: &ResultRow) -> (line: Option<String>)
    ensures
        optional(line) == brief(row@),
{
    match &row.brief_excerpt {
        Some(excerpt) => {
            if excerpt.as_str().is_empty() {
                None
            } else {
                Some("   *Brief:* ".to_owned().concat(excerpt.as_str()))
            }
        },
        None => None,
    }
}

fn evidence_text(row: &ResultRow) -> (line: Option<String>)
    ensures
        optional(line) == evidence(row@),
{
    let labels = matched_labels(&row.matched);
    let matched = join(&labels, " · ");
    if matched.as_str().is_empty() {
        None
    } else {
        Some("   *Matched on:* ".to_owned().concat(matched.as_str()))
    }
}

/// Adds the lines of one call.
fn add_row(lines: &mut Vec<String>, row: &ResultRow)
    ensures
        texts(final(lines)@) == texts(old(lines)@) + row_lines(row@),
{
    add_part(lines, Some(heading_text(row)));
    add_part(lines, brief_text(row));
    add_part(lines, evidence_text(row));
    add_part(lines, Some("".to_owned()));
}

fn summary_text(event: &Results, figures: &Figures) -> (summary: String)
    ensures
        summary@ == joined(summary_parts(event@, figures@), " · "@),
{
    let mut parts: Vec<String> = Vec::new();
    if let Some(total) = event.total_candidates {
        let total = number(total);
        let shown = number(event.rows.len() as u64);
        add_part(
            &mut parts,
            Some(shown.concat(" of ").concat(total.as_str()).concat(" candidates")),
        );
    }
    add_part(&mut parts, copied(&figures.latency));
    if let Some(jobs) = event.warehouse_jobs {
        add_part(&mut parts, Some(number(jobs).concat(" warehouse jobs")));
    }
    if let Some(bytes) = &figures.bytes {
        add_part(&mut parts, Some(bytes.clone().concat(" scanned")));
    }
    assert(texts(parts@) == summary_parts(event@, figures@));
    join(&parts, " · ")
}

/// The message that shows the calls of a retrieval.
pub fn results_markdown(event: &Results, figures: &Figures) -> (message: String)
    ensures
        message@ == joined(results_lines(event@, figures@), "\n"@),
{
    let summary = summary_text(event, figures);
    let mut lines: Vec<String> = Vec::new();
    add_part(&mut lines, Some("**Results**  (".to_owned().concat(summary.as_str()).concat(")")));
    if event.rows.len() == 0 {
        add_part(&mut lines, Some("_No calls returned._".to_owned()));
    }
    let ghost head = texts(lines@);
    let mut i: usize = 0;
    assert(head + rows_lines(event@.rows.take(0)) == head);
    while i < event.rows.len()
        invariant
            i <= event.rows@.len(),
            texts(lines@) == head + rows_lines(event@.rows.take(i as int)),
        decreases event.rows@.len() - i,
    {
        add_row(&mut lines, &event.rows[i]);
        proof {
            let rows = event@.rows;
            assert(rows.take(i + 1).drop_last() == rows.take(i as int));
            assert(rows.take(i + 1).last() == event.rows@[i as int]@);
        }
        i = i + 1;
    }
    assert(event@.rows.take(i as int) == event@.rows);
    assert(texts(lines@) == results_lines(event@, figures@));
    join(&lines, "\n")
}

/// No two neighbours among the labels of a call read alike.
pub proof fn law_neighbours_differ(labels: Seq<Seq<char>>, i: int)
    requires
        0 <= i < without_repeats(labels).len() - 1,
    ensures
        without_repeats(labels)[i] != without_repeats(labels)[i + 1],
    decreases labels.len(),
{
    let front = labels.drop_last();
    if front.len() > 0 {
        lemma_last_label(front);
        if i < without_repeats(front).len() - 1 {
            law_neighbours_differ(front, i);
        }
    } else if labels.len() > 0 {
        assert(without_repeats(front) == front);
    }
}

/// Among the labels of a call, exactly those of its signals occur.
pub proof fn law_labels_kept(labels: Seq<Seq<char>>, label: Seq<char>)
    ensures
        without_repeats(labels).contains(label) <==> labels.contains(label),
    decreases labels.len(),
{
    if labels.len() > 0 {
        let front = labels.drop_last();
        let kept = without_repeats(front);
        law_labels_kept(front, label);
        assert(labels == front.push(labels.last()));
        assert(front.push(labels.last()).contains(label) <==> front.contains(label) || label
            == labels.last()) by {
            lemma_push_contains(front, labels.last(), label);
        }
        assert(kept.push(labels.last()).contains(label) <==> kept.contains(label) || label
            == labels.last()) by {
            lemma_push_contains(kept, labels.last(), label);
        }
        if front.len() > 0 {
            assert(front.contains(front.last()));
        }
    }
}

proof fn lemma_push_contains(list: Seq<Seq<char>>, added: Seq<char>, label: Seq<char>)
    ensures
        list.push(added).contains(label) <==> list.contains(label) || label == added,
{
    if list.contains(label) {
        let i = choose|i: int| 0 <= i < list.len() && list[i] == label;
        assert(list.push(added)[i] == label);
    }
    assert(list.push(added)[list.len() as int] == added);
    if list.push(added).contains(label) && label != added {
        let i = choose|i: int| 0 <= i < list.push(added).len() && list.push(added)[i] == label;
        assert(list[i] == label);
    }
}

/// Where the lines of the call at `i` begin among those of all calls.
pub open spec fn row_start(rows: Seq<ResultRowView>, i: int) -> int {
    rows_lines(rows.take(i)).len() as int
}

/// The message shows every call, with all its lines together, and the calls in
/// their order.
pub proof fn law_every_call_is_shown(
    event: ResultsView,
    figures: FiguresView,
    i: int,
)
    requires
        0 <= i < event.rows.len(),
    ensures
        ({
            let lines = results_lines(event, figures);
            let row = row_lines(event.rows[i]);
            let start = 1 + row_start(event.rows, i);
            &&& 1 <= start
            &&& start + row.len() <= lines.len()
            &&& lines.subrange(start, start + row.len()) == row
            &&& i + 1 < event.rows.len() ==> 1 + row_start(event.rows, i + 1) == start + row.len()
        }),
{
    let rows = event.rows;
    let row = row_lines(rows[i]);
    let lines = results_lines(event, figures);
    let start = row_start(rows, i);
    assert(rows.take(i + 1).drop_last() == rows.take(i));
    assert(rows.take(i + 1).last() == rows[i]);
    lemma_rows_lines_prefix(rows, i + 1);
    assert(lines.skip(1) == rows_lines(rows));
    let front = rows_lines(rows.take(i + 1));
    assert(front == rows_lines(rows.take(i)) + row);
    assert forall|k: int| 0 <= k < row.len() implies lines[1 + start + k] == row[k] by {
        assert(lines[1 + start + k] == lines.skip(1)[start + k]);
        assert(rows_lines(rows)[start + k] == front[start + k]);
    }
    assert(lines.subrange(1 + start, 1 + start + row.len()) == row);
}

/// The lines of the first calls come first.
proof fn lemma_rows_lines_prefix(rows: Seq<ResultRowView>, n: int)
    requires
        0 <= n <= rows.len(),
    ensures
        rows_lines(rows.take(n)).is_prefix_of(rows_lines(rows)),
    decreases rows.len(),
{
    if n == rows.len() {
        assert(rows.take(n) == rows);
    } else {
        let front = rows.drop_last();
        lemma_rows_lines_prefix(front, n);
        assert(front.take(n) == rows.take(n));
        let some = rows_lines(rows.take(n));
        let most = rows_lines(front);
        assert(some == most.subrange(0, some.len() as int));
        assert(rows_lines(rows).subrange(0, some.len() as int) == some);
    }
}

/// Whether `line` begins with a decimal digit.
pub open spec fn is_numbered(line: Seq<char>) -> bool {
    line.len() > 0 && is_digit(line[0])
}

/// Whether `line` begins with `rank` in decimal and `. **`, and holds `title`
/// somewhere behind that.
pub open spec fn names_call(line: Seq<char>, rank: nat, title: Seq<char>) -> bool {
    let front = decimal(rank) + ". **"@;
    &&& front.is_prefix_of(line)
    &&& exists|k: int|
        {
            &&& front.len() <= k
            &&& k + title.len() <= line.len()
            &&& #[trigger] line.subrange(k, k + title.len()) == title
        }
}

/// Whether the numbered lines among `lines` are those at the places `at`, in
/// this order: one for each of `rows`, and it names that call.
pub open spec fn has_headings(
    lines: Seq<Seq<char>>,
    rows: Seq<ResultRowView>,
    at: Seq<int>,
) -> bool {
    &&& at.len() == rows.len()
    &&& forall|i: int| 0 <= i < at.len() ==> 0 <= #[trigger] at[i] < lines.len()
    &&& forall|i: int, j: int| 0 <= i < j < at.len() ==> #[trigger] at[i] < #[trigger] at[j]
    &&& forall|i: int|
        0 <= i < at.len() ==> names_call(
            lines[#[trigger] at[i]],
            rows[i].rank.unwrap_or(0) as nat,
            rows[i].title.unwrap_or("(untitled call)"@),
        )
    &&& forall|k: int|
        0 <= k < lines.len() ==> (is_numbered(#[trigger] lines[k]) <==> at.contains(k))
}

/// The message has one numbered line for each call, in the order of the calls,
/// which begins with the rank of the call and holds its title; it has no other
/// numbered lines. It notes that there are no calls exactly where there are
/// none.
pub proof fn law_one_heading_each(event: ResultsView, figures: FiguresView)
    ensures
        exists|at: Seq<int>| has_headings(results_lines(event, figures), event.rows, at),
        results_lines(event, figures).contains("_No calls returned._"@) <==> event.rows.len() == 0,
{
    let lines = results_lines(event, figures);
    let rows = event.rows;
    reveal_strlit("**Results**  (");
    reveal_strlit("_No calls returned._");
    assert(lines[0][0] == '*');
    if rows.len() == 0 {
        assert(lines[1] == "_No calls returned._"@);
        assert(lines[1][0] == '_');
        assert(has_headings(lines, rows, Seq::<int>::empty()));
    } else {
        lemma_headings(rows);
        let some = rows_lines(rows);
        assert(lines == seq![lines[0]] + some);
        let low = choose|at: Seq<int>| has_headings(some, rows, at);
        let at = Seq::new(low.len(), |i: int| low[i] + 1);
        assert forall|k: int| 0 <= k < lines.len() implies (is_numbered(#[trigger] lines[k])
            <==> at.contains(k)) by {
            if k > 0 {
                assert(lines[k] == some[k - 1]);
                if low.contains(k - 1) {
                    let i = choose|i: int| 0 <= i < low.len() && low[i] == k - 1;
                    assert(at[i] == k);
                }
                if at.contains(k) {
                    let i = choose|i: int| 0 <= i < at.len() && at[i] == k;
                    assert(low[i] == k - 1);
                }
            } else if at.contains(0) {
                let i = choose|i: int| 0 <= i < at.len() && at[i] == 0;
                assert(low[i] == -1);
            }
        }
        assert forall|i: int| 0 <= i < at.len() implies names_call(
            lines[#[trigger] at[i]],
            rows[i].rank.unwrap_or(0) as nat,
            rows[i].title.unwrap_or("(untitled call)"@),
        ) by {
            assert(lines[at[i]] == some[low[i]]);
        }
        assert(has_headings(lines, rows, at));
        assert forall|k: int| 0 <= k < lines.len() implies lines[k] != "_No calls returned._"@ by {
            if k > 0 {
                assert(lines[k] == some[k - 1]);
                lemma_no_note(rows, k - 1);
            }
        }
    }
}

proof fn lemma_heading_names(row: ResultRowView)
    ensures
        names_call(
            heading(row),
            row.rank.unwrap_or(0) as nat,
            row.title.unwrap_or("(untitled call)"@),
        ),
        is_numbered(heading(row)),
{
    let line = heading(row);
    let rank = decimal(row.rank.unwrap_or(0) as nat);
    let title = row.title.unwrap_or("(untitled call)"@);
    let front = rank + ". **"@;
    law_decimal(row.rank.unwrap_or(0) as nat);
    reveal_strlit(". **");
    reveal_strlit(". **[");
    assert(". **["@.len() == 5);
    assert(". **"@.len() == 4);
    assert(". **["@.subrange(0, 4) == ". **"@);
    assert(line[0] == rank[0]);
    let k: int = match row.url {
        Some(_) => front.len() as int + 1,
        None => front.len() as int,
    };
    assert(line.subrange(0, front.len() as int) == front);
    assert(line.subrange(k, k + title.len()) == title);
}

/// Only the first line of a call is numbered, and none of them is the note.
proof fn lemma_other_lines(row: ResultRowView, j: int)
    requires
        0 <= j < row_lines(row).len(),
    ensures
        is_numbered(row_lines(row)[j]) <==> j == 0,
        row_lines(row)[j] != "_No calls returned._"@,
{
    let line = row_lines(row)[j];
    lemma_heading_names(row);
    reveal_strlit("_No calls returned._");
    reveal_strlit("   *Brief:* ");
    reveal_strlit("   *Matched on:* ");
    reveal_strlit("");
    assert("_No calls returned._"@[0] == '_');
    assert("   *Brief:* "@[0] == ' ');
    assert("   *Matched on:* "@[0] == ' ');
    assert(""@.len() == 0);
    if j == 0 {
        assert(line == heading(row));
        assert(is_digit(line[0]));
    } else if j == row_lines(row).len() - 1 {
        assert(line == ""@);
    } else {
        assert(Some(line) == brief(row) || Some(line) == evidence(row));
        assert(line[0] == ' ');
    }
}

proof fn lemma_no_note(rows: Seq<ResultRowView>, k: int)
    requires
        0 <= k < rows_lines(rows).len(),
    ensures
        rows_lines(rows)[k] != "_No calls returned._"@,
    decreases rows.len(),
{
    let front = rows_lines(rows.drop_last());
    if k < front.len() {
        lemma_no_note(rows.drop_last(), k);
    } else {
        lemma_other_lines(rows.last(), k - front.len());
    }
}

proof fn lemma_headings(rows: Seq<ResultRowView>)
    ensures
        exists|at: Seq<int>| has_headings(rows_lines(rows), rows, at),
    decreases rows.len(),
{
    let lines = rows_lines(rows);
    if rows.len() == 0 {
        assert(has_headings(lines, rows, Seq::<int>::empty()));
    } else {
        let front = rows.drop_last();
        let some = rows_lines(front);
        let more = row_lines(rows.last());
        lemma_headings(front);
        let low = choose|at: Seq<int>| has_headings(some, front, at);
        let n = some.len() as int;
        let at = low.push(n);
        lemma_heading_names(rows.last());
        assert(lines[n] == heading(rows.last()));
        assert(at[at.len() - 1] == n);
        assert forall|i: int| 0 <= i < at.len() implies names_call(
            lines[#[trigger] at[i]],
            rows[i].rank.unwrap_or(0) as nat,
            rows[i].title.unwrap_or("(untitled call)"@),
        ) by {
            if i < low.len() {
                assert(at[i] == low[i]);
                assert(lines[at[i]] == some[low[i]]);
                assert(rows[i] == front[i]);
            }
        }
        assert forall|k: int| 0 <= k < lines.len() implies (is_numbered(#[trigger] lines[k])
            <==> at.contains(k)) by {
            if k < n {
                assert(lines[k] == some[k]);
                if low.contains(k) {
                    let i = choose|i: int| 0 <= i < low.len() && low[i] == k;
                    assert(at[i] == k);
                }
                if at.contains(k) {
                    let i = choose|i: int| 0 <= i < at.len() && at[i] == k;
                    assert(low[i] == k);
                }
            } else {
                lemma_other_lines(rows.last(), k - n);
                assert(lines[k] == more[k - n]);
                if at.contains(k) {
                    let i = choose|i: int| 0 <= i < at.len() && at[i] == k;
                    if i < low.len() {
                        assert(low[i] < n);
                    }
                }
            }
        }
        assert(has_headings(lines, rows, at));
    }
}

/// The signals that have a label of their own, each with its label.
pub open spec fn known_signals() -> Seq<(Seq<char>, Seq<char>)> {
    seq![
        ("calls.title"@, "call title"@),
        ("calls.brief"@, "call brief"@),
        ("calls.started"@, "call date"@),
        ("users.full_name"@, "your name"@),
        ("users.identity"@, "your name"@),
        ("users.email_address"@, "your email"@),
        ("participants.name"@, "participant name"@),
        ("participants.email_address"@, "participant email"@),
        ("participants.email_domain"@, "participant email domain"@),
        ("organizations.identity"@, "organization"@),
        ("call_topic_occurrences.name"@, "call topic"@),
        ("trackers.name"@, "tracker"@),
        ("tracker_occurrences.name"@, "tracker"@),
        ("outline_sections.section"@, "call outline"@),
        ("outline_items.text"@, "call outline"@),
        ("transcript_turns.sentence_text"@, "transcript"@),
        ("bm25"@, "keywords (BM25)"@),
        ("declared_index"@, "theme index"@),
        ("theme_index:bm25"@, "theme index"@),
    ]
}

/// Every known signal has its label. All others are shown by their names, in
/// which a space takes the place of each underscore and each full stop.
pub proof fn law_signal_labels(member: Seq<char>)
    ensures
        forall|i: int|
            0 <= i < known_signals().len() && (#[trigger] known_signals()[i]).0 == member
                ==> signal_label(member) == known_signals()[i].1,
        (forall|i: int|
            0 <= i < known_signals().len() ==> (#[trigger] known_signals()[i]).0 != member) ==> {
            &&& signal_label(member).len() == member.len()
            &&& forall|k: int|
                0 <= k < member.len() ==> #[trigger] signal_label(member)[k] == if member[k] == '_'
                    || member[k] == '.' {
                    ' '
                } else {
                    member[k]
                }
        },
{
    let known = known_signals();
    reveal_strlit("calls.title");
    reveal_strlit("calls.brief");
    reveal_strlit("calls.started");
    reveal_strlit("users.full_name");
    reveal_strlit("users.identity");
    reveal_strlit("users.email_address");
    reveal_strlit("participants.name");
    reveal_strlit("participants.email_address");
    reveal_strlit("participants.email_domain");
    reveal_strlit("organizations.identity");
    reveal_strlit("call_topic_occurrences.name");
    reveal_strlit("trackers.name");
    reveal_strlit("tracker_occurrences.name");
    reveal_strlit("outline_sections.section");
    reveal_strlit("outline_items.text");
    reveal_strlit("transcript_turns.sentence_text");
    reveal_strlit("bm25");
    reveal_strlit("declared_index");
    reveal_strlit("theme_index:bm25");
    assert("calls.title"@.len() == 11);
    assert("calls.brief"@.len() == 11);
    assert("calls.started"@.len() == 13);
    assert("users.full_name"@.len() == 15);
    assert("users.identity"@.len() == 14);
    assert("users.email_address"@.len() == 19);
    assert("participants.name"@.len() == 17);
    assert("participants.email_address"@.len() == 26);
    assert("participants.email_domain"@.len() == 25);
    assert("organizations.identity"@.len() == 22);
    assert("call_topic_occurrences.name"@.len() == 27);
    assert("trackers.name"@.len() == 13);
    assert("tracker_occurrences.name"@.len() == 24);
    assert("outline_sections.section"@.len() == 24);
    assert("outline_items.text"@.len() == 18);
    assert("transcript_turns.sentence_text"@.len() == 30);
    assert("bm25"@.len() == 4);
    assert("declared_index"@.len() == 14);
    assert("theme_index:bm25"@.len() == 16);
    assert("calls.title"@[6] != "calls.brief"@[6]);
    assert("calls.started"@[0] != "trackers.name"@[0]);
    assert("users.identity"@[0] != "declared_index"@[0]);
    assert("tracker_occurrences.name"@[0] != "outline_sections.section"@[0]);
    assert(known[0].0 == "calls.title"@);
    assert(known[1].0 == "calls.brief"@);
    assert(known[2].0 == "calls.started"@);
    assert(known[3].0 == "users.full_name"@);
    assert(known[4].0 == "users.identity"@);
    assert(known[5].0 == "users.email_address"@);
    assert(known[6].0 == "participants.name"@);
    assert(known[7].0 == "participants.email_address"@);
    assert(known[8].0 == "participants.email_domain"@);
    assert(known[9].0 == "organizations.identity"@);
    assert(known[10].0 == "call_topic_occurrences.name"@);
    assert(known[11].0 == "trackers.name"@);
    assert(known[12].0 == "tracker_occurrences.name"@);
    assert(known[13].0 == "outline_sections.section"@);
    assert(known[14].0 == "outline_items.text"@);
    assert(known[15].0 == "transcript_turns.sentence_text"@);
    assert(known[16].0 == "bm25"@);
    assert(known[17].0 == "declared_index"@);
    assert(known[18].0 == "theme_index:bm25"@);
}

/// The message on some results is made of lines, among which each call has its
/// numbered one, and the note that there are none stands exactly where there
/// are none.
pub proof fn law_message_has_headings(event: &Results, figures: &Figures, message: String)
    requires
        call_ensures(results_markdown, (event, figures), message),
    ensures
        exists|lines: Seq<Seq<char>>, at: Seq<int>|
            {
                &&& message@ == joined(lines, "\n"@)
                &&& #[trigger] has_headings(lines, event@.rows, at)
                &&& lines.contains("_No calls returned._"@) <==> event@.rows.len() == 0
            },
{
    law_one_heading_each(event@, figures@);
    let lines = results_lines(event@, figures@);
    let at = choose|at: Seq<int>| has_headings(lines, event@.rows, at);
    assert(has_headings(lines, event@.rows, at));
}

/// A signal is shown under its label.
pub proof fn law_signal_is_labelled(member: &str, label: String, i: int)
    requires
        call_ensures(friendly_signal, (member,), label),
        0 <= i < known_signals().len(),
        member@ == known_signals()[i].0,
    ensures
        label@ == known_signals()[i].1,
{
    law_signal_labels(member@);
}

} // verus!
