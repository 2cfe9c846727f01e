//! The planned retrieval, as markdown.

use vstd::prelude::*;
use crate::model::contents;
use crate::text::{add_part, join, joined, listed, optional, text_or, texts};

verus! {

/// Something that a plan lists, and how it is shown there.
pub trait Shown: View {
    /// The text that stands for an item with this content.
    spec fn shown(item: Self::V) -> Seq<char>;

    /// The text that stands for the item.
    fn show(&self) -> (text: String)
        ensures
            text@ == Self::shown(self@),
    ;
}

/// Something that the question names, and of what type it is.
pub struct Entity {
    pub value: Option<String>,
    pub entity: Option<String>,
}

pub struct EntityView {
    pub value: Option<Seq<char>>,
    pub entity: Option<Seq<char>>,
}

impl View for Entity {
    type V = EntityView;

    open spec fn view(&self) -> EntityView {
        EntityView { value: optional(self.value), entity: optional(self.entity) }
    }
}

impl Shown for Entity {
    open spec fn shown(item: EntityView) -> Seq<char> {
        item.value.unwrap_or("?"@) + " ("@ + item.entity.unwrap_or("?"@) + ")"@
    }

    fn show(&self) -> (text: String) {
        text_or(&self.value, "?").to_owned().concat(" (").concat(
            text_or(&self.entity, "?"),
        ).concat(")")
    }
}

/// A span of time, open where a bound is missing.
pub struct TimeWindow {
    pub start: Option<String>,
    pub end_exclusive: Option<String>,
}

pub struct TimeWindowView {
    pub start: Option<Seq<char>>,
    pub end_exclusive: Option<Seq<char>>,
}

impl View for TimeWindow {
    type V = TimeWindowView;

    open spec fn view(&self) -> TimeWindowView {
        TimeWindowView {
            start: optional(self.start),
            end_exclusive: optional(self.end_exclusive),
        }
    }
}

impl Shown for TimeWindow {
    open spec fn shown(item: TimeWindowView) -> Seq<char> {
        item.start.unwrap_or("…"@) + " → "@ + item.end_exclusive.unwrap_or("…"@)
    }

    fn show(&self) -> (text: String) {
        text_or(&self.start, "…").to_owned().concat(" → ").concat(
            text_or(&self.end_exclusive, "…"),
        )
    }
}

/// A value that a member is bound to.
pub struct Binding {
    pub member: Option<String>,
    pub value: Option<String>,
}

pub struct BindingView {
    pub member: Option<Seq<char>>,
    pub value: Option<Seq<char>>,
}

impl View for Binding {
    type V = BindingView;

    open spec fn view(&self) -> BindingView {
        BindingView { member: optional(self.member), value: optional(self.value) }
    }
}

impl Shown for Binding {
    open spec fn shown(item: BindingView) -> Seq<char> {
        item.member.unwrap_or("?"@) + " = \""@ + item.value.unwrap_or("?"@) + "\""@
    }

    fn show(&self) -> (text: String) {
        text_or(&self.member, "?").to_owned().concat(" = \"").concat(
            text_or(&self.value, "?"),
        ).concat("\"")
    }
}

/// A theme to search for.
pub struct Theme {
    pub value: Option<String>,
}

pub struct ThemeView {
    pub value: Option<Seq<char>>,
}

impl View for Theme {
    type V = ThemeView;

    open spec fn view(&self) -> ThemeView {
        ThemeView { value: optional(self.value) }
    }
}

impl Shown for Theme {
    open spec fn shown(item: ThemeView) -> Seq<char> {
        "\""@ + item.value.unwrap_or("?"@) + "\""@
    }

    fn show(&self) -> (text: String) {
        "\"".to_owned().concat(text_or(&self.value, "?")).concat("\"")
    }
}

/// What the sidecar plans to look for. A list that it does not give is empty.
pub struct Plan {
    pub entities: Vec<Entity>,
    pub time_windows: Vec<TimeWindow>,
    pub bindings: Vec<Binding>,
    pub themes: Vec<Theme>,
}

pub struct PlanView {
    pub entities: Seq<EntityView>,
    pub time_windows: Seq<TimeWindowView>,
    pub bindings: Seq<BindingView>,
    pub themes: Seq<ThemeView>,
}

impl View for Plan {
    type V = PlanView;

    open spec fn view(&self) -> PlanView {
        PlanView {
            entities: contents(self.entities@),
            time_windows: contents(self.time_windows@),
            bindings: contents(self.bindings@),
            themes: contents(self.themes@),
        }
    }
}

/// The line for `items` under `label`; `None` where there are no items.
pub open spec fn list_line<T: Shown>(label: Seq<char>, items: Seq<T::V>) -> Option<Seq<char>> {
    if items.len() == 0 {
        None
    } else {
        Some(label + joined(items.map_values(|item: T::V| T::shown(item)), " · "@))
    }
}

/// The lines that show a plan.
pub open spec fn plan_lines(plan: PlanView) -> Seq<Seq<char>> {
    seq!["**Planned retrieval**"@] + listed(
        list_line::<Entity>("- entities: "@, plan.entities),
    ) + listed(list_line::<TimeWindow>("- time: "@, plan.time_windows)) + listed(
        list_line::<Binding>("- bindings: "@, plan.bindings),
    ) + listed(list_line::<Theme>("- themes: "@, plan.themes))
}

fn list_text<T: Shown>(label: &str, items: &Vec<T>) -> (line: Option<String>)
    ensures
        optional(line) == list_line::<T>(label@, contents(items@)),
{
    if items.len() == 0 {
        return None;
    }
    let mut shown: Vec<String> = Vec::new();
    let mut i: usize = 0;
    while i < items.len()
        invariant
            i <= items@.len(),
            shown@.len() == i,
            forall|j: int| 0 <= j < i ==> (#[trigger] shown@[j])@ == T::shown(items@[j]@),
        decreases items@.len() - i,
    {
        shown.push(items[i].show());
        i = i + 1;
    }
    assert(texts(shown@) == contents(items@).map_values(|item: T::V| T::shown(item)));
    Some(label.to_owned().concat(join(&shown, " · ").as_str()))
}

/// The message that shows a plan.
pub fn plan_markdown(plan: &Plan) -> (message: String)
    ensures
        message@ == joined(plan_lines(plan@), "\n"@),
{
    let mut lines: Vec<String> = Vec::new();
    add_part(&mut lines, Some("**Planned retrieval**".to_owned()));
    add_part(&mut lines, list_text("- entities: ", &plan.entities));
    add_part(&mut lines, list_text("- time: ", &plan.time_windows));
    add_part(&mut lines, list_text("- bindings: ", &plan.bindings));
    add_part(&mut lines, list_text("- themes: ", &plan.themes));
    assert(texts(lines@) == plan_lines(plan@));
    join(&lines, "\n")
}

} // verus!
