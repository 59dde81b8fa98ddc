//! Reading the menu page: the markup is parsed and walked with CSS selectors,
//! and what each group and meal entry holds is handed to the menu assembly.

use vstd::prelude::*;
use crate::dom::{
    compile_selector, inner_html, matches_within, document_matches, parse_document,
    select_in_document, select_within, text_at, inner_html_at, selector_valid, text_nodes,
    ElementPath, Node, Pattern,
};
use crate::menu::{
    menu_of, menu_outcome, sources_view, GroupSource, GroupSourceView, MealSource,
    MealSourceView, MensaMenu, MenuError,
};

verus! {

pub open spec fn group_selector() -> Seq<char> {
    ".splGroupWrapper"@
}

pub open spec fn label_selector() -> Seq<char> {
    ".splGroup"@
}

pub open spec fn meal_selector() -> Seq<char> {
    ".splMeal"@
}

pub open spec fn name_selector() -> Seq<char> {
    "span.bold"@
}

pub open spec fn price_selector() -> Seq<char> {
    "div.text-right"@
}

pub open spec fn tag_selector() -> Seq<char> {
    "span[role = 'tooltip']"@
}

/// The text nodes of the first descendant of the element at `path` that
/// matches `sel`, if there is one.
pub open spec fn first_text_at(html: Seq<char>, path: ElementPath, sel: Seq<char>) -> Option<
    Seq<Seq<char>>,
> {
    if matches_within(html, path, sel) > 0 {
        Some(text_at(html, path.push((sel, 0nat))))
    } else {
        None
    }
}

/// What the meal entry at `path` holds.
pub open spec fn meal_at(html: Seq<char>, path: ElementPath) -> MealSourceView {
    MealSourceView {
        name: first_text_at(html, path, name_selector()),
        codes: Seq::new(
            matches_within(html, path, tag_selector()),
            |k: int| inner_html_at(html, path.push((tag_selector(), k as nat))),
        ),
        price: first_text_at(html, path, price_selector()),
    }
}

/// What the group at `path` holds.
pub open spec fn group_at(html: Seq<char>, path: ElementPath) -> GroupSourceView {
    GroupSourceView {
        label: if matches_within(html, path, label_selector()) > 0 {
            Some(inner_html_at(html, path.push((label_selector(), 0nat))))
        } else {
            None
        },
        meals: Seq::new(
            matches_within(html, path, meal_selector()),
            |k: int| meal_at(html, path.push((meal_selector(), k as nat))),
        ),
    }
}

/// What the page holds for each of its groups, in document order.
pub open spec fn page_of(html: Seq<char>) -> Seq<GroupSourceView> {
    Seq::new(
        document_matches(html, group_selector()),
        |k: int| group_at(html, seq![(group_selector(), k as nat)]),
    )
}

/// The compiled selectors that locate the parts of the menu page.
pub struct MenuSelectors {
    group: Pattern,
    label: Pattern,
    meal: Pattern,
    name: Pattern,
    price: Pattern,
    tag: Pattern,
}

impl MenuSelectors {
    /// Each selector is compiled from its own text.
    pub closed spec fn wf(&self) -> bool {
        &&& self.group.text() == group_selector()
        &&& self.label.text() == label_selector()
        &&& self.meal.text() == meal_selector()
        &&& self.name.text() == name_selector()
        &&& self.price.text() == price_selector()
        &&& self.tag.text() == tag_selector()
    }

    /// Compiles the selectors; `None` exactly where one of them does not compile.
    pub fn new() -> (r: Option<MenuSelectors>)
        ensures
            r is Some <==> (selector_valid(group_selector()) && selector_valid(label_selector())
                && selector_valid(meal_selector()) && selector_valid(name_selector())
                && selector_valid(price_selector()) && selector_valid(tag_selector())),
            r is Some ==> r->Some_0.wf(),
    {
        let group = match compile_selector(".splGroupWrapper") {
            Some(s) => s,
            None => {
                return None;
            },
        };
        let label = match compile_selector(".splGroup") {
            Some(s) => s,
            None => {
                return None;
            },
        };
        let meal = match compile_selector(".splMeal") {
            Some(s) => s,
            None => {
                return None;
            },
        };
        let name = match compile_selector("span.bold") {
            Some(s) => s,
            None => {
                return None;
            },
        };
        let price = match compile_selector("div.text-right") {
            Some(s) => s,
            None => {
                return None;
            },
        };
        let tag = match compile_selector("span[role = 'tooltip']") {
            Some(s) => s,
            None => {
                return None;
            },
        };
        Some(MenuSelectors { group, label, meal, name, price, tag })
    }
}

/// The text nodes of the first descendant that matches, if there is one.
fn first_text(n: &Node, pat: &Pattern) -> (r: Option<Vec<String>>)
    ensures
        match r {
            Some(v) => first_text_at(n.page(), n.path(), pat.text()) == Some(v.deep_view()),
            None => first_text_at(n.page(), n.path(), pat.text()) is None,
        },
{
    let found = select_within(n, pat);
    if found.len() > 0 {
        Some(text_nodes(&found[0]))
    } else {
        None
    }
}

fn read_meal(m: &Node, sels: &MenuSelectors) -> (r: MealSource)
    requires
        sels.wf(),
    ensures
        r@ == meal_at(m.page(), m.path()),
{
    proof {
        reveal(MenuSelectors::wf);
    }
    let name = first_text(m, &sels.name);
    let markers = select_within(m, &sels.tag);
    let ghost want = meal_at(m.page(), m.path()).codes;
    let mut tag_codes: Vec<String> = Vec::new();
    let mut i: usize = 0;
    while i < markers.len()
        invariant
            sels.wf(),
            i <= markers.len(),
            want.len() == markers.len(),
            want == meal_at(m.page(), m.path()).codes,
            sels.tag.text() == tag_selector(),
            forall|k: int|
                0 <= k < markers.len() ==> (#[trigger] markers@[k]).page() == m.page()
                    && markers@[k].path() == m.path().push((sels.tag.text(), k as nat)),
            tag_codes.len() == i,
            forall|j: int| 0 <= j < i ==> (#[trigger] tag_codes@[j])@ == want[j],
        decreases markers.len() - i,
    {
        tag_codes.push(inner_html(&markers[i]));
        i = i + 1;
    }
    let price = first_text(m, &sels.price);
    let r = MealSource { name, tag_codes, price };
    assert(r@.codes =~= want);
    r
}

fn read_group(g: &Node, sels: &MenuSelectors) -> (r: GroupSource)
    requires
        sels.wf(),
    ensures
        r@ == group_at(g.page(), g.path()),
{
    proof {
        reveal(MenuSelectors::wf);
    }
    let labels = select_within(g, &sels.label);
    let label = if labels.len() > 0 {
        Some(inner_html(&labels[0]))
    } else {
        None
    };
    let entries = select_within(g, &sels.meal);
    let ghost want = group_at(g.page(), g.path()).meals;
    let mut meals: Vec<MealSource> = Vec::new();
    let mut i: usize = 0;
    while i < entries.len()
        invariant
            sels.wf(),
            i <= entries.len(),
            want.len() == entries.len(),
            want == group_at(g.page(), g.path()).meals,
            sels.meal.text() == meal_selector(),
            forall|k: int|
                0 <= k < entries.len() ==> (#[trigger] entries@[k]).page() == g.page()
                    && entries@[k].path() == g.path().push((sels.meal.text(), k as nat)),
            meals.len() == i,
            forall|j: int| 0 <= j < i ==> (#[trigger] meals@[j])@ == want[j],
        decreases entries.len() - i,
    {
        meals.push(read_meal(&entries[i], sels));
        i = i + 1;
    }
    let r = GroupSource { label, meals };
    assert(r@.meals =~= want);
    r
}

/// What the page holds for each of its groups, in document order.
fn read_page(html: &str, sels: &MenuSelectors) -> (r: Vec<GroupSource>)
    requires
        sels.wf(),
    ensures
        sources_view(r@) == page_of(html@),
{
    proof {
        reveal(MenuSelectors::wf);
    }
    let doc = parse_document(html);
    let wrappers = select_in_document(&doc, &sels.group);
    let ghost want = page_of(html@);
    let mut groups: Vec<GroupSource> = Vec::new();
    let mut i: usize = 0;
    while i < wrappers.len()
        invariant
            sels.wf(),
            doc.text() == html@,
            i <= wrappers.len(),
            want.len() == wrappers.len(),
            want == page_of(html@),
            sels.group.text() == group_selector(),
            forall|k: int|
                0 <= k < wrappers.len() ==> (#[trigger] wrappers@[k]).page() == html@
                    && wrappers@[k].path() == Seq::<(Seq<char>, nat)>::empty().push(
                    (sels.group.text(), k as nat),
                ),
            groups.len() == i,
            forall|j: int| 0 <= j < i ==> (#[trigger] groups@[j])@ == want[j],
        decreases wrappers.len() - i,
    {
        groups.push(read_group(&wrappers[i], sels));
        i = i + 1;
    }
    assert(sources_view(groups@) =~= want);
    groups
}

impl MensaMenu {
    /// The menu of `date` from the HTML of the menu page: the one that
    /// `menu_of` gives for what the page holds.
    pub fn extract(html: &str, date: chrono::NaiveDate, sels: &MenuSelectors) -> (r: Result<
        MensaMenu,
        MenuError,
    >)
        requires
            sels.wf(),
        ensures
            menu_outcome(r) == menu_of(date, page_of(html@)),
            r is Ok ==> r->Ok_0.wf(),
    {
        let groups = read_page(html, sels);
        MensaMenu::from_sources(date, &groups)
    }
}

} // verus!
