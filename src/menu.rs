//! Meals, meal groups and the menu, and how they are assembled, failing at the
//! first missing element, from what the page holds for each of them.

use vstd::prelude::*;
use crate::price::{price_of, MealPrice};
use crate::tag::{tag_of, MealTag};
use crate::text::{normalize, normalize_text};

verus! {

#[verifier::external_type_specification]
#[verifier::external_body]
pub struct ExNaiveDate(chrono::NaiveDate);

/// Relies on `NaiveDate`'s derived `Clone` (the type is `Copy`): a clone is the same
/// date. The derived `Clone` of `MensaMenu` calls it.
pub assume_specification[ <chrono::NaiveDate as core::clone::Clone>::clone ](
    d: &chrono::NaiveDate,
) -> (r: chrono::NaiveDate)
    ensures
        r == *d,
;

#[verifier::external_type_specification]
#[verifier::external_body]
pub struct ExRequestError(reqwest::Error);

/// Why no menu could be read.
#[derive(Debug)]
pub enum MenuError {
    /// Fetching the page failed; the transport's error is passed on as it is.
    Request(reqwest::Error),
    CategoryNameNotFound,
    MealNameNotFound,
    MealPriceNotFound,
}

/// A meal: its name, price, and tags without duplicates.
#[derive(Clone, Debug)]
pub struct Meal {
    pub name: String,
    pub price: MealPrice,
    pub tags: Vec<MealTag>,
}

/// A category of meals, in the order the page lists them.
#[derive(Clone, Debug)]
pub struct MealGroup {
    pub name: String,
    pub meals: Vec<Meal>,
}

/// The menu of one day: its groups, in the order the page lists them.
#[derive(Clone, Debug)]
pub struct MensaMenu {
    pub date: chrono::NaiveDate,
    pub groups: Vec<MealGroup>,
}

/// What the page holds for one meal entry: the text nodes of its name element
/// and of its price element (`None` where the element is missing), and the
/// inner markup of each of its tag markers.
#[derive(Clone, Debug)]
pub struct MealSource {
    pub name: Option<Vec<String>>,
    pub tag_codes: Vec<String>,
    pub price: Option<Vec<String>>,
}

/// What the page holds for one group: the inner markup of its label element
/// (`None` where it is missing) and its meal entries.
#[derive(Clone, Debug)]
pub struct GroupSource {
    pub label: Option<String>,
    pub meals: Vec<MealSource>,
}

pub struct MealView {
    pub name: Seq<char>,
    pub price: MealPrice,
    pub tags: Set<MealTag>,
}

pub struct GroupView {
    pub name: Seq<char>,
    pub meals: Seq<MealView>,
}

pub struct MenuView {
    pub date: chrono::NaiveDate,
    pub groups: Seq<GroupView>,
}

pub struct MealSourceView {
    pub name: Option<Seq<Seq<char>>>,
    pub codes: Seq<Seq<char>>,
    pub price: Option<Seq<Seq<char>>>,
}

pub struct GroupSourceView {
    pub label: Option<Seq<char>>,
    pub meals: Seq<MealSourceView>,
}

pub open spec fn pieces_view(o: Option<Vec<String>>) -> Option<Seq<Seq<char>>> {
    match o {
        Some(v) => Some(v.deep_view()),
        None => None,
    }
}

impl View for Meal {
    type V = MealView;

    open spec fn view(&self) -> MealView {
        MealView { name: self.name@, price: self.price, tags: self.tags@.to_set() }
    }
}

impl View for MealGroup {
    type V = GroupView;

    open spec fn view(&self) -> GroupView {
        GroupView { name: self.name@, meals: self.meals@.map_values(|m: Meal| m@) }
    }
}

impl View for MensaMenu {
    type V = MenuView;

    open spec fn view(&self) -> MenuView {
        MenuView { date: self.date, groups: self.groups@.map_values(|g: MealGroup| g@) }
    }
}

impl View for MealSource {
    type V = MealSourceView;

    open spec fn view(&self) -> MealSourceView {
        MealSourceView {
            name: pieces_view(self.name),
            codes: self.tag_codes.deep_view(),
            price: pieces_view(self.price),
        }
    }
}

impl View for GroupSource {
    type V = GroupSourceView;

    open spec fn view(&self) -> GroupSourceView {
        GroupSourceView {
            label: match self.label {
                Some(l) => Some(l@),
                None => None,
            },
            meals: self.meals@.map_values(|m: MealSource| m@),
        }
    }
}

pub open spec fn sources_view(gs: Seq<GroupSource>) -> Seq<GroupSourceView> {
    gs.map_values(|g: GroupSource| g@)
}

impl Meal {
    pub open spec fn wf(&self) -> bool {
        self.tags@.no_duplicates()
    }
}

impl MealGroup {
    pub open spec fn wf(&self) -> bool {
        forall|j: int| 0 <= j < self.meals@.len() ==> (#[trigger] self.meals@[j]).wf()
    }
}

impl MensaMenu {
    pub open spec fn wf(&self) -> bool {
        forall|i: int| 0 <= i < self.groups@.len() ==> (#[trigger] self.groups@[i]).wf()
    }
}

/// The tags that the recognised codes stand for.
pub open spec fn tags_of(codes: Seq<Seq<char>>) -> Set<MealTag> {
    Set::new(
        |t: MealTag| exists|k: int| 0 <= k < codes.len() && #[trigger] tag_of(codes[k]) == Some(t),
    )
}

/// A meal from its entry: a missing name element comes first, then a missing
/// or malformed price.
pub open spec fn meal_of(m: MealSourceView) -> Result<MealView, MenuError> {
    match m.name {
        None => Err(MenuError::MealNameNotFound),
        Some(name) => match m.price {
            None => Err(MenuError::MealPriceNotFound),
            Some(text) => match price_of(normalize(text)) {
                None => Err(MenuError::MealPriceNotFound),
                Some(p) => Ok(MealView { name: normalize(name), price: p, tags: tags_of(m.codes) }),
            },
        },
    }
}

/// The meals of a group in order, or the error of the first entry that fails.
pub open spec fn meals_of(ms: Seq<MealSourceView>) -> Result<Seq<MealView>, MenuError>
    decreases ms.len(),
{
    if ms.len() == 0 {
        Ok(Seq::empty())
    } else {
        match meals_of(ms.drop_last()) {
            Err(e) => Err(e),
            Ok(done) => match meal_of(ms.last()) {
                Err(e) => Err(e),
                Ok(m) => Ok(done.push(m)),
            },
        }
    }
}

/// A group: its label, then its meals.
pub open spec fn group_of(g: GroupSourceView) -> Result<GroupView, MenuError> {
    match g.label {
        None => Err(MenuError::CategoryNameNotFound),
        Some(label) => match meals_of(g.meals) {
            Err(e) => Err(e),
            Ok(ms) => Ok(GroupView { name: label, meals: ms }),
        },
    }
}

/// The groups in order, or the error of the first group that fails.
pub open spec fn groups_of(gs: Seq<GroupSourceView>) -> Result<Seq<GroupView>, MenuError>
    decreases gs.len(),
{
    if gs.len() == 0 {
        Ok(Seq::empty())
    } else {
        match groups_of(gs.drop_last()) {
            Err(e) => Err(e),
            Ok(done) => match group_of(gs.last()) {
                Err(e) => Err(e),
                Ok(g) => Ok(done.push(g)),
            },
        }
    }
}

/// The menu of `date` from the groups of a page: all of it, or the first error.
pub open spec fn menu_of(date: chrono::NaiveDate, gs: Seq<GroupSourceView>) -> Result<
    MenuView,
    MenuError,
> {
    match groups_of(gs) {
        Err(e) => Err(e),
        Ok(groups) => Ok(MenuView { date, groups }),
    }
}

pub open spec fn meal_outcome(r: Result<Meal, MenuError>) -> Result<MealView, MenuError> {
    match r {
        Ok(m) => Ok(m@),
        Err(e) => Err(e),
    }
}

pub open spec fn group_outcome(r: Result<MealGroup, MenuError>) -> Result<GroupView, MenuError> {
    match r {
        Ok(g) => Ok(g@),
        Err(e) => Err(e),
    }
}

pub open spec fn menu_outcome(r: Result<MensaMenu, MenuError>) -> Result<MenuView, MenuError> {
    match r {
        Ok(m) => Ok(m@),
        Err(e) => Err(e),
    }
}

pub(crate) proof fn lemma_meals_error_stays(ms: Seq<MealSourceView>, j: int)
    requires
        0 <= j <= ms.len(),
        meals_of(ms.take(j)) is Err,
    ensures
        meals_of(ms) == meals_of(ms.take(j)),
    decreases ms.len() - j,
{
    if j < ms.len() {
        assert(ms.take(j + 1).drop_last() =~= ms.take(j));
        lemma_meals_error_stays(ms, j + 1);
    } else {
        assert(ms.take(j) =~= ms);
    }
}

pub(crate) proof fn lemma_groups_error_stays(gs: Seq<GroupSourceView>, j: int)
    requires
        0 <= j <= gs.len(),
        groups_of(gs.take(j)) is Err,
    ensures
        groups_of(gs) == groups_of(gs.take(j)),
    decreases gs.len() - j,
{
    if j < gs.len() {
        assert(gs.take(j + 1).drop_last() =~= gs.take(j));
        lemma_groups_error_stays(gs, j + 1);
    } else {
        assert(gs.take(j) =~= gs);
    }
}

fn has_tag(tags: &Vec<MealTag>, t: MealTag) -> (r: bool)
    ensures
        r == tags@.contains(t),
{
    let mut i: usize = 0;
    while i < tags.len()
        invariant
            i <= tags.len(),
            forall|k: int| 0 <= k < i ==> tags@[k] != t,
        decreases tags.len() - i,
    {
        if tags[i] == t {
            return true;
        }
        i = i + 1;
    }
    false
}

/// The tags of the recognised codes, each once.
fn collect_tags(codes: &Vec<String>) -> (r: Vec<MealTag>)
    ensures
        r@.no_duplicates(),
        r@.to_set() == tags_of(codes.deep_view()),
{
    let ghost cv = codes.deep_view();
    let mut tags: Vec<MealTag> = Vec::new();
    let mut i: usize = 0;
    assert(tags@.to_set() =~= tags_of(cv.take(0)));
    while i < codes.len()
        invariant
            cv == codes.deep_view(),
            i <= codes.len(),
            tags@.no_duplicates(),
            tags@.to_set() == tags_of(cv.take(i as int)),
        decreases codes.len() - i,
    {
        let found = MealTag::from_name(codes[i].as_str());
        assert(cv[i as int] == codes@[i as int]@);
        let ghost old_tags = tags@;
        match found {
            Some(t) => {
                if !has_tag(&tags, t) {
                    tags.push(t);
                }
            },
            None => {},
        }
        assert forall|x: MealTag| #[trigger]
            tags@.to_set().contains(x) <==> tags_of(cv.take(i + 1)).contains(x) by {
            if tags_of(cv.take(i + 1)).contains(x) {
                let k = choose|k: int|
                    0 <= k < cv.take(i + 1).len() && #[trigger] tag_of(cv.take(i + 1)[k]) == Some(
                        x,
                    );
                if k < i {
                    assert(cv.take(i as int)[k] == cv.take(i + 1)[k]);
                    assert(tags_of(cv.take(i as int)).contains(x));
                    assert(old_tags.to_set().contains(x));
                    assert(old_tags.contains(x));
                    let w = choose|w: int| 0 <= w < old_tags.len() && old_tags[w] == x;
                    assert(tags@[w] == x);
                } else {
                    assert(cv.take(i + 1)[k] == cv[i as int]);
                    assert(found == Some(x));
                    if old_tags.contains(x) {
                        let w = choose|w: int| 0 <= w < old_tags.len() && old_tags[w] == x;
                        assert(tags@[w] == x);
                    } else {
                        assert(tags@[tags@.len() - 1] == x);
                    }
                }
                assert(tags@.contains(x));
            }
            if tags@.to_set().contains(x) {
                assert(tags@.contains(x));
                let w = choose|w: int| 0 <= w < tags@.len() && tags@[w] == x;
                if w < old_tags.len() {
                    assert(old_tags[w] == x);
                    assert(old_tags.to_set().contains(x));
                    assert(tags_of(cv.take(i as int)).contains(x));
                    let k = choose|k: int|
                        0 <= k < cv.take(i as int).len() && #[trigger] tag_of(
                            cv.take(i as int)[k],
                        ) == Some(x);
                    assert(cv.take(i + 1)[k] == cv.take(i as int)[k]);
                } else {
                    assert(cv.take(i + 1)[i as int] == cv[i as int]);
                    assert(found == Some(x));
                    assert(tag_of(cv.take(i + 1)[i as int]) == Some(x));
                }
            }
        }
        assert(tags@.to_set() =~= tags_of(cv.take(i + 1)));
        i = i + 1;
    }
    assert(cv.take(i as int) =~= cv);
    tags
}

impl Meal {
    /// The meal of an entry, as `meal_of` describes it.
    pub fn from_source(src: &MealSource) -> (r: Result<Meal, MenuError>)
        ensures
            meal_outcome(r) == meal_of(src@),
            r is Ok ==> r->Ok_0.wf(),
    {
        let name = match &src.name {
            None => {
                return Err(MenuError::MealNameNotFound);
            },
            Some(pieces) => normalize_text(pieces),
        };
        let tags = collect_tags(&src.tag_codes);
        let text = match &src.price {
            None => {
                return Err(MenuError::MealPriceNotFound);
            },
            Some(pieces) => normalize_text(pieces),
        };
        match MealPrice::parse(text.as_str()) {
            None => Err(MenuError::MealPriceNotFound),
            Some(price) => Ok(Meal { name, price, tags }),
        }
    }
}

impl MealGroup {
    /// The group of a page section, as `group_of` describes it.
    pub fn from_source(src: &GroupSource) -> (r: Result<MealGroup, MenuError>)
        ensures
            group_outcome(r) == group_of(src@),
            r is Ok ==> r->Ok_0.wf(),
    {
        let name = match &src.label {
            None => {
                return Err(MenuError::CategoryNameNotFound);
            },
            Some(l) => l.clone(),
        };
        let ghost sv = src@.meals;
        let mut meals: Vec<Meal> = Vec::new();
        let mut i: usize = 0;
        assert(sv.take(0) =~= Seq::<MealSourceView>::empty());
        assert(meals@.map_values(|m: Meal| m@) =~= Seq::<MealView>::empty());
        while i < src.meals.len()
            invariant
                sv == src@.meals,
                src@.label is Some,
                sv.len() == src.meals.len(),
                i <= src.meals.len(),
                meals_of(sv.take(i as int)) == Ok::<Seq<MealView>, MenuError>(
                    meals@.map_values(|m: Meal| m@),
                ),
                forall|j: int| 0 <= j < meals@.len() ==> (#[trigger] meals@[j]).wf(),
            decreases src.meals.len() - i,
        {
            assert(sv.take(i + 1).drop_last() =~= sv.take(i as int));
            assert(sv[i as int] == src.meals@[i as int]@);
            match Meal::from_source(&src.meals[i]) {
                Err(e) => {
                    proof {
                        lemma_meals_error_stays(sv, i + 1);
                    }
                    return Err(e);
                },
                Ok(m) => {
                    meals.push(m);
                    assert(meals@.map_values(|m: Meal| m@) =~= meals_of(
                        sv.take(i as int),
                    )->Ok_0.push(m@));
                },
            }
            i = i + 1;
        }
        assert(sv.take(i as int) =~= sv);
        assert(name@ == src@.label->Some_0);
        Ok(MealGroup { name, meals })
    }
}

impl MensaMenu {
    /// The menu of `date` from the groups of a page, as `menu_of` describes it.
    pub fn from_sources(date: chrono::NaiveDate, groups: &Vec<GroupSource>) -> (r: Result<
        MensaMenu,
        MenuError,
    >)
        ensures
            menu_outcome(r) == menu_of(date, sources_view(groups@)),
            r is Ok ==> r->Ok_0.wf(),
    {
        let ghost gv = sources_view(groups@);
        let mut done: Vec<MealGroup> = Vec::new();
        let mut i: usize = 0;
        assert(gv.take(0) =~= Seq::<GroupSourceView>::empty());
        assert(done@.map_values(|g: MealGroup| g@) =~= Seq::<GroupView>::empty());
        while i < groups.len()
            invariant
                gv == sources_view(groups@),
                gv.len() == groups.len(),
                i <= groups.len(),
                groups_of(gv.take(i as int)) == Ok::<Seq<GroupView>, MenuError>(
                    done@.map_values(|g: MealGroup| g@),
                ),
                forall|j: int| 0 <= j < done@.len() ==> (#[trigger] done@[j]).wf(),
            decreases groups.len() - i,
        {
            assert(gv.take(i + 1).drop_last() =~= gv.take(i as int));
            assert(gv[i as int] == groups@[i as int]@);
            match MealGroup::from_source(&groups[i]) {
                Err(e) => {
                    proof {
                        lemma_groups_error_stays(gv, i + 1);
                    }
                    return Err(e);
                },
                Ok(g) => {
                    done.push(g);
                    assert(done@.map_values(|g: MealGroup| g@) =~= groups_of(
                        gv.take(i as int),
                    )->Ok_0.push(g@));
                },
            }
            i = i + 1;
        }
        assert(gv.take(i as int) =~= gv);
        Ok(MensaMenu { date, groups: done })
    }
}

} // verus!
