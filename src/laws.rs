//! Properties of menu assembly that hold for every page.

use vstd::prelude::*;
use crate::page::page_of;
use crate::menu::{
    group_of, groups_of, lemma_groups_error_stays, lemma_meals_error_stays, meal_of, meals_of,
    menu_of, menu_outcome, GroupSourceView, GroupView, MealSourceView, MealView, MensaMenu,
    MenuError,
};

verus! {

proof fn lemma_meals_complete(ms: Seq<MealSourceView>, n: int)
    requires
        0 <= n <= ms.len(),
        forall|k: int| 0 <= k < n ==> (#[trigger] meal_of(ms[k])) is Ok,
    ensures
        meals_of(ms.take(n)) is Ok,
    decreases n,
{
    if n > 0 {
        assert(ms.take(n).drop_last() =~= ms.take(n - 1));
        lemma_meals_complete(ms, n - 1);
        assert(ms.take(n).last() == ms[n - 1]);
    }
}

proof fn lemma_groups_complete(gs: Seq<GroupSourceView>, n: int)
    requires
        0 <= n <= gs.len(),
        forall|k: int| 0 <= k < n ==> (#[trigger] group_of(gs[k])) is Ok,
    ensures
        groups_of(gs.take(n)) is Ok,
    decreases n,
{
    if n > 0 {
        assert(gs.take(n).drop_last() =~= gs.take(n - 1));
        lemma_groups_complete(gs, n - 1);
        assert(gs.take(n).last() == gs[n - 1]);
    }
}

proof fn lemma_meal_fails(ms: Seq<MealSourceView>, j: int)
    requires
        0 <= j < ms.len(),
        meal_of(ms[j]) is Err,
    ensures
        meals_of(ms) is Err,
        (forall|k: int| 0 <= k < j ==> (#[trigger] meal_of(ms[k])) is Ok) ==> meals_of(ms)
            == Err::<Seq<MealView>, MenuError>(meal_of(ms[j])->Err_0),
{
    assert(ms.take(j + 1).drop_last() =~= ms.take(j));
    assert(ms.take(j + 1).last() == ms[j]);
    lemma_meals_error_stays(ms, j + 1);
    if forall|k: int| 0 <= k < j ==> (#[trigger] meal_of(ms[k])) is Ok {
        lemma_meals_complete(ms, j);
    }
}

proof fn lemma_group_fails(gs: Seq<GroupSourceView>, i: int)
    requires
        0 <= i < gs.len(),
        group_of(gs[i]) is Err,
    ensures
        groups_of(gs) is Err,
        (forall|k: int| 0 <= k < i ==> (#[trigger] group_of(gs[k])) is Ok) ==> groups_of(gs)
            == Err::<Seq<GroupView>, MenuError>(group_of(gs[i])->Err_0),
{
    assert(gs.take(i + 1).drop_last() =~= gs.take(i));
    assert(gs.take(i + 1).last() == gs[i]);
    lemma_groups_error_stays(gs, i + 1);
    if forall|k: int| 0 <= k < i ==> (#[trigger] group_of(gs[k])) is Ok {
        lemma_groups_complete(gs, i);
    }
}

/// A group without a label makes the whole extraction fail, so that no part of
/// the menu is returned; where every group before it is complete, the error is
/// `CategoryNameNotFound`.
pub proof fn lemma_missing_label(date: chrono::NaiveDate, gs: Seq<GroupSourceView>, i: int)
    requires
        0 <= i < gs.len(),
        gs[i].label is None,
    ensures
        menu_of(date, gs) is Err,
        (forall|k: int| 0 <= k < i ==> (#[trigger] group_of(gs[k])) is Ok) ==> menu_of(date, gs)
            == Err::<crate::menu::MenuView, MenuError>(MenuError::CategoryNameNotFound),
{
    lemma_group_fails(gs, i);
}

/// A meal entry without a price makes the whole extraction fail, though its
/// name and tags could be read; where all that comes before it is complete (the
/// groups before, its group's label, the meals before it, its own name), the
/// error is `MealPriceNotFound`.
pub proof fn lemma_missing_price(
    date: chrono::NaiveDate,
    gs: Seq<GroupSourceView>,
    i: int,
    j: int,
)
    requires
        0 <= i < gs.len(),
        0 <= j < gs[i].meals.len(),
        gs[i].meals[j].price is None,
    ensures
        menu_of(date, gs) is Err,
        (forall|k: int| 0 <= k < i ==> (#[trigger] group_of(gs[k])) is Ok) && gs[i].label is Some
            && (forall|k: int| 0 <= k < j ==> (#[trigger] meal_of(gs[i].meals[k])) is Ok)
            && gs[i].meals[j].name is Some ==> menu_of(date, gs) == Err::<
            crate::menu::MenuView,
            MenuError,
        >(MenuError::MealPriceNotFound),
{
    lemma_meal_fails(gs[i].meals, j);
    lemma_group_fails(gs, i);
}

proof fn lemma_meals_in_order(ms: Seq<MealSourceView>)
    requires
        meals_of(ms) is Ok,
    ensures
        meals_of(ms)->Ok_0.len() == ms.len(),
        forall|j: int|
            0 <= j < ms.len() ==> #[trigger] meal_of(ms[j]) == Ok::<MealView, MenuError>(
                meals_of(ms)->Ok_0[j],
            ),
    decreases ms.len(),
{
    if ms.len() > 0 {
        lemma_meals_in_order(ms.drop_last());
        assert forall|j: int| 0 <= j < ms.len() implies #[trigger] meal_of(ms[j]) == Ok::<
            MealView,
            MenuError,
        >(meals_of(ms)->Ok_0[j]) by {
            if j < ms.len() - 1 {
                assert(ms.drop_last()[j] == ms[j]);
            }
        }
    }
}

proof fn lemma_groups_in_order(gs: Seq<GroupSourceView>)
    requires
        groups_of(gs) is Ok,
    ensures
        groups_of(gs)->Ok_0.len() == gs.len(),
        forall|i: int|
            0 <= i < gs.len() ==> #[trigger] group_of(gs[i]) == Ok::<GroupView, MenuError>(
                groups_of(gs)->Ok_0[i],
            ),
    decreases gs.len(),
{
    if gs.len() > 0 {
        lemma_groups_in_order(gs.drop_last());
        assert forall|i: int| 0 <= i < gs.len() implies #[trigger] group_of(gs[i]) == Ok::<
            GroupView,
            MenuError,
        >(groups_of(gs)->Ok_0[i]) by {
            if i < gs.len() - 1 {
                assert(gs.drop_last()[i] == gs[i]);
            }
        }
    }
}

/// The menu keeps the page's order: its i-th group comes from the page's i-th
/// group, under that group's label, and the j-th meal of that group comes from
/// its j-th meal entry.
pub proof fn lemma_page_order(date: chrono::NaiveDate, gs: Seq<GroupSourceView>)
    requires
        menu_of(date, gs) is Ok,
    ensures
        ({
            let m = menu_of(date, gs)->Ok_0;
            &&& m.date == date
            &&& m.groups.len() == gs.len()
            &&& forall|i: int|
                0 <= i < gs.len() ==> {
                    &&& (#[trigger] m.groups[i]).name == gs[i].label->Some_0
                    &&& m.groups[i].meals.len() == gs[i].meals.len()
                    &&& forall|j: int|
                        0 <= j < gs[i].meals.len() ==> #[trigger] meal_of(gs[i].meals[j]) == Ok::<
                            MealView,
                            MenuError,
                        >(m.groups[i].meals[j])
                }
        }),
{
    lemma_groups_in_order(gs);
    let m = menu_of(date, gs)->Ok_0;
    assert forall|i: int| 0 <= i < gs.len() implies {
        &&& (#[trigger] m.groups[i]).name == gs[i].label->Some_0
        &&& m.groups[i].meals.len() == gs[i].meals.len()
        &&& forall|j: int|
            0 <= j < gs[i].meals.len() ==> #[trigger] meal_of(gs[i].meals[j]) == Ok::<
                MealView,
                MenuError,
            >(m.groups[i].meals[j])
    } by {
        assert(group_of(gs[i]) == Ok::<GroupView, MenuError>(m.groups[i]));
        lemma_meals_in_order(gs[i].meals);
    }
}

/// Extraction is deterministic: two runs on the same page text give
/// structurally equal menus, or the same error.
pub proof fn lemma_same_page_same_menu(
    date: chrono::NaiveDate,
    html: Seq<char>,
    first: Result<MensaMenu, MenuError>,
    second: Result<MensaMenu, MenuError>,
)
    requires
        menu_outcome(first) == menu_of(date, page_of(html)),
        menu_outcome(second) == menu_of(date, page_of(html)),
    ensures
        menu_outcome(first) == menu_outcome(second),
{
}

} // verus!
