//! A store held in memory. It answers every statement as the model of the
//! store says, by scanning its tables, and so stands in for a database
//! wherever the service is to run without one.

use crate::models::category::{
    Category, CategoryView, ChangeCategory, NewCategory, RecipeCategory, RecipeCategoryView,
};
use crate::models::recipe::{ChangeRecipe, NewRecipe, Recipe, RecipeView};
use crate::store::model::{
    category_named, category_of, category_with, category_without, change_category, change_recipe,
    lemma_select_next, link_outside_category, link_outside_recipe, one_category, one_recipe,
    recipe_with, recipe_without, Database, Session,
};
use crate::store::statement::{Reply, Statement};
use crate::store::validity::lemma_execute_valid;
use vstd::prelude::*;

verus! {

/// The tables and the counters of a store.
#[derive(Debug, Clone)]
pub struct Store {
    recipes: Vec<Recipe>,
    categories: Vec<Category>,
    links: Vec<RecipeCategory>,
    next_recipe_id: i64,
    next_category_id: i64,
}

impl View for Store {
    type V = Database;

    closed spec fn view(&self) -> Database {
        Database {
            recipes: self.recipes.deep_view(),
            categories: self.categories.deep_view(),
            links: self.links.deep_view(),
            next_recipe_id: self.next_recipe_id as int,
            next_category_id: self.next_category_id as int,
        }
    }
}

/// A connection to a store in memory: the store, and what the store was
/// when the open transaction began, while one is open.
#[derive(Debug, Clone)]
pub struct Connection {
    store: Store,
    saved: Option<Store>,
}

impl View for Connection {
    type V = Session;

    closed spec fn view(&self) -> Session {
        Session {
            db: self.store@,
            saved: match self.saved {
                Some(store) => Some(store@),
                None => None,
            },
        }
    }
}

/// A copy of the recipes.
fn copy_recipes(rows: &Vec<Recipe>) -> (copy: Vec<Recipe>)
    ensures
        copy.deep_view() == rows.deep_view(),
{
    let mut copy: Vec<Recipe> = Vec::new();
    let mut i: usize = 0;
    while i < rows.len()
        invariant
            i <= rows.len(),
            copy.deep_view() == rows.deep_view().take(i as int),
        decreases rows.len() - i,
    {
        let ghost before = copy.deep_view();
        copy.push(rows[i].clone());
        assert(copy.deep_view() =~= before.push(rows.deep_view()[i as int]));
        assert(rows.deep_view().take(i + 1) =~= rows.deep_view().take(i as int).push(
            rows.deep_view()[i as int],
        ));
        i += 1;
    }
    assert(rows.deep_view().take(rows.len() as int) =~= rows.deep_view());
    copy
}

/// A copy of the categories.
fn copy_categories(rows: &Vec<Category>) -> (copy: Vec<Category>)
    ensures
        copy.deep_view() == rows.deep_view(),
{
    let mut copy: Vec<Category> = Vec::new();
    let mut i: usize = 0;
    while i < rows.len()
        invariant
            i <= rows.len(),
            copy.deep_view() == rows.deep_view().take(i as int),
        decreases rows.len() - i,
    {
        let ghost before = copy.deep_view();
        copy.push(rows[i].clone());
        assert(copy.deep_view() =~= before.push(rows.deep_view()[i as int]));
        assert(rows.deep_view().take(i + 1) =~= rows.deep_view().take(i as int).push(
            rows.deep_view()[i as int],
        ));
        i += 1;
    }
    assert(rows.deep_view().take(rows.len() as int) =~= rows.deep_view());
    copy
}

/// A copy of the association rows.
fn copy_links(rows: &Vec<RecipeCategory>) -> (copy: Vec<RecipeCategory>)
    ensures
        copy.deep_view() == rows.deep_view(),
{
    let mut copy: Vec<RecipeCategory> = Vec::new();
    let mut i: usize = 0;
    while i < rows.len()
        invariant
            i <= rows.len(),
            copy.deep_view() == rows.deep_view().take(i as int),
        decreases rows.len() - i,
    {
        let ghost before = copy.deep_view();
        copy.push(rows[i]);
        assert(copy.deep_view() =~= before.push(rows.deep_view()[i as int]));
        assert(rows.deep_view().take(i + 1) =~= rows.deep_view().take(i as int).push(
            rows.deep_view()[i as int],
        ));
        i += 1;
    }
    assert(rows.deep_view().take(rows.len() as int) =~= rows.deep_view());
    copy
}

/// The recipes with this id, by a scan of the table.
fn recipes_with(rows: &Vec<Recipe>, id: i32) -> (kept: Vec<Recipe>)
    ensures
        kept.deep_view() == rows.deep_view().filter(recipe_with(id as int)),
{
    let ghost all = rows.deep_view();
    let ghost keep = recipe_with(id as int);
    let mut kept: Vec<Recipe> = Vec::new();
    let mut i: usize = 0;
    proof {
        if all.len() > 0 {
            lemma_select_next(all, keep, 0);
        } else {
            reveal(Seq::filter);
        }
        assert(kept.deep_view() =~= all.take(0).filter(keep));
    }
    while i < rows.len()
        invariant
            i <= rows.len(),
            all == rows.deep_view(),
            keep == recipe_with(id as int),
            kept.deep_view() == all.take(i as int).filter(keep),
        decreases rows.len() - i,
    {
        let ghost before = kept.deep_view();
        if rows[i].id == id {
            kept.push(rows[i].clone());
            assert(kept.deep_view() =~= before.push(all[i as int]));
        }
        proof {
            lemma_select_next(all, keep, i as int);
        }
        i += 1;
    }
    assert(all.take(rows.len() as int) =~= all);
    kept
}

/// The recipes with another id, by a scan of the table.
fn recipes_without(rows: &Vec<Recipe>, id: i32) -> (kept: Vec<Recipe>)
    ensures
        kept.deep_view() == rows.deep_view().filter(recipe_without(id as int)),
{
    let ghost all = rows.deep_view();
    let ghost keep = recipe_without(id as int);
    let mut kept: Vec<Recipe> = Vec::new();
    let mut i: usize = 0;
    proof {
        if all.len() > 0 {
            lemma_select_next(all, keep, 0);
        } else {
            reveal(Seq::filter);
        }
        assert(kept.deep_view() =~= all.take(0).filter(keep));
    }
    while i < rows.len()
        invariant
            i <= rows.len(),
            all == rows.deep_view(),
            keep == recipe_without(id as int),
            kept.deep_view() == all.take(i as int).filter(keep),
        decreases rows.len() - i,
    {
        let ghost before = kept.deep_view();
        if rows[i].id != id {
            kept.push(rows[i].clone());
            assert(kept.deep_view() =~= before.push(all[i as int]));
        }
        proof {
            lemma_select_next(all, keep, i as int);
        }
        i += 1;
    }
    assert(all.take(rows.len() as int) =~= all);
    kept
}

/// The recipes after the change of those with this id.
fn recipes_changed(rows: &Vec<Recipe>, id: i32, changes: &ChangeRecipe) -> (changed: Vec<Recipe>)
    ensures
        changed.deep_view() == rows.deep_view().map_values(change_recipe(id as int, changes@)),
{
    let ghost all = rows.deep_view();
    let ghost change = change_recipe(id as int, changes@);
    let mut changed: Vec<Recipe> = Vec::new();
    let mut i: usize = 0;
    while i < rows.len()
        invariant
            i <= rows.len(),
            all == rows.deep_view(),
            change == change_recipe(id as int, changes@),
            changed.deep_view() == all.take(i as int).map_values(change),
        decreases rows.len() - i,
    {
        let ghost before = changed.deep_view();
        if rows[i].id == id {
            changed.push(changes.apply(&rows[i]));
        } else {
            changed.push(rows[i].clone());
        }
        assert(changed.deep_view() =~= before.push(change(all[i as int])));
        assert(all.take(i + 1).map_values(change) =~= all.take(i as int).map_values(change).push(
            change(all[i as int]),
        ));
        i += 1;
    }
    assert(all.take(rows.len() as int) =~= all);
    changed
}

/// The categories with this id, by a scan of the table.
fn categories_with(rows: &Vec<Category>, id: i32) -> (kept: Vec<Category>)
    ensures
        kept.deep_view() == rows.deep_view().filter(category_with(id as int)),
{
    let ghost all = rows.deep_view();
    let ghost keep = category_with(id as int);
    let mut kept: Vec<Category> = Vec::new();
    let mut i: usize = 0;
    proof {
        if all.len() > 0 {
            lemma_select_next(all, keep, 0);
        } else {
            reveal(Seq::filter);
        }
        assert(kept.deep_view() =~= all.take(0).filter(keep));
    }
    while i < rows.len()
        invariant
            i <= rows.len(),
            all == rows.deep_view(),
            keep == category_with(id as int),
            kept.deep_view() == all.take(i as int).filter(keep),
        decreases rows.len() - i,
    {
        let ghost before = kept.deep_view();
        if rows[i].id == id {
            kept.push(rows[i].clone());
            assert(kept.deep_view() =~= before.push(all[i as int]));
        }
        proof {
            lemma_select_next(all, keep, i as int);
        }
        i += 1;
    }
    assert(all.take(rows.len() as int) =~= all);
    kept
}

/// The categories with another id, by a scan of the table.
fn categories_without(rows: &Vec<Category>, id: i32) -> (kept: Vec<Category>)
    ensures
        kept.deep_view() == rows.deep_view().filter(category_without(id as int)),
{
    let ghost all = rows.deep_view();
    let ghost keep = category_without(id as int);
    let mut kept: Vec<Category> = Vec::new();
    let mut i: usize = 0;
    proof {
        if all.len() > 0 {
            lemma_select_next(all, keep, 0);
        } else {
            reveal(Seq::filter);
        }
        assert(kept.deep_view() =~= all.take(0).filter(keep));
    }
    while i < rows.len()
        invariant
            i <= rows.len(),
            all == rows.deep_view(),
            keep == category_without(id as int),
            kept.deep_view() == all.take(i as int).filter(keep),
        decreases rows.len() - i,
    {
        let ghost before = kept.deep_view();
        if rows[i].id != id {
            kept.push(rows[i].clone());
            assert(kept.deep_view() =~= before.push(all[i as int]));
        }
        proof {
            lemma_select_next(all, keep, i as int);
        }
        i += 1;
    }
    assert(all.take(rows.len() as int) =~= all);
    kept
}

/// The categories with this name, by a scan of the table.
fn categories_named(rows: &Vec<Category>, name: &String) -> (kept: Vec<Category>)
    ensures
        kept.deep_view() == rows.deep_view().filter(category_named(name@)),
{
    let ghost all = rows.deep_view();
    let ghost keep = category_named(name@);
    let mut kept: Vec<Category> = Vec::new();
    let mut i: usize = 0;
    proof {
        if all.len() > 0 {
            lemma_select_next(all, keep, 0);
        } else {
            reveal(Seq::filter);
        }
        assert(kept.deep_view() =~= all.take(0).filter(keep));
    }
    while i < rows.len()
        invariant
            i <= rows.len(),
            all == rows.deep_view(),
            keep == category_named(name@),
            kept.deep_view() == all.take(i as int).filter(keep),
        decreases rows.len() - i,
    {
        let ghost before = kept.deep_view();
        if rows[i].name == *name {
            kept.push(rows[i].clone());
            assert(kept.deep_view() =~= before.push(all[i as int]));
        }
        proof {
            lemma_select_next(all, keep, i as int);
        }
        i += 1;
    }
    assert(all.take(rows.len() as int) =~= all);
    kept
}

/// The categories after the change of those with this id.
fn categories_changed(rows: &Vec<Category>, id: i32, changes: &ChangeCategory) -> (changed: Vec<
    Category,
>)
    ensures
        changed.deep_view() == rows.deep_view().map_values(change_category(id as int, changes@)),
{
    let ghost all = rows.deep_view();
    let ghost change = change_category(id as int, changes@);
    let mut changed: Vec<Category> = Vec::new();
    let mut i: usize = 0;
    while i < rows.len()
        invariant
            i <= rows.len(),
            all == rows.deep_view(),
            change == change_category(id as int, changes@),
            changed.deep_view() == all.take(i as int).map_values(change),
        decreases rows.len() - i,
    {
        let ghost before = changed.deep_view();
        if rows[i].id == id {
            changed.push(changes.apply(&rows[i]));
        } else {
            changed.push(rows[i].clone());
        }
        assert(changed.deep_view() =~= before.push(change(all[i as int])));
        assert(all.take(i + 1).map_values(change) =~= all.take(i as int).map_values(change).push(
            change(all[i as int]),
        ));
        i += 1;
    }
    assert(all.take(rows.len() as int) =~= all);
    changed
}

/// The association rows of other recipes.
fn links_outside_recipe(rows: &Vec<RecipeCategory>, recipe_id: i32) -> (kept: Vec<RecipeCategory>)
    ensures
        kept.deep_view() == rows.deep_view().filter(link_outside_recipe(recipe_id as int)),
{
    let ghost all = rows.deep_view();
    let ghost keep = link_outside_recipe(recipe_id as int);
    let mut kept: Vec<RecipeCategory> = Vec::new();
    let mut i: usize = 0;
    proof {
        if all.len() > 0 {
            lemma_select_next(all, keep, 0);
        } else {
            reveal(Seq::filter);
        }
        assert(kept.deep_view() =~= all.take(0).filter(keep));
    }
    while i < rows.len()
        invariant
            i <= rows.len(),
            all == rows.deep_view(),
            keep == link_outside_recipe(recipe_id as int),
            kept.deep_view() == all.take(i as int).filter(keep),
        decreases rows.len() - i,
    {
        let ghost before = kept.deep_view();
        if rows[i].recipe_id != recipe_id {
            kept.push(rows[i]);
            assert(kept.deep_view() =~= before.push(all[i as int]));
        }
        proof {
            lemma_select_next(all, keep, i as int);
        }
        i += 1;
    }
    assert(all.take(rows.len() as int) =~= all);
    kept
}

/// The association rows of other categories.
fn links_outside_category(rows: &Vec<RecipeCategory>, category_id: i32) -> (kept: Vec<
    RecipeCategory,
>)
    ensures
        kept.deep_view() == rows.deep_view().filter(link_outside_category(category_id as int)),
{
    let ghost all = rows.deep_view();
    let ghost keep = link_outside_category(category_id as int);
    let mut kept: Vec<RecipeCategory> = Vec::new();
    let mut i: usize = 0;
    proof {
        if all.len() > 0 {
            lemma_select_next(all, keep, 0);
        } else {
            reveal(Seq::filter);
        }
        assert(kept.deep_view() =~= all.take(0).filter(keep));
    }
    while i < rows.len()
        invariant
            i <= rows.len(),
            all == rows.deep_view(),
            keep == link_outside_category(category_id as int),
            kept.deep_view() == all.take(i as int).filter(keep),
        decreases rows.len() - i,
    {
        let ghost before = kept.deep_view();
        if rows[i].category_id != category_id {
            kept.push(rows[i]);
            assert(kept.deep_view() =~= before.push(all[i as int]));
        }
        proof {
            lemma_select_next(all, keep, i as int);
        }
        i += 1;
    }
    assert(all.take(rows.len() as int) =~= all);
    kept
}

/// True when the association row is in the table.
fn has_link(rows: &Vec<RecipeCategory>, link: RecipeCategory) -> (found: bool)
    ensures
        found == rows.deep_view().contains(link@),
{
    let mut i: usize = 0;
    while i < rows.len()
        invariant
            i <= rows.len(),
            forall|j: int| 0 <= j < i ==> rows.deep_view()[j] != link@,
        decreases rows.len() - i,
    {
        if rows[i].recipe_id == link.recipe_id && rows[i].category_id == link.category_id {
            assert(rows.deep_view()[i as int] == link@);
            return true;
        }
        i += 1;
    }
    false
}

/// The categories that the association rows put the recipe into, in the
/// order of the category table.
fn categories_linked(rows: &Vec<Category>, links: &Vec<RecipeCategory>, recipe_id: i32) -> (kept:
    Vec<Category>)
    ensures
        kept.deep_view() == rows.deep_view().filter(
            category_of(links.deep_view(), recipe_id as int),
        ),
{
    let ghost all = rows.deep_view();
    let ghost keep = category_of(links.deep_view(), recipe_id as int);
    let mut kept: Vec<Category> = Vec::new();
    let mut i: usize = 0;
    proof {
        if all.len() > 0 {
            lemma_select_next(all, keep, 0);
        } else {
            reveal(Seq::filter);
        }
        assert(kept.deep_view() =~= all.take(0).filter(keep));
    }
    while i < rows.len()
        invariant
            i <= rows.len(),
            all == rows.deep_view(),
            keep == category_of(links.deep_view(), recipe_id as int),
            kept.deep_view() == all.take(i as int).filter(keep),
        decreases rows.len() - i,
    {
        let ghost before = kept.deep_view();
        if has_link(links, RecipeCategory { recipe_id, category_id: rows[i].id }) {
            kept.push(rows[i].clone());
            assert(kept.deep_view() =~= before.push(all[i as int]));
        }
        proof {
            lemma_select_next(all, keep, i as int);
        }
        i += 1;
    }
    assert(all.take(rows.len() as int) =~= all);
    kept
}

/// True when an association row refers to the recipe.
fn recipe_in_use(links: &Vec<RecipeCategory>, id: i32) -> (used: bool)
    ensures
        used == (exists|i: int|
            0 <= i < links.deep_view().len() && (#[trigger] links.deep_view()[i]).recipe_id
                == id),
{
    let mut i: usize = 0;
    while i < links.len()
        invariant
            i <= links.len(),
            forall|j: int| 0 <= j < i ==> (#[trigger] links.deep_view()[j]).recipe_id != id,
        decreases links.len() - i,
    {
        if links[i].recipe_id == id {
            assert(links.deep_view()[i as int].recipe_id == id);
            return true;
        }
        i += 1;
    }
    false
}

/// True when an association row refers to the category.
fn category_in_use(links: &Vec<RecipeCategory>, id: i32) -> (used: bool)
    ensures
        used == (exists|i: int|
            0 <= i < links.deep_view().len() && (#[trigger] links.deep_view()[i]).category_id
                == id),
{
    let mut i: usize = 0;
    while i < links.len()
        invariant
            i <= links.len(),
            forall|j: int| 0 <= j < i ==> (#[trigger] links.deep_view()[j]).category_id != id,
        decreases links.len() - i,
    {
        if links[i].category_id == id {
            assert(links.deep_view()[i as int].category_id == id);
            return true;
        }
        i += 1;
    }
    false
}

/// True when some category has this name.
fn name_used(rows: &Vec<Category>, name: &String) -> (used: bool)
    ensures
        used == (exists|i: int|
            0 <= i < rows.deep_view().len() && (#[trigger] rows.deep_view()[i]).name == name@),
{
    let mut i: usize = 0;
    while i < rows.len()
        invariant
            i <= rows.len(),
            forall|j: int| 0 <= j < i ==> (#[trigger] rows.deep_view()[j]).name != name@,
        decreases rows.len() - i,
    {
        if rows[i].name == *name {
            assert(rows.deep_view()[i as int].name == name@);
            return true;
        }
        i += 1;
    }
    false
}

/// True when a category other than `id` has this name.
fn name_taken(rows: &Vec<Category>, name: &String, id: i32) -> (taken: bool)
    ensures
        taken == (exists|i: int|
            0 <= i < rows.deep_view().len() && (#[trigger] rows.deep_view()[i]).name == name@
                && rows.deep_view()[i].id != id),
{
    let mut i: usize = 0;
    while i < rows.len()
        invariant
            i <= rows.len(),
            forall|j: int|
                0 <= j < i ==> !((#[trigger] rows.deep_view()[j]).name == name@
                    && rows.deep_view()[j].id != id),
        decreases rows.len() - i,
    {
        if rows[i].name == *name && rows[i].id != id {
            assert(rows.deep_view()[i as int].name == name@);
            return true;
        }
        i += 1;
    }
    false
}

impl Store {
    /// True when the store is valid.
    pub open spec fn wf(&self) -> bool {
        self@.valid()
    }

    /// A store without rows, whose first ids will be 1.
    pub fn new() -> (store: Store)
        ensures
            store@ == Database::empty(),
            store.wf(),
    {
        let store = Store {
            recipes: Vec::new(),
            categories: Vec::new(),
            links: Vec::new(),
            next_recipe_id: 1,
            next_category_id: 1,
        };
        assert(store.recipes.deep_view() =~= Seq::<RecipeView>::empty());
        assert(store.categories.deep_view() =~= Seq::<CategoryView>::empty());
        assert(store.links.deep_view() =~= Seq::<RecipeCategoryView>::empty());
        store
    }

    /// A copy of the store, as a transaction keeps it to roll back to.
    fn snapshot(&self) -> (copy: Store)
        ensures
            copy@ == self@,
    {
        Store {
            recipes: copy_recipes(&self.recipes),
            categories: copy_categories(&self.categories),
            links: copy_links(&self.links),
            next_recipe_id: self.next_recipe_id,
            next_category_id: self.next_category_id,
        }
    }

    /// The recipe with this id.
    fn find_recipe(&self, id: i32) -> (reply: Reply)
        ensures
            reply@ == one_recipe(self@.recipe(id as int)),
    {
        let hits = recipes_with(&self.recipes, id);
        if hits.len() > 0 {
            Reply::Recipe(hits[0].clone())
        } else {
            Reply::Missing
        }
    }

    /// The category with this id.
    fn find_category(&self, id: i32) -> (reply: Reply)
        ensures
            reply@ == one_category(self@.category(id as int)),
    {
        let hits = categories_with(&self.categories, id);
        if hits.len() > 0 {
            Reply::Category(hits[0].clone())
        } else {
            Reply::Missing
        }
    }

    /// The category with this name.
    fn find_category_by_name(&self, name: &String) -> (reply: Reply)
        ensures
            reply@ == one_category(self@.category_named(name@)),
    {
        let hits = categories_named(&self.categories, name);
        if hits.len() > 0 {
            Reply::Category(hits[0].clone())
        } else {
            Reply::Missing
        }
    }

    /// Inserts a recipe under the next id.
    fn insert_recipe(&mut self, recipe: NewRecipe) -> (reply: Reply)
        requires
            old(self).wf(),
        ensures
            (final(self)@, reply@) == old(self)@.insert_recipe(recipe@),
    {
        if self.next_recipe_id > 0x7fff_ffff {
            return Reply::Failed;
        }
        let ghost before = self.recipes.deep_view();
        let row = recipe.with_id(self.next_recipe_id as i32);
        self.recipes.push(row.clone());
        self.next_recipe_id = self.next_recipe_id + 1;
        assert(self.recipes.deep_view() =~= before.push(row@));
        Reply::Recipe(row)
    }

    /// Changes the recipe with this id and returns it as changed.
    fn update_recipe(&mut self, id: i32, changes: ChangeRecipe) -> (reply: Reply)
        ensures
            (final(self)@, reply@) == old(self)@.update_recipe(id as int, changes@),
    {
        let hits = recipes_with(&self.recipes, id);
        if hits.len() > 0 {
            self.recipes = recipes_changed(&self.recipes, id, &changes);
            Reply::Recipe(changes.apply(&hits[0]))
        } else {
            Reply::Missing
        }
    }

    /// Removes the recipe with this id, unless an association row refers to
    /// it.
    fn delete_recipe(&mut self, id: i32) -> (reply: Reply)
        ensures
            (final(self)@, reply@) == old(self)@.delete_recipe(id as int),
    {
        if recipe_in_use(&self.links, id) {
            Reply::Failed
        } else {
            self.recipes = recipes_without(&self.recipes, id);
            Reply::Done
        }
    }

    /// Inserts a category under the next id, unless its name is taken.
    fn insert_category(&mut self, category: NewCategory) -> (reply: Reply)
        requires
            old(self).wf(),
        ensures
            (final(self)@, reply@) == old(self)@.insert_category(category@),
    {
        if name_used(&self.categories, &category.name) || self.next_category_id > 0x7fff_ffff {
            return Reply::Failed;
        }
        let ghost before = self.categories.deep_view();
        let row = Category { id: self.next_category_id as i32, name: category.name };
        self.categories.push(row.clone());
        self.next_category_id = self.next_category_id + 1;
        assert(self.categories.deep_view() =~= before.push(row@));
        Reply::Category(row)
    }

    /// Changes the category with this id and returns it as changed, unless
    /// another category has the new name.
    fn update_category(&mut self, id: i32, changes: ChangeCategory) -> (reply: Reply)
        ensures
            (final(self)@, reply@) == old(self)@.update_category(id as int, changes@),
    {
        let hits = categories_with(&self.categories, id);
        if hits.len() > 0 {
            let taken = match &changes.name {
                Some(name) => name_taken(&self.categories, name, id),
                None => false,
            };
            if taken {
                Reply::Failed
            } else {
                self.categories = categories_changed(&self.categories, id, &changes);
                Reply::Category(changes.apply(&hits[0]))
            }
        } else {
            Reply::Missing
        }
    }

    /// Removes the category with this id, unless an association row refers
    /// to it.
    fn delete_category(&mut self, id: i32) -> (reply: Reply)
        ensures
            (final(self)@, reply@) == old(self)@.delete_category(id as int),
    {
        if category_in_use(&self.links, id) {
            Reply::Failed
        } else {
            self.categories = categories_without(&self.categories, id);
            Reply::Done
        }
    }

    /// Puts a recipe into a category, if both exist and the recipe is not
    /// in it yet.
    fn insert_link(&mut self, link: RecipeCategory) -> (reply: Reply)
        ensures
            (final(self)@, reply@) == old(self)@.insert_link(link@),
    {
        let recipes = recipes_with(&self.recipes, link.recipe_id);
        let categories = categories_with(&self.categories, link.category_id);
        if recipes.len() == 0 || categories.len() == 0 || has_link(&self.links, link) {
            Reply::Failed
        } else {
            let ghost before = self.links.deep_view();
            self.links.push(link);
            assert(self.links.deep_view() =~= before.push(link@));
            Reply::Done
        }
    }
}

impl Connection {
    /// True when the store is valid, and what a rollback would restore.
    pub open spec fn wf(&self) -> bool {
        self@.valid()
    }

    /// A fresh connection to `store`: no transaction is open.
    pub fn open(store: Store) -> (connection: Connection)
        requires
            store.wf(),
        ensures
            connection@ == Session::open(store@),
            connection.wf(),
    {
        Connection { store, saved: None }
    }

    /// Gives the store back. A transaction that is still open is undone.
    pub fn close(self) -> (store: Store)
        requires
            self.wf(),
        ensures
            store@ == self@.undone().db,
            store.wf(),
    {
        let mut connection = self;
        connection.execute(Statement::Rollback);
        connection.store
    }

    /// Runs one statement and gives the reply to it.
    pub fn execute(&mut self, statement: Statement) -> (reply: Reply)
        requires
            old(self).wf(),
        ensures
            (final(self)@, reply@) == old(self)@.execute(statement@),
            final(self).wf(),
    {
        proof {
            lemma_execute_valid(self@, statement@);
        }
        match statement {
            Statement::Begin => {
                if self.saved.is_none() {
                    self.saved = Some(self.store.snapshot());
                }
                Reply::Done
            },
            Statement::Commit => {
                self.saved = None;
                Reply::Done
            },
            Statement::Rollback => {
                match self.saved.take() {
                    Some(store) => {
                        self.store.recipes = store.recipes;
                        self.store.categories = store.categories;
                        self.store.links = store.links;
                    },
                    None => {},
                }
                Reply::Done
            },
            Statement::ListRecipes => Reply::Recipes(copy_recipes(&self.store.recipes)),
            Statement::FindRecipe { id } => self.store.find_recipe(id),
            Statement::InsertRecipe { recipe } => self.store.insert_recipe(recipe),
            Statement::UpdateRecipe { id, changes } => self.store.update_recipe(id, changes),
            Statement::DeleteRecipe { id } => self.store.delete_recipe(id),
            Statement::ListCategories => Reply::Categories(
                copy_categories(&self.store.categories),
            ),
            Statement::FindCategory { id } => self.store.find_category(id),
            Statement::FindCategoryByName { name } => self.store.find_category_by_name(&name),
            Statement::InsertCategory { category } => self.store.insert_category(category),
            Statement::UpdateCategory { id, changes } => self.store.update_category(id, changes),
            Statement::DeleteCategory { id } => self.store.delete_category(id),
            Statement::CategoriesOfRecipe { recipe_id } => Reply::Categories(
                categories_linked(&self.store.categories, &self.store.links, recipe_id),
            ),
            Statement::InsertRecipeCategory { link } => self.store.insert_link(link),
            Statement::DeleteCategoriesOfRecipe { recipe_id } => {
                self.store.links = links_outside_recipe(&self.store.links, recipe_id);
                Reply::Done
            },
            Statement::DeleteRecipesOfCategory { category_id } => {
                self.store.links = links_outside_category(&self.store.links, category_id);
                Reply::Done
            },
        }
    }

    /// Runs one statement on a store that fails on demand. Where `fails` is
    /// false this is `execute`. Where it is true the reply is `Failed` and
    /// nothing is written; a transaction whose end fails is undone.
    pub fn attempt(&mut self, statement: Statement, fails: bool) -> (reply: Reply)
        requires
            old(self).wf(),
        ensures
            (final(self)@, reply@) == old(self)@.attempt(statement@, fails),
            final(self).wf(),
    {
        if !fails {
            return self.execute(statement);
        }
        match statement {
            Statement::Commit => {
                self.execute(Statement::Rollback);
            },
            Statement::Rollback => {
                self.execute(Statement::Rollback);
            },
            _ => {},
        }
        Reply::Failed
    }
}

} // verus!
