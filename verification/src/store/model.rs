//! What the statements mean. The store is taken as a mathematical value:
//! three tables, each a sequence of rows in the order in which they were
//! inserted, and the two counters from which new ids are drawn. A statement
//! selects, changes or removes every row that its condition holds of, as a
//! relational store does.

use crate::models::category::{
    CategoryView, ChangeCategoryView, NewCategoryView, RecipeCategoryView,
};
use crate::models::recipe::{ChangeRecipeView, NewRecipeView, RecipeView};
use crate::store::statement::{ReplyView, StatementView};
use vstd::prelude::*;

verus! {

/// The largest id the store can give.
pub open spec fn max_id() -> int {
    0x7fff_ffff
}

/// The recipes with this id.
pub open spec fn recipe_with(id: int) -> spec_fn(RecipeView) -> bool {
    |recipe: RecipeView| recipe.id == id
}

/// The recipes with another id.
pub open spec fn recipe_without(id: int) -> spec_fn(RecipeView) -> bool {
    |recipe: RecipeView| recipe.id != id
}

/// The categories with this id.
pub open spec fn category_with(id: int) -> spec_fn(CategoryView) -> bool {
    |category: CategoryView| category.id == id
}

/// The categories with another id.
pub open spec fn category_without(id: int) -> spec_fn(CategoryView) -> bool {
    |category: CategoryView| category.id != id
}

/// The categories with this name.
pub open spec fn category_named(name: Seq<char>) -> spec_fn(CategoryView) -> bool {
    |category: CategoryView| category.name == name
}

/// The association rows of other recipes.
pub open spec fn link_outside_recipe(recipe_id: int) -> spec_fn(RecipeCategoryView) -> bool {
    |link: RecipeCategoryView| link.recipe_id != recipe_id
}

/// The association rows of other categories.
pub open spec fn link_outside_category(category_id: int) -> spec_fn(RecipeCategoryView) -> bool {
    |link: RecipeCategoryView| link.category_id != category_id
}

/// The categories that `links` put the recipe `recipe_id` into.
pub open spec fn category_of(links: Seq<RecipeCategoryView>, recipe_id: int) -> spec_fn(
    CategoryView,
) -> bool {
    |category: CategoryView|
        links.contains(RecipeCategoryView { recipe_id, category_id: category.id })
}

/// The change of one recipe among all: the recipe `id` changes, the others
/// stay.
pub open spec fn change_recipe(id: int, changes: ChangeRecipeView) -> spec_fn(RecipeView)
    -> RecipeView {
    |recipe: RecipeView|
        if recipe.id == id {
            changes.apply(recipe)
        } else {
            recipe
        }
}

/// The change of one category among all.
pub open spec fn change_category(id: int, changes: ChangeCategoryView) -> spec_fn(CategoryView)
    -> CategoryView {
    |category: CategoryView|
        if category.id == id {
            changes.apply(category)
        } else {
            category
        }
}

/// The first of the rows selected, if any row was.
pub open spec fn first<A>(rows: Seq<A>) -> Option<A> {
    if rows.len() > 0 {
        Some(rows[0])
    } else {
        None
    }
}

/// The reply to a statement that asks for one recipe.
pub open spec fn one_recipe(row: Option<RecipeView>) -> ReplyView {
    match row {
        Some(recipe) => ReplyView::Recipe(recipe),
        None => ReplyView::Missing,
    }
}

/// The reply to a statement that asks for one category.
pub open spec fn one_category(row: Option<CategoryView>) -> ReplyView {
    match row {
        Some(category) => ReplyView::Category(category),
        None => ReplyView::Missing,
    }
}

/// The store as a value.
pub struct Database {
    pub recipes: Seq<RecipeView>,
    pub categories: Seq<CategoryView>,
    pub links: Seq<RecipeCategoryView>,
    /// The id that the next new recipe gets.
    pub next_recipe_id: int,
    /// The id that the next new category gets.
    pub next_category_id: int,
}

impl Database {
    /// A store without rows, whose first ids will be 1.
    pub open spec fn empty() -> Database {
        Database {
            recipes: Seq::empty(),
            categories: Seq::empty(),
            links: Seq::empty(),
            next_recipe_id: 1,
            next_category_id: 1,
        }
    }

    /// The recipe with this id.
    pub open spec fn recipe(self, id: int) -> Option<RecipeView> {
        first(self.recipes.filter(recipe_with(id)))
    }

    /// The category with this id.
    pub open spec fn category(self, id: int) -> Option<CategoryView> {
        first(self.categories.filter(category_with(id)))
    }

    /// The category with this name.
    pub open spec fn category_named(self, name: Seq<char>) -> Option<CategoryView> {
        first(self.categories.filter(category_named(name)))
    }

    /// The categories of a recipe, in the order of the category table.
    pub open spec fn categories_of(self, recipe_id: int) -> Seq<CategoryView> {
        self.categories.filter(category_of(self.links, recipe_id))
    }

    /// True when the recipe belongs to the category.
    pub open spec fn linked(self, recipe_id: int, category_id: int) -> bool {
        self.links.contains(RecipeCategoryView { recipe_id, category_id })
    }

    /// True when an association row refers to the recipe.
    pub open spec fn recipe_in_use(self, id: int) -> bool {
        exists|i: int| 0 <= i < self.links.len() && (#[trigger] self.links[i]).recipe_id == id
    }

    /// True when an association row refers to the category.
    pub open spec fn category_in_use(self, id: int) -> bool {
        exists|i: int| 0 <= i < self.links.len() && (#[trigger] self.links[i]).category_id == id
    }

    /// True when a category other than `id` has this name.
    pub open spec fn name_taken(self, name: Seq<char>, id: int) -> bool {
        exists|i: int|
            0 <= i < self.categories.len() && (#[trigger] self.categories[i]).name == name
                && self.categories[i].id != id
    }

    /// True when some category has this name.
    pub open spec fn name_used(self, name: Seq<char>) -> bool {
        exists|i: int|
            0 <= i < self.categories.len() && (#[trigger] self.categories[i]).name == name
    }

    /// True when some recipe has this id.
    pub open spec fn has_recipe(self, id: int) -> bool {
        exists|i: int| 0 <= i < self.recipes.len() && (#[trigger] self.recipes[i]).id == id
    }

    /// True when some category has this id.
    pub open spec fn has_category(self, id: int) -> bool {
        exists|i: int| 0 <= i < self.categories.len() && (#[trigger] self.categories[i]).id == id
    }

    /// New ids are still to be had or just ran out, and every id in a table
    /// was drawn from its counter.
    pub open spec fn drawn(self) -> bool {
        &&& 1 <= self.next_recipe_id <= max_id() + 1
        &&& 1 <= self.next_category_id <= max_id() + 1
        &&& forall|i: int|
            0 <= i < self.recipes.len() ==> 1 <= (#[trigger] self.recipes[i]).id
                < self.next_recipe_id
        &&& forall|i: int|
            0 <= i < self.categories.len() ==> 1 <= (#[trigger] self.categories[i]).id
                < self.next_category_id
        &&& forall|i: int|
            0 <= i < self.links.len() ==> 1 <= (#[trigger] self.links[i]).recipe_id
                < self.next_recipe_id && 1 <= self.links[i].category_id < self.next_category_id
    }

    /// No two recipes share an id, no two categories an id or a name, and
    /// no association row comes twice.
    pub open spec fn unique(self) -> bool {
        &&& forall|i: int, j: int|
            0 <= i < j < self.recipes.len() ==> (#[trigger] self.recipes[i]).id
                != (#[trigger] self.recipes[j]).id
        &&& forall|i: int, j: int|
            0 <= i < j < self.categories.len() ==> (#[trigger] self.categories[i]).id
                != (#[trigger] self.categories[j]).id
        &&& forall|i: int, j: int|
            0 <= i < j < self.categories.len() ==> (#[trigger] self.categories[i]).name
                != (#[trigger] self.categories[j]).name
        &&& forall|i: int, j: int|
            0 <= i < j < self.links.len() ==> #[trigger] self.links[i] != #[trigger] self.links[j]
    }

    /// Every association row refers to a recipe and to a category that
    /// exist: the store holds no orphaned association.
    pub open spec fn resolved(self) -> bool {
        forall|i: int|
            0 <= i < self.links.len() ==> self.has_recipe((#[trigger] self.links[i]).recipe_id)
                && self.has_category(self.links[i].category_id)
    }

    /// What the store holds by construction, given that it is only changed
    /// by its statements.
    pub open spec fn valid(self) -> bool {
        &&& self.drawn()
        &&& self.unique()
        &&& self.resolved()
    }

    /// The tables of `saved` under the counters of `self`: what a rollback
    /// leaves. Ids that were drawn meanwhile are not given again.
    pub open spec fn restored(self, saved: Database) -> Database {
        Database {
            recipes: saved.recipes,
            categories: saved.categories,
            links: saved.links,
            next_recipe_id: self.next_recipe_id,
            next_category_id: self.next_category_id,
        }
    }

    /// Inserts a recipe under the next id. Fails when the ids ran out.
    pub open spec fn insert_recipe(self, recipe: NewRecipeView) -> (Database, ReplyView) {
        if self.next_recipe_id > max_id() {
            (self, ReplyView::Failed)
        } else {
            let row = recipe.with_id(self.next_recipe_id);
            (
                Database {
                    recipes: self.recipes.push(row),
                    next_recipe_id: self.next_recipe_id + 1,
                    ..self
                },
                ReplyView::Recipe(row),
            )
        }
    }

    /// Changes the recipe `id` and returns it as changed; there is nothing
    /// to return when it does not exist.
    pub open spec fn update_recipe(self, id: int, changes: ChangeRecipeView) -> (
        Database,
        ReplyView,
    ) {
        match self.recipe(id) {
            Some(recipe) => (
                Database {
                    recipes: self.recipes.map_values(change_recipe(id, changes)),
                    ..self
                },
                ReplyView::Recipe(changes.apply(recipe)),
            ),
            None => (self, ReplyView::Missing),
        }
    }

    /// Removes the recipe `id`. Fails while an association row refers to
    /// it.
    pub open spec fn delete_recipe(self, id: int) -> (Database, ReplyView) {
        if self.recipe_in_use(id) {
            (self, ReplyView::Failed)
        } else {
            (
                Database { recipes: self.recipes.filter(recipe_without(id)), ..self },
                ReplyView::Done,
            )
        }
    }

    /// Inserts a category under the next id. Fails when the name is taken
    /// or the ids ran out.
    pub open spec fn insert_category(self, category: NewCategoryView) -> (Database, ReplyView) {
        if self.name_used(category.name) || self.next_category_id > max_id() {
            (self, ReplyView::Failed)
        } else {
            let row = CategoryView { id: self.next_category_id, name: category.name };
            (
                Database {
                    categories: self.categories.push(row),
                    next_category_id: self.next_category_id + 1,
                    ..self
                },
                ReplyView::Category(row),
            )
        }
    }

    /// Changes the category `id` and returns it as changed; there is
    /// nothing to return when it does not exist. Fails when another
    /// category has the new name.
    pub open spec fn update_category(self, id: int, changes: ChangeCategoryView) -> (
        Database,
        ReplyView,
    ) {
        match self.category(id) {
            Some(category) => if changes.name is Some && self.name_taken(
                changes.name->Some_0,
                id,
            ) {
                (self, ReplyView::Failed)
            } else {
                (
                    Database {
                        categories: self.categories.map_values(change_category(id, changes)),
                        ..self
                    },
                    ReplyView::Category(changes.apply(category)),
                )
            },
            None => (self, ReplyView::Missing),
        }
    }

    /// Removes the category `id`. Fails while an association row refers to
    /// it.
    pub open spec fn delete_category(self, id: int) -> (Database, ReplyView) {
        if self.category_in_use(id) {
            (self, ReplyView::Failed)
        } else {
            (
                Database { categories: self.categories.filter(category_without(id)), ..self },
                ReplyView::Done,
            )
        }
    }

    /// Puts a recipe into a category. Fails when either does not exist or
    /// the recipe is in the category already.
    pub open spec fn insert_link(self, link: RecipeCategoryView) -> (Database, ReplyView) {
        if self.recipe(link.recipe_id) is None || self.category(link.category_id) is None
            || self.links.contains(link) {
            (self, ReplyView::Failed)
        } else {
            (Database { links: self.links.push(link), ..self }, ReplyView::Done)
        }
    }

    /// Takes a recipe out of every category.
    pub open spec fn delete_links_of_recipe(self, recipe_id: int) -> (Database, ReplyView) {
        (
            Database { links: self.links.filter(link_outside_recipe(recipe_id)), ..self },
            ReplyView::Done,
        )
    }

    /// Takes every recipe out of a category.
    pub open spec fn delete_links_of_category(self, category_id: int) -> (Database, ReplyView) {
        (
            Database { links: self.links.filter(link_outside_category(category_id)), ..self },
            ReplyView::Done,
        )
    }
}

/// A connection to the store: the store itself and, while a transaction is
/// open, the store as it was when the transaction began.
pub struct Session {
    pub db: Database,
    pub saved: Option<Database>,
}

impl Session {
    /// A fresh connection: no transaction is open.
    pub open spec fn open(db: Database) -> Session {
        Session { db, saved: None }
    }

    /// The store is valid, and so is what a rollback would leave.
    pub open spec fn valid(self) -> bool {
        &&& self.db.valid()
        &&& self.saved matches Some(saved) ==> self.db.restored(saved).valid()
    }

    /// The session after its transaction, if one is open, was undone.
    pub open spec fn undone(self) -> Session {
        Session {
            db: match self.saved {
                Some(saved) => self.db.restored(saved),
                None => self.db,
            },
            saved: None,
        }
    }

    /// What a store that may fail does with a statement: what the statement
    /// means or, when it fails, nothing but to say so. A transaction whose
    /// end fails is undone.
    pub open spec fn attempt(self, statement: StatementView, fails: bool) -> (Session, ReplyView) {
        if fails {
            match statement {
                StatementView::Commit => (self.undone(), ReplyView::Failed),
                StatementView::Rollback => (self.undone(), ReplyView::Failed),
                _ => (self, ReplyView::Failed),
            }
        } else {
            self.execute(statement)
        }
    }

    /// The session after a statement that touched the store only.
    pub open spec fn with(self, outcome: (Database, ReplyView)) -> (Session, ReplyView) {
        (Session { db: outcome.0, saved: self.saved }, outcome.1)
    }

    /// The effect of a statement and the reply to it.
    pub open spec fn execute(self, statement: StatementView) -> (Session, ReplyView) {
        let db = self.db;
        match statement {
            StatementView::Begin => (
                match self.saved {
                    Some(_) => self,
                    None => Session { db, saved: Some(db) },
                },
                ReplyView::Done,
            ),
            StatementView::Commit => (Session { db, saved: None }, ReplyView::Done),
            StatementView::Rollback => (
                match self.saved {
                    Some(saved) => Session { db: db.restored(saved), saved: None },
                    None => self,
                },
                ReplyView::Done,
            ),
            StatementView::ListRecipes => (self, ReplyView::Recipes(db.recipes)),
            StatementView::FindRecipe { id } => (self, one_recipe(db.recipe(id))),
            StatementView::InsertRecipe { recipe } => self.with(db.insert_recipe(recipe)),
            StatementView::UpdateRecipe { id, changes } => self.with(
                db.update_recipe(id, changes),
            ),
            StatementView::DeleteRecipe { id } => self.with(db.delete_recipe(id)),
            StatementView::ListCategories => (self, ReplyView::Categories(db.categories)),
            StatementView::FindCategory { id } => (self, one_category(db.category(id))),
            StatementView::FindCategoryByName { name } => (
                self,
                one_category(db.category_named(name)),
            ),
            StatementView::InsertCategory { category } => self.with(db.insert_category(category)),
            StatementView::UpdateCategory { id, changes } => self.with(
                db.update_category(id, changes),
            ),
            StatementView::DeleteCategory { id } => self.with(db.delete_category(id)),
            StatementView::CategoriesOfRecipe { recipe_id } => (
                self,
                ReplyView::Categories(db.categories_of(recipe_id)),
            ),
            StatementView::InsertRecipeCategory { link } => self.with(db.insert_link(link)),
            StatementView::DeleteCategoriesOfRecipe { recipe_id } => self.with(
                db.delete_links_of_recipe(recipe_id),
            ),
            StatementView::DeleteRecipesOfCategory { category_id } => self.with(
                db.delete_links_of_category(category_id),
            ),
        }
    }
}

/// Every row that a selection keeps was in the table and meets the
/// condition; a row of the table that meets the condition is kept.
pub proof fn lemma_selected<A>(rows: Seq<A>, condition: spec_fn(A) -> bool)
    ensures
        forall|i: int|
            0 <= i < rows.filter(condition).len() ==> condition(
                #[trigger] rows.filter(condition)[i],
            ) && rows.contains(rows.filter(condition)[i]),
        forall|i: int|
            0 <= i < rows.len() && condition(#[trigger] rows[i]) ==> rows.filter(
                condition,
            ).contains(rows[i]),
        rows.filter(condition).len() <= rows.len(),
{
    broadcast use vstd::seq_lib::group_filter_ensures;

    assert forall|i: int| 0 <= i < rows.filter(condition).len() implies rows.contains(
        #[trigger] rows.filter(condition)[i],
    ) by {
        let row = rows.filter(condition)[i];
        assert(rows.filter(condition).contains(row));
        rows.lemma_filter_contains_rev(condition, row);
    }
}

/// A selection keeps the rows in their order: two rows that it keeps stood
/// in the same order in the table.
pub proof fn lemma_selected_in_order<A>(rows: Seq<A>, condition: spec_fn(A) -> bool, i: int, j: int)
    requires
        0 <= i < j < rows.filter(condition).len(),
    ensures
        exists|a: int, b: int|
            0 <= a < b < rows.len() && rows[a] == rows.filter(condition)[i] && rows[b]
                == rows.filter(condition)[j],
    decreases rows.len(),
{
    reveal(Seq::filter);
    let kept = rows.filter(condition);
    if rows.len() > 0 {
        let front = rows.drop_last();
        let last = rows.len() - 1;
        if condition(rows.last()) && j == kept.len() - 1 {
            lemma_selected(front, condition);
            assert(front.filter(condition)[i] == kept[i]);
            assert(front.contains(front.filter(condition)[i]));
            let a = choose|a: int| 0 <= a < front.len() && front[a] == kept[i];
            assert(rows[a] == kept[i] && rows[last] == kept[j]);
        } else {
            assert(front.filter(condition)[i] == kept[i]);
            assert(front.filter(condition)[j] == kept[j]);
            lemma_selected_in_order(front, condition, i, j);
            let (a, b) = choose|a: int, b: int|
                0 <= a < b < front.len() && front[a] == front.filter(condition)[i] && front[b]
                    == front.filter(condition)[j];
            assert(rows[a] == kept[i] && rows[b] == kept[j]);
        }
    }
}

/// Selecting from the first `i + 1` rows adds the row `i`, if it meets the
/// condition, to what was selected from the first `i`.
pub proof fn lemma_select_next<A>(rows: Seq<A>, condition: spec_fn(A) -> bool, i: int)
    requires
        0 <= i < rows.len(),
    ensures
        rows.take(i + 1).filter(condition) == if condition(rows[i]) {
            rows.take(i).filter(condition).push(rows[i])
        } else {
            rows.take(i).filter(condition)
        },
        rows.take(0).filter(condition) == Seq::<A>::empty(),
        rows.take(rows.len() as int) == rows,
{
    reveal(Seq::filter);
    assert(rows.take(i + 1) =~= rows.take(i).push(rows[i]));
    rows.take(i).lemma_filter_push(rows[i], condition);
    assert(rows.take(0).filter(condition) =~= Seq::<A>::empty());
    assert(rows.take(rows.len() as int) =~= rows);
}

} // verus!
