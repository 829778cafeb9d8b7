//! The statements a handler sends to the store and the replies it gets.

use crate::models::category::{
    Category, CategoryView, ChangeCategory, ChangeCategoryView, NewCategory, NewCategoryView,
    RecipeCategory, RecipeCategoryView,
};
use crate::models::recipe::{
    ChangeRecipe, ChangeRecipeView, NewRecipe, NewRecipeView, Recipe, RecipeView,
};
use vstd::prelude::*;

verus! {

/// One statement for the store. Each stands for a single query against one
/// table or one join.
#[derive(Debug, Clone, PartialEq, Eq)]
#[allow(inconsistent_fields)]
pub enum Statement {
    /// Open a transaction.
    Begin,
    /// Make the writes of the open transaction permanent.
    Commit,
    /// Undo the writes of the open transaction.
    Rollback,
    /// Every recipe.
    ListRecipes,
    /// The recipe with this `id`.
    FindRecipe { id: i32 },
    /// Store a new recipe and return it with its `id`.
    InsertRecipe { recipe: NewRecipe },
    /// Change the recipe with this `id` and return it.
    UpdateRecipe { id: i32, changes: ChangeRecipe },
    /// Remove the recipe with this `id`.
    DeleteRecipe { id: i32 },
    /// Every category.
    ListCategories,
    /// The category with this `id`.
    FindCategory { id: i32 },
    /// The category with this `name`.
    FindCategoryByName { name: String },
    /// Store a new category and return it with its `id`.
    InsertCategory { category: NewCategory },
    /// Change the category with this `id` and return it.
    UpdateCategory { id: i32, changes: ChangeCategory },
    /// Remove the category with this `id`.
    DeleteCategory { id: i32 },
    /// The categories that the recipe `recipe_id` belongs to.
    CategoriesOfRecipe { recipe_id: i32 },
    /// Put a recipe into a category.
    InsertRecipeCategory { link: RecipeCategory },
    /// Take the recipe `recipe_id` out of every category.
    DeleteCategoriesOfRecipe { recipe_id: i32 },
    /// Take every recipe out of the category `category_id`.
    DeleteRecipesOfCategory { category_id: i32 },
}

/// `Statement` as a mathematical value.
#[allow(inconsistent_fields)]
pub enum StatementView {
    Begin,
    Commit,
    Rollback,
    ListRecipes,
    FindRecipe { id: int },
    InsertRecipe { recipe: NewRecipeView },
    UpdateRecipe { id: int, changes: ChangeRecipeView },
    DeleteRecipe { id: int },
    ListCategories,
    FindCategory { id: int },
    FindCategoryByName { name: Seq<char> },
    InsertCategory { category: NewCategoryView },
    UpdateCategory { id: int, changes: ChangeCategoryView },
    DeleteCategory { id: int },
    CategoriesOfRecipe { recipe_id: int },
    InsertRecipeCategory { link: RecipeCategoryView },
    DeleteCategoriesOfRecipe { recipe_id: int },
    DeleteRecipesOfCategory { category_id: int },
}

impl View for Statement {
    type V = StatementView;

    open spec fn view(&self) -> StatementView {
        match self {
            Statement::Begin => StatementView::Begin,
            Statement::Commit => StatementView::Commit,
            Statement::Rollback => StatementView::Rollback,
            Statement::ListRecipes => StatementView::ListRecipes,
            Statement::FindRecipe { id } => StatementView::FindRecipe { id: *id as int },
            Statement::InsertRecipe { recipe } => StatementView::InsertRecipe { recipe: recipe@ },
            Statement::UpdateRecipe { id, changes } => StatementView::UpdateRecipe {
                id: *id as int,
                changes: changes@,
            },
            Statement::DeleteRecipe { id } => StatementView::DeleteRecipe { id: *id as int },
            Statement::ListCategories => StatementView::ListCategories,
            Statement::FindCategory { id } => StatementView::FindCategory { id: *id as int },
            Statement::FindCategoryByName { name } => StatementView::FindCategoryByName {
                name: name@,
            },
            Statement::InsertCategory { category } => StatementView::InsertCategory {
                category: category@,
            },
            Statement::UpdateCategory { id, changes } => StatementView::UpdateCategory {
                id: *id as int,
                changes: changes@,
            },
            Statement::DeleteCategory { id } => StatementView::DeleteCategory { id: *id as int },
            Statement::CategoriesOfRecipe { recipe_id } => StatementView::CategoriesOfRecipe {
                recipe_id: *recipe_id as int,
            },
            Statement::InsertRecipeCategory { link } => StatementView::InsertRecipeCategory {
                link: link@,
            },
            Statement::DeleteCategoriesOfRecipe { recipe_id } =>
                StatementView::DeleteCategoriesOfRecipe { recipe_id: *recipe_id as int },
            Statement::DeleteRecipesOfCategory { category_id } =>
                StatementView::DeleteRecipesOfCategory { category_id: *category_id as int },
        }
    }
}

/// What came back: from the pool when a connection was asked for, or from
/// the store when a statement was sent.
#[derive(Debug, Clone, PartialEq, Eq)]
pub enum Reply {
    /// A connection was had.
    Connected,
    /// No connection could be had.
    Unavailable,
    /// The statement failed.
    Failed,
    /// The statement asked for one row and there is none.
    Missing,
    /// The statement ran; it returns no rows.
    Done,
    /// One recipe.
    Recipe(Recipe),
    /// Recipes, in the order of the store.
    Recipes(Vec<Recipe>),
    /// One category.
    Category(Category),
    /// Categories, in the order of the store.
    Categories(Vec<Category>),
}

/// `Reply` as a mathematical value.
pub enum ReplyView {
    Connected,
    Unavailable,
    Failed,
    Missing,
    Done,
    Recipe(RecipeView),
    Recipes(Seq<RecipeView>),
    Category(CategoryView),
    Categories(Seq<CategoryView>),
}

impl View for Reply {
    type V = ReplyView;

    open spec fn view(&self) -> ReplyView {
        match self {
            Reply::Connected => ReplyView::Connected,
            Reply::Unavailable => ReplyView::Unavailable,
            Reply::Failed => ReplyView::Failed,
            Reply::Missing => ReplyView::Missing,
            Reply::Done => ReplyView::Done,
            Reply::Recipe(recipe) => ReplyView::Recipe(recipe@),
            Reply::Recipes(recipes) => ReplyView::Recipes(recipes.deep_view()),
            Reply::Category(category) => ReplyView::Category(category@),
            Reply::Categories(categories) => ReplyView::Categories(categories.deep_view()),
        }
    }
}

} // verus!
