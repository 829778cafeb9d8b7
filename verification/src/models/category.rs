//! Categories and the rows that tie a recipe to a category.

use vstd::prelude::*;

verus! {

/// A stored category. Its `id` is given by the store; no two categories
/// share a `name`.
#[derive(Debug, PartialEq, Eq)]
pub struct Category {
    pub id: i32,
    pub name: String,
}

/// `Category` as a mathematical value: text as sequences of characters,
/// numbers as integers, lists as sequences.
pub struct CategoryView {
    pub id: int,
    pub name: Seq<char>,
}

impl View for Category {
    type V = CategoryView;

    open spec fn view(&self) -> CategoryView {
        CategoryView { id: self.id as int, name: self.name@ }
    }
}

impl DeepView for Category {
    type V = CategoryView;

    open spec fn deep_view(&self) -> CategoryView {
        self@
    }
}

impl Clone for Category {
    fn clone(&self) -> (copy: Self)
        ensures
            copy == *self,
    {
        Category { id: self.id, name: self.name.clone() }
    }
}

/// The payload that creates a category.
#[derive(Debug, PartialEq, Eq)]
pub struct NewCategory {
    pub name: String,
}

/// `NewCategory` as a mathematical value: text as sequences of characters,
/// numbers as integers, lists as sequences.
pub struct NewCategoryView {
    pub name: Seq<char>,
}

impl View for NewCategory {
    type V = NewCategoryView;

    open spec fn view(&self) -> NewCategoryView {
        NewCategoryView { name: self.name@ }
    }
}

impl DeepView for NewCategory {
    type V = NewCategoryView;

    open spec fn deep_view(&self) -> NewCategoryView {
        self@
    }
}

impl Clone for NewCategory {
    fn clone(&self) -> (copy: Self)
        ensures
            copy == *self,
    {
        NewCategory { name: self.name.clone() }
    }
}

/// A partial update of a category: a `name` that is `None` is left as it is.
#[derive(Debug, PartialEq, Eq)]
pub struct ChangeCategory {
    pub name: Option<String>,
}

/// `ChangeCategory` as a mathematical value: text as sequences of characters,
/// numbers as integers, lists as sequences.
pub struct ChangeCategoryView {
    pub name: Option<Seq<char>>,
}

impl ChangeCategoryView {
    /// True when the update names no field at all.
    pub open spec fn is_empty(self) -> bool {
        self.name is None
    }

    /// The category after the update.
    pub open spec fn apply(self, category: CategoryView) -> CategoryView {
        CategoryView {
            id: category.id,
            name: match self.name {
                Some(name) => name,
                None => category.name,
            },
        }
    }
}

impl View for ChangeCategory {
    type V = ChangeCategoryView;

    open spec fn view(&self) -> ChangeCategoryView {
        ChangeCategoryView { name: self.name.deep_view() }
    }
}

impl DeepView for ChangeCategory {
    type V = ChangeCategoryView;

    open spec fn deep_view(&self) -> ChangeCategoryView {
        self@
    }
}

impl Clone for ChangeCategory {
    fn clone(&self) -> (copy: Self)
        ensures
            copy == *self,
    {
        ChangeCategory {
            name: match &self.name {
                Some(name) => Some(name.clone()),
                None => None,
            },
        }
    }
}

impl ChangeCategory {
    /// True when the update names no field at all.
    pub fn is_empty(&self) -> (empty: bool)
        ensures
            empty == self@.is_empty(),
    {
        self.name.is_none()
    }

    /// The category after the update.
    pub fn apply(&self, category: &Category) -> (changed: Category)
        ensures
            changed@ == self@.apply(category@),
    {
        Category {
            id: category.id,
            name: match &self.name {
                Some(name) => name.clone(),
                None => category.name.clone(),
            },
        }
    }
}

/// One row of the association between recipes and categories: the recipe
/// `recipe_id` belongs to the category `category_id`.
#[derive(Debug, Clone, Copy, PartialEq, Eq, Structural)]
pub struct RecipeCategory {
    pub recipe_id: i32,
    pub category_id: i32,
}

/// `RecipeCategory` as a mathematical value: text as sequences of characters,
/// numbers as integers, lists as sequences.
pub struct RecipeCategoryView {
    pub recipe_id: int,
    pub category_id: int,
}

impl View for RecipeCategory {
    type V = RecipeCategoryView;

    open spec fn view(&self) -> RecipeCategoryView {
        RecipeCategoryView {
            recipe_id: self.recipe_id as int,
            category_id: self.category_id as int,
        }
    }
}

impl DeepView for RecipeCategory {
    type V = RecipeCategoryView;

    open spec fn deep_view(&self) -> RecipeCategoryView {
        self@
    }
}

} // verus!
