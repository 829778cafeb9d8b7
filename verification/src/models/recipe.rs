//! Recipes: the stored row, the payload that creates one and the partial
//! payload that changes one.

use vstd::prelude::*;

verus! {

/// A stored recipe. Its `id` is given by the store and never changes.
#[derive(Debug, PartialEq, Eq)]
pub struct Recipe {
    pub id: i32,
    pub name: String,
    pub instructions: String,
    pub cuisine: String,
    pub duration_min: i32,
    pub preparation_needed: bool,
    pub portions: i32,
    pub difficulty: i32,
}

/// What a recipe is, apart from how it is held in memory.
pub struct RecipeView {
    pub id: int,
    pub name: Seq<char>,
    pub instructions: Seq<char>,
    pub cuisine: Seq<char>,
    pub duration_min: int,
    pub preparation_needed: bool,
    pub portions: int,
    pub difficulty: int,
}

impl View for Recipe {
    type V = RecipeView;

    open spec fn view(&self) -> RecipeView {
        RecipeView {
            id: self.id as int,
            name: self.name@,
            instructions: self.instructions@,
            cuisine: self.cuisine@,
            duration_min: self.duration_min as int,
            preparation_needed: self.preparation_needed,
            portions: self.portions as int,
            difficulty: self.difficulty as int,
        }
    }
}

impl DeepView for Recipe {
    type V = RecipeView;

    open spec fn deep_view(&self) -> RecipeView {
        self@
    }
}

impl Clone for Recipe {
    fn clone(&self) -> (copy: Self)
        ensures
            copy == *self,
    {
        Recipe {
            id: self.id,
            name: self.name.clone(),
            instructions: self.instructions.clone(),
            cuisine: self.cuisine.clone(),
            duration_min: self.duration_min,
            preparation_needed: self.preparation_needed,
            portions: self.portions,
            difficulty: self.difficulty,
        }
    }
}

/// The payload that creates a recipe: every field but the `id`.
#[derive(Debug, PartialEq, Eq)]
pub struct NewRecipe {
    pub name: String,
    pub instructions: String,
    pub cuisine: String,
    pub duration_min: i32,
    pub preparation_needed: bool,
    pub portions: i32,
    pub difficulty: i32,
}

/// `NewRecipe` as a mathematical value: text as sequences of characters,
/// numbers as integers, lists as sequences.
pub struct NewRecipeView {
    pub name: Seq<char>,
    pub instructions: Seq<char>,
    pub cuisine: Seq<char>,
    pub duration_min: int,
    pub preparation_needed: bool,
    pub portions: int,
    pub difficulty: int,
}

impl NewRecipeView {
    /// The row that the payload becomes once the store has given it `id`.
    pub open spec fn with_id(self, id: int) -> RecipeView {
        RecipeView {
            id,
            name: self.name,
            instructions: self.instructions,
            cuisine: self.cuisine,
            duration_min: self.duration_min,
            preparation_needed: self.preparation_needed,
            portions: self.portions,
            difficulty: self.difficulty,
        }
    }
}

impl View for NewRecipe {
    type V = NewRecipeView;

    open spec fn view(&self) -> NewRecipeView {
        NewRecipeView {
            name: self.name@,
            instructions: self.instructions@,
            cuisine: self.cuisine@,
            duration_min: self.duration_min as int,
            preparation_needed: self.preparation_needed,
            portions: self.portions as int,
            difficulty: self.difficulty as int,
        }
    }
}

impl DeepView for NewRecipe {
    type V = NewRecipeView;

    open spec fn deep_view(&self) -> NewRecipeView {
        self@
    }
}

impl Clone for NewRecipe {
    fn clone(&self) -> (copy: Self)
        ensures
            copy == *self,
    {
        NewRecipe {
            name: self.name.clone(),
            instructions: self.instructions.clone(),
            cuisine: self.cuisine.clone(),
            duration_min: self.duration_min,
            preparation_needed: self.preparation_needed,
            portions: self.portions,
            difficulty: self.difficulty,
        }
    }
}

impl NewRecipe {
    /// The row that this payload becomes once the store has given it `id`.
    pub fn with_id(self, id: i32) -> (recipe: Recipe)
        ensures
            recipe@ == self@.with_id(id as int),
    {
        Recipe {
            id,
            name: self.name,
            instructions: self.instructions,
            cuisine: self.cuisine,
            duration_min: self.duration_min,
            preparation_needed: self.preparation_needed,
            portions: self.portions,
            difficulty: self.difficulty,
        }
    }
}

/// A partial update of a recipe. A field that is `None` is left as it is;
/// a field that is `Some` replaces the stored value.
#[derive(Debug, PartialEq, Eq)]
pub struct ChangeRecipe {
    pub name: Option<String>,
    pub instructions: Option<String>,
    pub cuisine: Option<String>,
    pub duration_min: Option<i32>,
    pub preparation_needed: Option<bool>,
    pub portions: Option<i32>,
    pub difficulty: Option<i32>,
}

/// `ChangeRecipe` as a mathematical value: text as sequences of characters,
/// numbers as integers, lists as sequences.
pub struct ChangeRecipeView {
    pub name: Option<Seq<char>>,
    pub instructions: Option<Seq<char>>,
    pub cuisine: Option<Seq<char>>,
    pub duration_min: Option<int>,
    pub preparation_needed: Option<bool>,
    pub portions: Option<int>,
    pub difficulty: Option<int>,
}

/// The value of one field after a partial update.
pub open spec fn patched<T>(change: Option<T>, stored: T) -> T {
    match change {
        Some(value) => value,
        None => stored,
    }
}

/// An optional number read as a mathematical integer.
pub open spec fn widened(number: Option<i32>) -> Option<int> {
    match number {
        Some(n) => Some(n as int),
        None => None,
    }
}

impl ChangeRecipeView {
    /// True when the update names no field at all.
    pub open spec fn is_empty(self) -> bool {
        &&& self.name is None
        &&& self.instructions is None
        &&& self.cuisine is None
        &&& self.duration_min is None
        &&& self.preparation_needed is None
        &&& self.portions is None
        &&& self.difficulty is None
    }

    /// The recipe after the update: each field that the update names takes
    /// the new value, every other field and the `id` stay.
    pub open spec fn apply(self, recipe: RecipeView) -> RecipeView {
        RecipeView {
            id: recipe.id,
            name: patched(self.name, recipe.name),
            instructions: patched(self.instructions, recipe.instructions),
            cuisine: patched(self.cuisine, recipe.cuisine),
            duration_min: patched(self.duration_min, recipe.duration_min),
            preparation_needed: patched(self.preparation_needed, recipe.preparation_needed),
            portions: patched(self.portions, recipe.portions),
            difficulty: patched(self.difficulty, recipe.difficulty),
        }
    }
}

impl View for ChangeRecipe {
    type V = ChangeRecipeView;

    open spec fn view(&self) -> ChangeRecipeView {
        ChangeRecipeView {
            name: self.name.deep_view(),
            instructions: self.instructions.deep_view(),
            cuisine: self.cuisine.deep_view(),
            duration_min: widened(self.duration_min),
            preparation_needed: self.preparation_needed,
            portions: widened(self.portions),
            difficulty: widened(self.difficulty),
        }
    }
}

impl DeepView for ChangeRecipe {
    type V = ChangeRecipeView;

    open spec fn deep_view(&self) -> ChangeRecipeView {
        self@
    }
}

/// A copy of an optional string.
fn copy_text(text: &Option<String>) -> (copy: Option<String>)
    ensures
        copy == *text,
{
    match text {
        Some(s) => Some(s.clone()),
        None => None,
    }
}

impl Clone for ChangeRecipe {
    fn clone(&self) -> (copy: Self)
        ensures
            copy == *self,
    {
        ChangeRecipe {
            name: copy_text(&self.name),
            instructions: copy_text(&self.instructions),
            cuisine: copy_text(&self.cuisine),
            duration_min: self.duration_min,
            preparation_needed: self.preparation_needed,
            portions: self.portions,
            difficulty: self.difficulty,
        }
    }
}

impl ChangeRecipe {
    /// True when the update names no field at all.
    pub fn is_empty(&self) -> (empty: bool)
        ensures
            empty == self@.is_empty(),
    {
        self.name.is_none() && self.instructions.is_none() && self.cuisine.is_none()
            && self.duration_min.is_none() && self.preparation_needed.is_none()
            && self.portions.is_none() && self.difficulty.is_none()
    }

    /// The recipe after the update: each field that the update names takes
    /// the new value, every other field and the `id` stay.
    pub fn apply(&self, recipe: &Recipe) -> (changed: Recipe)
        ensures
            changed@ == self@.apply(recipe@),
    {
        Recipe {
            id: recipe.id,
            name: match &self.name {
                Some(name) => name.clone(),
                None => recipe.name.clone(),
            },
            instructions: match &self.instructions {
                Some(instructions) => instructions.clone(),
                None => recipe.instructions.clone(),
            },
            cuisine: match &self.cuisine {
                Some(cuisine) => cuisine.clone(),
                None => recipe.cuisine.clone(),
            },
            duration_min: match self.duration_min {
                Some(duration_min) => duration_min,
                None => recipe.duration_min,
            },
            preparation_needed: match self.preparation_needed {
                Some(preparation_needed) => preparation_needed,
                None => recipe.preparation_needed,
            },
            portions: match self.portions {
                Some(portions) => portions,
                None => recipe.portions,
            },
            difficulty: match self.difficulty {
                Some(difficulty) => difficulty,
                None => recipe.difficulty,
            },
        }
    }
}

} // verus!
