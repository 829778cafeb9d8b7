//! Ingredients and the rows that tie a recipe to an ingredient.

use bigdecimal::BigDecimal;
use vstd::prelude::*;

verus! {

/// `bigdecimal::BigDecimal`, an arbitrary-precision decimal. The library
/// carries such a value through without looking inside; nothing is known of
/// it here but that it is a value.
#[verifier::external_type_specification]
#[verifier::external_body]
pub struct ExBigDecimal(BigDecimal);

/// `<BigDecimal as Clone>::clone`, which the crate derives for its struct
/// of digits and scale: the copy is the number that was copied. This is
/// read off the crate's source and taken as given, not proved.
pub assume_specification[ <BigDecimal as Clone>::clone ](number: &BigDecimal) -> (copy: BigDecimal)
    ensures
        copy == *number,
;

/// A stored ingredient.
#[derive(Debug, PartialEq, Eq)]
pub struct Ingredient {
    pub id: i32,
    pub name: String,
}

/// `Ingredient` as a mathematical value: text as sequences of characters,
/// numbers as integers, lists as sequences.
pub struct IngredientView {
    pub id: int,
    pub name: Seq<char>,
}

impl View for Ingredient {
    type V = IngredientView;

    open spec fn view(&self) -> IngredientView {
        IngredientView { id: self.id as int, name: self.name@ }
    }
}

impl DeepView for Ingredient {
    type V = IngredientView;

    open spec fn deep_view(&self) -> IngredientView {
        self@
    }
}

impl Clone for Ingredient {
    fn clone(&self) -> (copy: Self)
        ensures
            copy == *self,
    {
        Ingredient { id: self.id, name: self.name.clone() }
    }
}

/// The payload that creates an ingredient.
#[derive(Debug, Clone, Copy, PartialEq, Eq)]
pub struct NewIngredient<'a> {
    pub name: &'a str,
}

/// `NewIngredient` as a mathematical value: text as sequences of characters,
/// numbers as integers, lists as sequences.
pub struct NewIngredientView {
    pub name: Seq<char>,
}

impl<'a> View for NewIngredient<'a> {
    type V = NewIngredientView;

    open spec fn view(&self) -> NewIngredientView {
        NewIngredientView { name: self.name@ }
    }
}

impl<'a> NewIngredient<'a> {
    /// The row that this payload becomes once the store has given it `id`.
    pub fn with_id(&self, id: i32) -> (ingredient: Ingredient)
        ensures
            ingredient@ == (IngredientView { id: id as int, name: self@.name }),
    {
        Ingredient { id, name: self.name.to_owned() }
    }
}

/// One row of the association between recipes and ingredients: how much of
/// the ingredient the recipe takes, and in which part of it.
#[derive(Debug, PartialEq)]
pub struct RecipeIngredient {
    pub recipe_id: i32,
    pub ingredient_id: i32,
    pub part: i16,
    pub quantity: BigDecimal,
    pub unit: String,
}

/// `RecipeIngredient` as a mathematical value: text as sequences of characters,
/// numbers as integers, lists as sequences.
pub struct RecipeIngredientView {
    pub recipe_id: int,
    pub ingredient_id: int,
    pub part: int,
    pub quantity: BigDecimal,
    pub unit: Seq<char>,
}

impl View for RecipeIngredient {
    type V = RecipeIngredientView;

    open spec fn view(&self) -> RecipeIngredientView {
        RecipeIngredientView {
            recipe_id: self.recipe_id as int,
            ingredient_id: self.ingredient_id as int,
            part: self.part as int,
            quantity: self.quantity,
            unit: self.unit@,
        }
    }
}

impl Clone for RecipeIngredient {
    fn clone(&self) -> (copy: Self)
        ensures
            copy == *self,
    {
        RecipeIngredient {
            recipe_id: self.recipe_id,
            ingredient_id: self.ingredient_id,
            part: self.part,
            quantity: self.quantity.clone(),
            unit: self.unit.clone(),
        }
    }
}

} // verus!
