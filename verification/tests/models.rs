use bigdecimal::BigDecimal;
use recipes_rs::models::category::{Category, ChangeCategory};
use recipes_rs::models::ingredient::{Ingredient, NewIngredient, RecipeIngredient};
use recipes_rs::models::recipe::{ChangeRecipe, NewRecipe, Recipe};

fn recipe_a() -> Recipe {
    Recipe {
        id: 1,
        name: String::from("A"),
        instructions: String::from("stir"),
        cuisine: String::from("it"),
        duration_min: 20,
        preparation_needed: false,
        portions: 2,
        difficulty: 5,
    }
}

fn no_change() -> ChangeRecipe {
    ChangeRecipe {
        name: None,
        instructions: None,
        cuisine: None,
        duration_min: None,
        preparation_needed: None,
        portions: None,
        difficulty: None,
    }
}

#[test]
fn change_of_difficulty_keeps_the_name() {
    let changes = ChangeRecipe { difficulty: Some(9), ..no_change() };
    let changed = changes.apply(&recipe_a());
    assert_eq!(changed.name, "A");
    assert_eq!(changed.difficulty, 9);
    assert_eq!(changed, Recipe { difficulty: 9, ..recipe_a() });
}

#[test]
fn empty_change_changes_nothing() {
    assert!(no_change().is_empty());
    assert_eq!(no_change().apply(&recipe_a()), recipe_a());
}

#[test]
fn change_that_names_a_field_is_not_empty() {
    assert!(!ChangeRecipe { preparation_needed: Some(false), ..no_change() }.is_empty());
    assert!(!ChangeRecipe { name: Some(String::new()), ..no_change() }.is_empty());
}

#[test]
fn full_change_replaces_every_field_but_the_id() {
    let changes = ChangeRecipe {
        name: Some(String::from("B")),
        instructions: Some(String::from("fry")),
        cuisine: Some(String::from("fr")),
        duration_min: Some(45),
        preparation_needed: Some(true),
        portions: Some(6),
        difficulty: Some(2),
    };
    assert_eq!(
        changes.apply(&recipe_a()),
        Recipe {
            id: 1,
            name: String::from("B"),
            instructions: String::from("fry"),
            cuisine: String::from("fr"),
            duration_min: 45,
            preparation_needed: true,
            portions: 6,
            difficulty: 2,
        }
    );
}

#[test]
fn new_recipe_takes_the_id_it_is_given() {
    let new = NewRecipe {
        name: String::from("A"),
        instructions: String::from("stir"),
        cuisine: String::from("it"),
        duration_min: 20,
        preparation_needed: false,
        portions: 2,
        difficulty: 5,
    };
    assert_eq!(new.clone().with_id(1), recipe_a());
    assert_eq!(new.with_id(7).id, 7);
}

#[test]
fn category_change_renames_or_keeps() {
    let dessert = Category { id: 3, name: String::from("dessert") };
    let renamed = ChangeCategory { name: Some(String::from("sweets")) }.apply(&dessert);
    assert_eq!(renamed, Category { id: 3, name: String::from("sweets") });
    assert_eq!(ChangeCategory { name: None }.apply(&dessert), dessert);
}

#[test]
fn new_ingredient_takes_the_id_it_is_given() {
    let flour = NewIngredient { name: "flour" };
    assert_eq!(flour.with_id(2), Ingredient { id: 2, name: String::from("flour") });
}

#[test]
fn recipe_ingredient_copy_keeps_the_quantity() {
    let row = RecipeIngredient {
        recipe_id: 1,
        ingredient_id: 2,
        part: 1,
        quantity: BigDecimal::new(15.into(), 1),
        unit: String::from("kg"),
    };
    let copy = row.clone();
    assert_eq!(copy, row);
    assert_eq!(copy.quantity.to_string(), "1.5");
    assert_ne!(copy.quantity, BigDecimal::new(15.into(), 0));
}
