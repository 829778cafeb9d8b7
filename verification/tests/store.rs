use recipes_rs::models::category::{Category, ChangeCategory, NewCategory, RecipeCategory};
use recipes_rs::models::recipe::{ChangeRecipe, NewRecipe, Recipe};
use recipes_rs::store::memory::{Connection, Store};
use recipes_rs::store::statement::{Reply, Statement};

fn salad() -> NewRecipe {
    NewRecipe {
        name: String::from("Salad"),
        instructions: String::from("toss"),
        cuisine: String::from("gr"),
        duration_min: 10,
        preparation_needed: false,
        portions: 2,
        difficulty: 1,
    }
}

fn stored_salad(id: i32) -> Recipe {
    salad().with_id(id)
}

fn run(store: &mut Connection, statement: Statement) -> Reply {
    store.execute(statement)
}

fn fresh() -> Connection {
    Connection::open(Store::new())
}

fn new_category(name: &str) -> Statement {
    Statement::InsertCategory { category: NewCategory { name: String::from(name) } }
}

fn link(recipe_id: i32, category_id: i32) -> Statement {
    Statement::InsertRecipeCategory { link: RecipeCategory { recipe_id, category_id } }
}

#[test]
fn a_new_store_is_empty() {
    let mut store = fresh();
    assert_eq!(run(&mut store, Statement::ListRecipes), Reply::Recipes(vec![]));
    assert_eq!(run(&mut store, Statement::ListCategories), Reply::Categories(vec![]));
    assert_eq!(run(&mut store, Statement::FindRecipe { id: 1 }), Reply::Missing);
}

#[test]
fn insert_gives_ids_from_one_up() {
    let mut store = fresh();
    assert_eq!(
        run(&mut store, Statement::InsertRecipe { recipe: salad() }),
        Reply::Recipe(stored_salad(1))
    );
    assert_eq!(
        run(&mut store, Statement::InsertRecipe { recipe: salad() }),
        Reply::Recipe(stored_salad(2))
    );
    assert_eq!(
        run(&mut store, new_category("a")),
        Reply::Category(Category { id: 1, name: String::from("a") })
    );
    assert_eq!(
        run(&mut store, Statement::ListRecipes),
        Reply::Recipes(vec![stored_salad(1), stored_salad(2)])
    );
}

#[test]
fn find_by_id_and_by_name() {
    let mut store = fresh();
    run(&mut store, new_category("a"));
    run(&mut store, new_category("b"));
    let b = Category { id: 2, name: String::from("b") };
    assert_eq!(run(&mut store, Statement::FindCategory { id: 2 }), Reply::Category(b.clone()));
    assert_eq!(
        run(&mut store, Statement::FindCategoryByName { name: String::from("b") }),
        Reply::Category(b)
    );
    assert_eq!(run(&mut store, Statement::FindCategory { id: 3 }), Reply::Missing);
    assert_eq!(
        run(&mut store, Statement::FindCategoryByName { name: String::from("c") }),
        Reply::Missing
    );
}

#[test]
fn update_returns_the_changed_row() {
    let mut store = fresh();
    run(&mut store, Statement::InsertRecipe { recipe: salad() });
    let changes = ChangeRecipe {
        name: None,
        instructions: None,
        cuisine: None,
        duration_min: Some(15),
        preparation_needed: Some(true),
        portions: None,
        difficulty: None,
    };
    let changed = Recipe { duration_min: 15, preparation_needed: true, ..stored_salad(1) };
    assert_eq!(
        run(&mut store, Statement::UpdateRecipe { id: 1, changes: changes.clone() }),
        Reply::Recipe(changed.clone())
    );
    assert_eq!(run(&mut store, Statement::FindRecipe { id: 1 }), Reply::Recipe(changed));
    assert_eq!(run(&mut store, Statement::UpdateRecipe { id: 2, changes }), Reply::Missing);
    assert_eq!(
        run(
            &mut store,
            Statement::UpdateCategory { id: 1, changes: ChangeCategory { name: None } }
        ),
        Reply::Missing
    );
}

#[test]
fn association_needs_both_rows_and_comes_once() {
    let mut store = fresh();
    run(&mut store, Statement::InsertRecipe { recipe: salad() });
    run(&mut store, new_category("a"));
    assert_eq!(run(&mut store, link(2, 1)), Reply::Failed);
    assert_eq!(run(&mut store, link(1, 2)), Reply::Failed);
    assert_eq!(run(&mut store, link(1, 1)), Reply::Done);
    assert_eq!(run(&mut store, link(1, 1)), Reply::Failed);
    assert_eq!(
        run(&mut store, Statement::CategoriesOfRecipe { recipe_id: 1 }),
        Reply::Categories(vec![Category { id: 1, name: String::from("a") }])
    );
    assert_eq!(
        run(&mut store, Statement::CategoriesOfRecipe { recipe_id: 2 }),
        Reply::Categories(vec![])
    );
}

#[test]
fn a_row_in_use_cannot_be_deleted() {
    let mut store = fresh();
    run(&mut store, Statement::InsertRecipe { recipe: salad() });
    run(&mut store, new_category("a"));
    run(&mut store, link(1, 1));
    assert_eq!(run(&mut store, Statement::DeleteRecipe { id: 1 }), Reply::Failed);
    assert_eq!(run(&mut store, Statement::DeleteCategory { id: 1 }), Reply::Failed);
    assert_eq!(run(&mut store, Statement::DeleteCategoriesOfRecipe { recipe_id: 1 }), Reply::Done);
    assert_eq!(run(&mut store, Statement::DeleteRecipe { id: 1 }), Reply::Done);
    assert_eq!(run(&mut store, Statement::DeleteCategory { id: 1 }), Reply::Done);
    assert_eq!(run(&mut store, Statement::FindRecipe { id: 1 }), Reply::Missing);
    assert_eq!(run(&mut store, Statement::DeleteRecipe { id: 1 }), Reply::Done);
}

#[test]
fn delete_of_associations_by_category() {
    let mut store = fresh();
    run(&mut store, Statement::InsertRecipe { recipe: salad() });
    run(&mut store, new_category("a"));
    run(&mut store, new_category("b"));
    run(&mut store, link(1, 1));
    run(&mut store, link(1, 2));
    assert_eq!(
        run(&mut store, Statement::DeleteRecipesOfCategory { category_id: 1 }),
        Reply::Done
    );
    assert_eq!(
        run(&mut store, Statement::CategoriesOfRecipe { recipe_id: 1 }),
        Reply::Categories(vec![Category { id: 2, name: String::from("b") }])
    );
}

#[test]
fn rollback_restores_the_tables_and_keeps_the_counters() {
    let mut store = fresh();
    store.execute(Statement::InsertRecipe { recipe: salad() });
    assert_eq!(store.execute(Statement::Begin), Reply::Done);
    store.execute(Statement::InsertRecipe { recipe: salad() });
    store.execute(Statement::DeleteRecipe { id: 1 });
    assert_eq!(
        store.execute(Statement::ListRecipes),
        Reply::Recipes(vec![stored_salad(2)])
    );
    assert_eq!(store.execute(Statement::Rollback), Reply::Done);
    assert_eq!(
        store.execute(Statement::ListRecipes),
        Reply::Recipes(vec![stored_salad(1)])
    );
    assert_eq!(
        store.execute(Statement::InsertRecipe { recipe: salad() }),
        Reply::Recipe(stored_salad(3))
    );
}

#[test]
fn commit_keeps_the_writes() {
    let mut store = fresh();
    store.execute(Statement::Begin);
    store.execute(Statement::InsertRecipe { recipe: salad() });
    assert_eq!(store.execute(Statement::Commit), Reply::Done);
    assert_eq!(store.execute(Statement::Rollback), Reply::Done);
    assert_eq!(
        store.execute(Statement::ListRecipes),
        Reply::Recipes(vec![stored_salad(1)])
    );
}

#[test]
fn close_undoes_an_open_transaction() {
    let mut connection = fresh();
    connection.execute(Statement::InsertRecipe { recipe: salad() });
    connection.execute(Statement::Begin);
    connection.execute(Statement::InsertRecipe { recipe: salad() });
    let mut again = Connection::open(connection.close());
    assert_eq!(again.execute(Statement::ListRecipes), Reply::Recipes(vec![stored_salad(1)]));
}

#[test]
fn close_keeps_what_was_committed() {
    let mut connection = fresh();
    connection.execute(Statement::Begin);
    connection.execute(Statement::InsertRecipe { recipe: salad() });
    connection.execute(Statement::Commit);
    let mut again = Connection::open(connection.close());
    assert_eq!(again.execute(Statement::ListRecipes), Reply::Recipes(vec![stored_salad(1)]));
}
