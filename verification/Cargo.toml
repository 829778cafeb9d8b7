[package]
name = "recipes_rs"
version = "0.1.0"
edition = "2021"
publish = false

[dependencies]
actix-web = { version = "4", default-features = false, features = ["macros"] }
bigdecimal = "0.4"
derive_more = { version = "*", features = ["display", "error"] }
diesel = { version = "2", features = ["postgres_backend", "numeric"] }
diesel-async = { version = "*", features = ["postgres", "deadpool"] }
dotenvy = "0.15"
serde = { version = "1", features = ["derive"] }
serde_json = "1"
