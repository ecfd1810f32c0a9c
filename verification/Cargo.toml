[package]
name = "tg_schema"
version = "0.1.0"
edition = "2021"
publish = false

[dependencies]
anyhow = "*"
rayon = "*"
reqwest = { version = "*", default-features = false }
select = "*"
tokio = { version = "*", default-features = false, features = ["macros", "rt-multi-thread"] }
