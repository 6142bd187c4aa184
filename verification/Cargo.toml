[package]
name = "tweet_service"
version = "0.1.0"
edition = "2021"
publish = false

[dependencies]
uuid = { version = "1", features = ["v4", "serde"] }
chrono = { version = "0.4", features = ["serde"] }
serde = { version = "1", features = ["derive"] }
actix-web = { version = "4", default-features = false, features = ["macros"] }
actix-rt = "2"
diesel = { version = "2", default-features = false, features = ["postgres", "r2d2", "uuid", "chrono"] }
