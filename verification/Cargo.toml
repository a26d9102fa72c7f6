[package]
name = "learning-management-system"
version = "0.1.0"
edition = "2021"
publish = false

[dependencies]
uuid = { version = "1", features = ["v4"] }
sha2 = "0.10"
actix-web = { version = "4", default-features = false, features = ["macros"] }
actix-cors = "0.7"
sea-orm = { version = "0.12", default-features = false, features = ["macros", "with-uuid", "with-chrono"] }
chrono = { version = "0.4", default-features = false, features = ["clock", "std"] }
serde = { version = "1", features = ["derive"] }
serde_json = "1"
dotenv = "0.15"
