[package]
name = "member_auth"
version = "0.1.0"
edition = "2021"
publish = false

[dependencies]
actix-files = "0.6"
actix-session = { version = "0.7", features = ["cookie-session"] }
actix-web = { version = "4", default-features = false, features = ["macros", "cookies"] }
base64 = "0.21"
chrono = { version = "0.4", default-features = false, features = ["clock", "std", "serde"] }
futures = { version = "0.3", default-features = false, features = ["std"] }
jsonwebtoken = { version = "8", default-features = false }
leptos = { version = "0.4", features = ["ssr"] }
leptos_actix = "0.4"
leptos_meta = { version = "0.4", features = ["ssr"] }
leptos_router = { version = "0.4", features = ["ssr"] }
once_cell = "1"
serde = { version = "1", features = ["derive"] }
thiserror = "1"
tokio = { version = "1", features = ["time"] }
