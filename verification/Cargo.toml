[package]
name = "random_tables_web"
version = "0.1.0"
edition = "2021"
publish = false

[dependencies]
liquid = "=0.25.1"
rand = "=0.8.8"
bcrypt = "=0.19.3"
postgres = "=0.19.14"
warp = { version = "=0.4.3", features = ["server"] }
tokio = { version = "=1.53.2", features = ["macros", "rt-multi-thread"] }
serde = { version = "=1.0.229", features = ["derive"] }
serde_json = "=1.0.151"
