[package]
name = "effectlatch"
version = "0.1.0"
edition = "2021"
publish = false

[dependencies]
axum = "0.8"
base64 = "0.22"
hyper = { version = "1", features = ["http1", "server"] }
hyper-util = { version = "0.1", features = ["tokio", "service"] }
serde = { version = "1", features = ["derive"] }
serde_json = { version = "1", features = ["raw_value"] }
sha2 = "0.10"
sqlx = { version = "0.8", default-features = false, features = ["runtime-tokio", "postgres", "uuid", "migrate"] }
subtle = "2"
thiserror = "2"
time = { version = "0.3", features = ["parsing", "formatting"] }
tokio = { version = "1", features = ["rt-multi-thread", "net", "time", "signal", "macros", "sync"] }
toml = "0.8"
uuid = { version = "1", features = ["v4", "serde"] }
wasmparser = "0.236"
wasmtime = { version = "36", default-features = false, features = ["cranelift", "runtime"] }

[dev-dependencies]
wat = "1"
