[package]
name = "teralaunch"
version = "0.0.7"
edition = "2021"
publish = false

[dependencies]
lazy_static = "1"
log = "0.4"
once_cell = "1"
prost = { version = "0.13", default-features = false, features = ["std"] }
quick-xml = { version = "0.31", features = ["serialize"] }
reqwest = { version = "0.11", default-features = false, features = ["json", "rustls-tls"] }
serde = { version = "1", features = ["derive"] }
serde_json = "1"
sha2 = "0.10"
tokio = { version = "1", features = ["macros", "rt", "rt-multi-thread", "sync", "time"] }
winapi = { version = "0.3", features = ["errhandlingapi", "libloaderapi", "minwindef", "windef", "winuser"] }
