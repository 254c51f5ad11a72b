[package]
name = "cargo_bup"
version = "0.1.0"
edition = "2021"
publish = false

[dependencies]
url = "=2.5.8"
siphasher = "=1.0.4"
clap = { version = "*", features = ["derive"] }
clap_complete = "*"
serde = { version = "*", features = ["derive"] }
serde_json = "*"
home = "*"
crates-index = { version = "=3.14.2", default-features = false, features = ["git"] }
gix = { version = "=0.87.1", default-features = false, features = ["blocking-network-client", "blob-diff", "revision"] }
rayon = "*"
thread_local = "*"
anyhow = "*"
