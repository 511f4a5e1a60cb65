[package]
name = "ferium"
version = "0.1.0"
edition = "2021"
publish = false

[dependencies]
regex = "=1.13.1"
onig = { version = "=6.5.3", default-features = false }
sha1 = "=0.10.7"
sha2 = "=0.10.9"
furse = "=1.6.1"
ferinth = "=2.13.1"
octocrab = "=0.40.0"
reqwest = "=0.12.28"
tokio = { version = "=1.54.1", features = ["full"] }
serde = { version = "=1.0.229", features = ["derive"] }
serde_json = "=1.0.154"
clap = { version = "=4.6.7", features = ["derive"] }
clap_complete = "=4.6.11"
anyhow = "=1.0.104"
thiserror = "=2.0.21"
colored = "=3.1.1"
inquire = "=0.9.4"
indicatif = "=0.18.6"
zip = { version = "=9.2.2", default-features = false, features = ["deflate"] }
fs_extra = "=1.3.0"
size = "=0.6.0"
parking_lot = "=0.12.5"
url = "=2.5.8"
itertools = "=0.13.0"
futures-util = "=0.3.34"
