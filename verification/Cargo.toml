[package]
name = "meso_forge_mirror"
version = "0.1.0"
edition = "2021"
publish = false

[dependencies]
regex = "*"
serde_json = "*"
md-5 = "*"
sha2 = "*"
bzip2 = "*"
tar = "*"
flate2 = "*"
url = "*"
zip = { version = "*", default-features = false, features = ["deflate"] }
anyhow = "*"
clap = { version = "*", features = ["derive"] }
tokio = { version = "*", features = ["macros", "rt-multi-thread", "time", "fs"] }
reqwest = { version = "*", default-features = false, features = ["rustls-tls", "json"] }
serde = { version = "*", features = ["derive"] }
serde_yaml = "*"
comfy-table = "*"
chrono = { version = "*", default-features = false, features = ["clock", "std"] }
tracing = "*"
tracing-subscriber = { version = "*", features = ["env-filter"] }
tempfile = "*"
bytes = "*"
aws-config = "*"
aws-sdk-s3 = "*"
