[package]
name = "libosu"
version = "0.1.0"
edition = "2021"
publish = false

[dependencies]
byteorder = "=1.5.0"
xz2 = "=0.1.7"
rosu-pp = "0.9"
serde = { version = "1", features = ["derive"] }
serde_json = "1"
chrono = { version = "0.4", default-features = false, features = ["serde", "std"] }
reqwest = { version = "0.12", default-features = false, features = ["json"] }
num-traits = "0.2"
ordered-float = "*"
thiserror = "1"
