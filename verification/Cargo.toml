[package]
name = "dslcad"
version = "0.1.0"
edition = "2021"
publish = false

[dependencies]
serde = { version = "1", features = ["derive"] }
quick-xml = { version = "*", features = ["serialize"] }
zip = { version = "*", default-features = false, features = ["deflate"] }
stl_io = "*"
thiserror = "*"
clap = { version = "4", features = ["derive"] }
vfs = "*"
