[package]
name = "fas_rs"
version = "0.1.0"
edition = "2021"
publish = false

[dependencies]
actix-web = { version = "4", default-features = false, features = ["macros"] }
anyhow = "=1.0.104"
clap = { version = "=4.6.7", features = ["derive"] }
cpp_demangle = "=0.5.1"
dumpsys-rs = "*"
flexi_logger = { version = "=0.31.10", default-features = false }
fs_extra = "=1.3.0"
goblin = "=0.10.7"
inotify = "=0.11.5"
libc = "=0.2.191"
log = "=0.4.35"
mlua = { version = "*", features = ["lua54", "vendored"] }
once_cell = "=1.21.4"
quick-xml = { version = "=0.42.0", features = ["serialize"] }
rand = "=0.8.8"
rusqlite = { version = "=0.41.1", features = ["bundled"] }
serde = { version = "=1.0.229", features = ["derive"] }
thiserror = "=2.0.21"
toml = "=0.8.23"
zip = { version = "=9.2.2", default-features = false, features = ["deflate"] }
