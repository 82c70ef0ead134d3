[package]
name = "tks"
version = "0.1.0"
edition = "2021"
publish = false

[dependencies]
openssl = "0.10"
uuid = { version = "1", features = ["v4", "serde"] }
rand = "0.8"
vec_map = "0.8"
roxmltree = "0.19"
secrecy = "0.8"
dbus = "0.9"
dbus-crossroads = "0.5"
dbus-tokio = "0.7"
tokio = { version = "1", features = ["full"] }
log = "0.4"
pretty_env_logger = "0.5"
serde = { version = "1", features = ["derive"] }
serde_json = "1"
config = { version = "0.14", default-features = false, features = ["toml"] }
xdg = "2"
shellexpand = "3"
homedir = "0.3"
pinentry = "0.5"
parking_lot = "0.12"
clap = { version = "4", features = ["derive"] }
clap-verbosity-flag = "2"
colored = "2"
console = "0.15"
anyhow = "1"
