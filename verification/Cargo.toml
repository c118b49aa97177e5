[package]
name = "cvapi"
version = "0.1.0"
edition = "2021"
publish = false

[dependencies]
ureq = "2"
rusqlite = { version = "*", features = ["bundled"] }
url = "2"
bpaf = "*"
dialoguer = "*"
directories = "*"
keyring = "*"
log = "0.4"
env_logger = "*"
termcolor = "1"
toml = "*"
serde = { version = "1", features = ["derive"] }
atty = "0.2"
whoami = "1"
copypasta = "*"

[dev-dependencies]
mockito = "1"
temp-dir = "*"
