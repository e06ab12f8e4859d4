[package]
name = "converter_bot"
version = "0.1.0"
edition = "2021"
publish = false

[dependencies]
anyhow = "=1.0.104"
dptree = "=0.3.0"
getrandom = "=0.4.3"
image = { version = "=0.25.10", default-features = false, features = ["png", "jpeg", "webp", "bmp", "ico", "gif"] }
log = "=0.4.35"
pretty_env_logger = "=0.5.0"
# Not called here: holds teloxide-core's dependency at a release that builds with rustc 1.95
# (takecell 0.1.2 asks for 1.96).
takecell = "=0.1.1"
teloxide = { version = "=0.12.2", default-features = false, features = ["macros", "ctrlc_handler", "rustls"] }
tokio = { version = "=1.54.1", features = ["full"] }
uuid = "=1.29.0"
