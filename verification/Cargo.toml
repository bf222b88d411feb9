[package]
name = "sys_info"
version = "0.1.0"
edition = "2021"
publish = false

[dependencies]
md5 = "=0.7.0"
machineid-rs = "=1.2.4"
futures = "*"
futures-timer = "*"
async-std = "*"
actix-web = "4"
serde = { version = "1", features = ["derive"] }
serde_json = "1"
toml = "*"
env_logger = "*"
reqwest = { version = "0.12.28", default-features = false, features = ["blocking", "json"] }
