[package]
name = "todo_list"
version = "0.1.0"
edition = "2021"
publish = false

[dependencies]
serde = { version = "=1.0.229", features = ["derive"] }
serde_json = "=1.0.151"
app_dirs = "=1.2.1"
druid = "=0.8.3"
