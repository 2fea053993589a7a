[package]
name = "scepter"
version = "0.1.0"
edition = "2021"
publish = false

[dependencies]
quick-xml = { version = "0.37", features = ["serialize"] }
serde = { version = "1", features = ["derive"] }
serde_json = "1"
thiserror = "2"
parking_lot = "0.12"
reqwest = { version = "0.12", default-features = false, features = ["blocking", "json"] }
egui = { version = "0.31", default-features = false, features = ["default_fonts", "serde"] }
egui-snarl = { version = "0.7", features = ["serde"] }
egui_material_icons = "0.3"
env_logger = { version = "0.11", default-features = false }
