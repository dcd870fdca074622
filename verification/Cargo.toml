[package]
name = "mgsdfe"
version = "0.1.0"
edition = "2021"
publish = false

[dependencies]
egui = { version = "0.28", default-features = false }
egui-wgpu = { version = "0.28", default-features = false }
egui_node_graph2 = { version = "0.6.0", default-features = false }
wgpu = { version = "0.20", default-features = false, features = ["glsl"] }
serde = { version = "1", features = ["derive"] }
serde_json = "1"
