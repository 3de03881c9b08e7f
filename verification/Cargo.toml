[package]
name = "ratatui-3dmesh"
version = "0.1.3"
edition = "2021"
publish = false

[dependencies]
image = { version = "0.25", default-features = false, features = ["png", "jpeg"] }
ratatui = "*"
crossterm = "*"
serde = { version = "1", features = ["derive"] }
thiserror = "2"
gltf = { version = "1", features = ["KHR_materials_unlit", "KHR_materials_emissive_strength", "KHR_materials_pbrSpecularGlossiness", "KHR_texture_transform"] }
