[package]
name = "compare_image"
version = "0.1.0"
edition = "2021"
publish = false

[dependencies]
derive_more = { version = "1", features = ["deref", "deref_mut", "display"] }
leptos = { version = "0.6", features = ["csr"] }
leptos-use = "0.13"
