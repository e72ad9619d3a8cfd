[package]
name = "component-templates"
version = "0.1.0"
edition = "2021"
publish = false

[dependencies]
handlebars = "=6.4.4"
serde = { version = "=1.0.229", features = ["derive"] }
serde_json = "=1.0.154"
greentic-types = "0.4"
greentic-interfaces-guest = "0.4"
