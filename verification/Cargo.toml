[package]
name = "wasm_lsp_server"
version = "0.1.0"
edition = "2021"
publish = false

[dependencies]
ropey = "=1.6.1"
wast = "=263.0.0"
codespan-lsp = "=0.13.1"
codespan-reporting = "=0.13.1"
lsp-types = "=0.91.1"
tower-lsp = "=0.20.0"
tokio = { version = "=1.54.1", features = ["full"] }
serde_json = "=1.0.154"
dashmap = "=5.5.3"
anyhow = "=1.0.104"
thiserror = "=1.0.69"
log = "=0.4.35"
env_logger = "=0.11.11"
tree-sitter = "=0.20.10"
futures = "=0.3.34"
pico-args = "=0.5.0"
dunce = "=1.0.5"
sled = "=0.34.7"
uuid = { version = "=1.29.1", features = ["v4"] }
zerocopy = "=0.8.63"
lazy_static = "=1.5.1"
