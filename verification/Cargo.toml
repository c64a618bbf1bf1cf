[package]
name = "capnp_sync"
version = "0.1.0"
edition = "2021"
publish = false

[dependencies]
capnp = "*"
capnp-rpc = "*"
compio-io = { version = "*", features = ["compat"] }
compio-net = "*"
futures = "*"
log = "*"
ntex = { version = "=3.10.1", features = ["compio"] }
thiserror = "*"
