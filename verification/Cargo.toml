[package]
name = "my_async"
version = "0.1.0"
edition = "2021"
publish = false

[dependencies]
cache-padded = "=1.3.0"
claim = "=0.5.0"
claims = "=0.7.1"
crossbeam-utils = "=0.8.23"
flume = "=0.10.14"
futures-lite = "=1.13.0"
log = "=0.4.35"
mio = { version = "=0.8.11", features = ["os-poll", "os-ext", "net"] }
num_cpus = "=1.17.0"
once_cell = "=1.21.4"
parking_lot = "=0.12.5"
priority-queue = "=1.4.0"
rustc-hash = "=1.1.0"
rustix = { version = "=0.35.16", features = ["fs"] }
sharded-slab = "=0.1.7"
waker-fn = "=1.2.0"
