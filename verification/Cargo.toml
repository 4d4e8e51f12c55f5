[package]
name = "affinitypool"
version = "0.6.0"
edition = "2021"
publish = false

[dependencies]
arc-swap = "1"
async-task = "4"
crossbeam-deque = "0.8"
crossbeam-utils = "0.8"
libc = "0.2"
num_cpus = "1"
parking_lot = "0.12"
thiserror = "2"
winapi = { version = "0.3", features = ["basetsd", "processthreadsapi", "winbase"] }
