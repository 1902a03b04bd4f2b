[package]
name = "rustos"
version = "0.1.0"
edition = "2021"
publish = false

[dependencies]
bitflags = "2"
lazy_static = { version = "1", features = ["spin_no_std"] }
linked_list_allocator = "0.10"
spin = "0.9"
