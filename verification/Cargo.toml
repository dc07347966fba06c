[package]
name = "bump_allocator"
version = "0.1.0"
edition = "2021"
publish = false

[dependencies]
allocator = "=0.0.2"
arceos_api = "=0.3.0-preview.3"
hashbrown = "=0.14.5"
