[package]
name = "firework"
version = "0.1.0"
edition = "2021"
publish = false

[dependencies]
hashbrown = "*"
elf = "0.7"
postcard = { version = "1", features = ["alloc"] }
serde = { version = "1", features = ["derive"] }
log = "0.4"
spin = "*"
itertools = "*"
num_enum = "*"
bitfield-struct = "*"
modular-bitfield = "*"
rustc-demangle = "0.1"
seq-macro = "*"
font8x8 = "*"
uefi = "*"
