[package]
name = "binsize"
version = "0.1.0"
edition = "2021"
publish = false

[dependencies]
object = { version = "*", features = ["write"] }
rustc-demangle = "*"
cpp_demangle = "*"
regex = "*"
memmap2 = "*"
json = "*"
toml = "*"
libc = "*"
