[package]
name = "blaze64"
version = "0.1.0"
edition = "2021"
publish = false

[dependencies]
string-interner = "=0.20.0"
wasmtime = { version = "=46.0.3", default-features = false, features = ["cranelift", "runtime", "async", "std"] }
tokio = { version = "=1.54.1", features = ["full"] }
cap-std = "=4.0.3"
app_dirs2 = "=2.5.5"
