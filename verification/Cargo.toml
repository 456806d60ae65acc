[package]
name = "workingcopy"
version = "0.1.0"
edition = "2021"
publish = false

[dependencies]
anyhow = "1"
bytes = "1"
fbthrift = "0.0.3"
paste = "1"
percent-encoding = "2"
quickcheck = "1"
serde_json = "1"
tracing = "0.1"
twox-hash = "1.6"
