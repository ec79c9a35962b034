[package]
name = "opendal_mount"
version = "0.1.0"
edition = "2021"
publish = false

[dependencies]
bimap = "*"
uuid = { version = "*", features = ["v4"] }
opendal = { version = "*", default-features = false, features = ["services-fs", "services-memory"] }
nfsserve = "*"
tokio = { version = "*", features = ["rt-multi-thread", "macros", "net", "signal", "process", "sync", "io-util"] }
tokio-util = "*"
async-trait = "*"
bytes = "*"
log = "*"
anyhow = "*"
libc = "*"
clap = { version = "*", features = ["derive"] }
snafu = "*"
axum = "*"
async-graphql = "*"
async-graphql-axum = "*"
