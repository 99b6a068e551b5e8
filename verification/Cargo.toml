[package]
name = "flow_edge"
version = "0.1.0"
edition = "2021"
publish = false

[dependencies]
anyhow = "=1.0.104"
base64 = "=0.22.1"
bytes = "1"
clap = { version = "=4.6.7", features = ["derive", "string", "env"] }
color-print = "0.3"
data-url = "=0.3.2"
dotenvy = "=0.15.7"
env_logger = "=0.11.11"
fastwebsockets = { version = "*", features = ["upgrade", "unstable-split"] }
futures = "0.3"
glob = "=0.3.4"
http = "1"
http-body-util = "0.1"
hyper = { version = "1", features = ["server", "http1"] }
hyper-util = { version = "0.1", features = ["tokio", "server", "server-auto", "server-graceful", "http1"] }
indexmap = "2"
log = "=0.4.35"
once_cell = "=1.21.4"
pathdiff = "=0.2.3"
regex = "=1.13.1"
scopeguard = "1"
serde = { version = "=1.0.229", features = ["derive"] }
serde_json = "=1.0.154"
sourcemap = "=9.3.2"
tokio = { version = "=1.54.1", features = ["rt", "rt-multi-thread", "sync", "time", "macros", "net", "io-util"] }
tokio-util = "=0.7.20"
url = "=2.5.8"
uuid = { version = "=1.29.0", features = ["v4", "v5"] }
xxhash-rust = { version = "=0.8.19", features = ["xxh3"] }
