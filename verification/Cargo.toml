[package]
name = "ddos_mitigation_tool"
version = "0.1.0"
edition = "2021"
publish = false

[dependencies]
etherparse = "*"
pcap = "*"
serde = { version = "1", features = ["derive"] }
serde_json = "1"
dotenvy = "*"
anyhow = "1"
tokio = { version = "1", features = ["macros", "rt-multi-thread"] }
tracing = "*"
tracing-subscriber = "*"
