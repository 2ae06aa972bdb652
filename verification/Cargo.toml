[package]
name = "armature-features"
version = "0.1.0"
edition = "2021"
rust-version = "1.95"
publish = false

[dependencies]
launchdarkly-server-sdk = "=2.6.3"
# Not named by the code: it holds the SDK's own dependency, in which
# `ContextBuilder` stands, to a version that builds with rust-version.
launchdarkly-server-sdk-evaluation = "=2.1.4"
regex = "=1.13.1"
serde = { version = "=1.0.229", features = ["derive"] }
serde_json = "=1.0.154"
sha2 = "=0.10.9"
thiserror = "=2.0.21"
