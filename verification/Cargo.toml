[package]
name = "system-broadcaster"
version = "0.1.0"
edition = "2021"
publish = false

[dependencies]
futures-util = { version = "0.3", default-features = false, features = ["std"] }
libc = "0.2"
log = "0.4"
objc2-core-foundation = { version = "0.3", default-features = false, features = ["std", "CFBase", "CFData", "CFDictionary", "CFNotificationCenter", "CFString"] }
tokio = { version = "1", features = ["net", "rt", "sync"] }
