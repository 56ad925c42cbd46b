[package]
name = "jdeduplix"
version = "0.1.0"
edition = "2021"
publish = false

[dependencies]
deunicode = "*"
rphonetic = "*"
rust-stemmers = "*"
stop-words = "*"
strsim = "*"
triple_accel = "*"
unicode-normalization = "*"
whatlang = "*"
blake3 = "*"
rayon = "*"
serde = { version = "*", features = ["derive"] }
serde_json = "*"
tracing = "*"
