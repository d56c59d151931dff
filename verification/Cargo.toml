[package]
name = "proc-debug"
version = "0.1.0"
edition = "2021"
publish = false

[dependencies]
syn = { version = "=2.0.119", features = ["full", "parsing", "printing", "extra-traits"] }
proc-macro2 = "=1.0.107"
template-quote = "=0.5.0"
comment = "=0.1.1"
shtring = "=0.1.0"
argp = "=0.4.1"
termcolor = "=1.4.1"
proc-state = "=0.1.1"
anyhow = "=1.0.104"
clap = { version = "=4.6.7", features = ["derive"] }
darling = "=0.24.1"
proc-macro-error = "=1.0.4"
bat = { version = "=0.26.1", default-features = false, features = ["regex-fancy"] }
zip = { version = "=9.0.5", default-features = false, features = ["deflate"] }
reqwest = { version = "=0.13.5", default-features = false, features = ["blocking"] }
