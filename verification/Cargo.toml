[package]
name = "git_release"
version = "0.1.0"
edition = "2021"
publish = false

[dependencies]
git2 = "=0.21.0"
octocrab = "=0.41.2"
tokio = { version = "=1.53.2", features = ["macros", "rt-multi-thread"] }
structopt = "=0.3.26"
colored = "=3.1.1"

[dev-dependencies]
tempfile = "=3.27.0"
